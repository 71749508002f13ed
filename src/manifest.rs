//! Release manifests: one `<file> <code id>` pair per line, as a release
//! publishes them.
use vstd::prelude::*;

use crate::contracts::CodeIdEntry;
use crate::text::{parse_u128, parse_u128_spec};

verus! {

/// ASCII whitespace, as `str::split_ascii_whitespace` takes it.
pub open spec fn is_ascii_ws(c: char) -> bool {
    c == ' ' || c == '\t' || c == '\n' || c == '\r' || c == '\x0C'
}

/// Words so far and the word being read.
pub open spec fn word_state(s: Seq<char>) -> (Seq<Seq<char>>, Seq<char>)
    decreases s.len(),
{
    if s.len() == 0 {
        (Seq::empty(), Seq::empty())
    } else {
        let (ws, cur) = word_state(s.drop_last());
        if is_ascii_ws(s.last()) {
            if cur.len() > 0 { (ws.push(cur), Seq::empty()) } else { (ws, Seq::empty()) }
        } else {
            (ws, cur.push(s.last()))
        }
    }
}

/// The non-empty runs of non-whitespace characters, in order.
pub open spec fn words_of(s: Seq<char>) -> Seq<Seq<char>> {
    let (ws, cur) = word_state(s);
    if cur.len() > 0 { ws.push(cur) } else { ws }
}

/// Lines so far and the line being read.
pub open spec fn line_state(s: Seq<char>) -> (Seq<Seq<char>>, Seq<char>)
    decreases s.len(),
{
    if s.len() == 0 {
        (Seq::empty(), Seq::empty())
    } else {
        let (ls, cur) = line_state(s.drop_last());
        if s.last() == '\n' {
            (ls.push(cur), Seq::empty())
        } else {
            (ls, cur.push(s.last()))
        }
    }
}

/// The lines of a text, as `BufRead::lines` gives them (a final newline
/// ends the last line and starts none), line ends still attached where a
/// line ends in a carriage return.
pub open spec fn lines_of(s: Seq<char>) -> Seq<Seq<char>> {
    let (ls, cur) = line_state(s);
    if cur.len() > 0 { ls.push(cur) } else { ls }
}

/// `s` with every occurrence of `pat`, left to right and not overlapping,
/// replaced by `rep`.
pub open spec fn replace_all(s: Seq<char>, pat: Seq<char>, rep: Seq<char>) -> Seq<char>
    decreases s.len(),
{
    if s.len() == 0 {
        Seq::empty()
    } else if pat.len() > 0 && pat.len() <= s.len() && s.subrange(0, pat.len() as int) == pat {
        rep + replace_all(s.subrange(pat.len() as int, s.len() as int), pat, rep)
    } else {
        seq![s[0]] + replace_all(s.drop_first(), pat, rep)
    }
}

/// The prefix that release file names carry.
pub const MODULE_PREFIX: &'static str = "valence_";
/// The extension that release file names carry.
pub const FILE_EXTENSION: &'static str = ".wasm";

/// The contract name of a release file: without the module prefix and the
/// file extension.
pub open spec fn contract_name_spec(file: Seq<char>) -> Seq<char> {
    replace_all(replace_all(file, MODULE_PREFIX@, Seq::empty()), FILE_EXTENSION@, Seq::empty())
}

/// Why a manifest could not be read.
#[derive(Clone, Copy, Debug, PartialEq, Eq, Structural)]
pub enum ManifestError {
    /// A line does not hold exactly two words.
    InvalidLine,
    /// A code id is not a 64-bit unsigned number.
    InvalidCodeId,
}

/// What `str::parse::<u64>` gives.
pub open spec fn parse_u64_spec(s: Seq<char>) -> Option<u64> {
    match parse_u128_spec(s) {
        Some(v) => if v <= u64::MAX as u128 { Some(v as u64) } else { None },
        None => None,
    }
}

/// One line of a manifest, read.
pub open spec fn parse_line_spec(line: Seq<char>) -> Result<(Seq<char>, u64), ManifestError> {
    let w = words_of(line);
    if w.len() != 2 {
        Err(ManifestError::InvalidLine)
    } else {
        match parse_u64_spec(w[1]) {
            Some(id) => Ok((contract_name_spec(w[0]), id)),
            None => Err(ManifestError::InvalidCodeId),
        }
    }
}

/// All lines of a manifest, read; the first line that cannot be read decides.
pub open spec fn parse_lines_spec(ls: Seq<Seq<char>>) -> Result<Seq<(Seq<char>, u64)>, ManifestError>
    decreases ls.len(),
{
    if ls.len() == 0 {
        Ok(Seq::empty())
    } else {
        match parse_line_spec(ls[0]) {
            Err(e) => Err(e),
            Ok(x) => match parse_lines_spec(ls.drop_first()) {
                Ok(rest) => Ok(seq![x] + rest),
                Err(e) => Err(e),
            },
        }
    }
}

/// A manifest, read.
pub open spec fn parse_manifest_spec(content: Seq<char>) -> Result<Seq<(Seq<char>, u64)>, ManifestError> {
    parse_lines_spec(lines_of(content))
}

/// The view of manifest entries.
pub open spec fn entries_view(v: Seq<CodeIdEntry>) -> Seq<(Seq<char>, u64)> {
    v.map_values(|e: CodeIdEntry| (e.name@, e.code_id))
}

/// The view of a list of strings.
pub open spec fn strings_view(v: Seq<String>) -> Seq<Seq<char>> {
    v.map_values(|s: String| s@)
}

fn is_ascii_ws_exec(c: char) -> (r: bool)
    ensures
        r == is_ascii_ws(c),
{
    c == ' ' || c == '\t' || c == '\n' || c == '\r' || c == '\x0C'
}

/// Splits a text at ASCII whitespace into its words.
pub fn split_words(s: &str) -> (r: Vec<String>)
    ensures
        strings_view(r@) == words_of(s@),
{
    let n = s.unicode_len();
    let mut ws: Vec<String> = Vec::new();
    let mut cur = String::new();
    let mut i: usize = 0;
    while i < n
        invariant
            n == s@.len(),
            i <= n,
            (strings_view(ws@), cur@) == word_state(s@.subrange(0, i as int)),
        decreases n - i,
    {
        let ghost pre = s@.subrange(0, i as int);
        assert(s@.subrange(0, i + 1).drop_last() =~= pre);
        assert(s@.subrange(0, i + 1).last() == s@[i as int]);
        let c = s.get_char(i);
        if is_ascii_ws_exec(c) {
            if !cur.as_str().is_empty() {
                let done = cur;
                let ghost before = strings_view(ws@);
                ws.push(done);
                assert(strings_view(ws@) =~= before.push(done@));
                cur = String::new();
            } else {
                cur = String::new();
            }
        } else {
            let piece = s.substring_char(i, i + 1);
            assert(piece@ =~= seq![c]);
            let ghost before = cur@;
            cur.append(piece);
            assert(cur@ =~= before.push(c));
        }
        i = i + 1;
    }
    assert(s@.subrange(0, n as int) =~= s@);
    if !cur.as_str().is_empty() {
        let ghost before = strings_view(ws@);
        let ghost last = cur@;
        ws.push(cur);
        assert(strings_view(ws@) =~= before.push(last));
    }
    ws
}

/// Splits a text into its lines.
pub fn split_lines(s: &str) -> (r: Vec<String>)
    ensures
        strings_view(r@) == lines_of(s@),
{
    let n = s.unicode_len();
    let mut ls: Vec<String> = Vec::new();
    let mut cur = String::new();
    let mut i: usize = 0;
    while i < n
        invariant
            n == s@.len(),
            i <= n,
            (strings_view(ls@), cur@) == line_state(s@.subrange(0, i as int)),
        decreases n - i,
    {
        let ghost pre = s@.subrange(0, i as int);
        assert(s@.subrange(0, i + 1).drop_last() =~= pre);
        assert(s@.subrange(0, i + 1).last() == s@[i as int]);
        let c = s.get_char(i);
        if c == '\n' {
            let done = cur;
            let ghost before = strings_view(ls@);
            ls.push(done);
            assert(strings_view(ls@) =~= before.push(done@));
            cur = String::new();
        } else {
            let piece = s.substring_char(i, i + 1);
            assert(piece@ =~= seq![c]);
            let ghost before = cur@;
            cur.append(piece);
            assert(cur@ =~= before.push(c));
        }
        i = i + 1;
    }
    assert(s@.subrange(0, n as int) =~= s@);
    if !cur.as_str().is_empty() {
        let ghost before = strings_view(ls@);
        let ghost last = cur@;
        ls.push(cur);
        assert(strings_view(ls@) =~= before.push(last));
    }
    ls
}

/// Replaces every occurrence of a non-empty `pat` in `s` by `rep`.
pub fn replace_all_exec(s: &str, pat: &str, rep: &str) -> (r: String)
    requires
        pat@.len() > 0,
    ensures
        r@ == replace_all(s@, pat@, rep@),
{
    let n = s.unicode_len();
    let m = pat.unicode_len();
    let mut out = String::new();
    let mut i: usize = 0;
    assert(s@.subrange(0, n as int) =~= s@);
    while i < n
        invariant
            n == s@.len(),
            m == pat@.len(),
            m > 0,
            i <= n,
            out@ + replace_all(s@.subrange(i as int, n as int), pat@, rep@) == replace_all(s@, pat@, rep@),
        decreases n - i,
    {
        let ghost rest = s@.subrange(i as int, n as int);
        let tail = s.substring_char(i, n);
        if m <= n - i && crate::text::starts_with(tail, pat) {
            assert(rest.subrange(0, m as int) == pat@);
            assert(rest.subrange(m as int, rest.len() as int) =~= s@.subrange(i + m, n as int));
            let ghost before = out@;
            out.append(rep);
            assert(out@ + replace_all(s@.subrange(i + m, n as int), pat@, rep@)
                =~= before + replace_all(rest, pat@, rep@));
            i = i + m;
        } else {
            assert(!(pat@.len() <= rest.len() && rest.subrange(0, pat@.len() as int) == pat@));
            let piece = s.substring_char(i, i + 1);
            assert(piece@ =~= seq![rest[0]]);
            assert(rest.drop_first() =~= s@.subrange(i + 1, n as int));
            let ghost before = out@;
            out.append(piece);
            assert(out@ + replace_all(s@.subrange(i + 1, n as int), pat@, rep@)
                =~= before + replace_all(rest, pat@, rep@));
            i = i + 1;
        }
    }
    assert(s@.subrange(n as int, n as int) =~= Seq::<char>::empty());
    assert(out@ + Seq::<char>::empty() =~= out@);
    out
}

/// The contract name of a release file.
pub fn contract_name(file: &str) -> (r: String)
    ensures
        r@ == contract_name_spec(file@),
{
    proof {
        reveal_strlit("valence_");
        reveal_strlit(".wasm");
        reveal_strlit("");
        assert(""@ =~= Seq::<char>::empty());
    }
    let a = replace_all_exec(file, MODULE_PREFIX, "");
    replace_all_exec(a.as_str(), FILE_EXTENSION, "")
}

/// Reads an unsigned 64-bit number as `str::parse` does.
pub fn parse_u64(s: &str) -> (r: Option<u64>)
    ensures
        r == parse_u64_spec(s@),
{
    match parse_u128(s) {
        Some(v) => if v <= u64::MAX as u128 { Some(v as u64) } else { None },
        None => None,
    }
}

/// Reads one line of a manifest.
pub fn parse_code_id_line(line: &str) -> (r: Result<CodeIdEntry, ManifestError>)
    ensures
        match r {
            Ok(e) => parse_line_spec(line@) == Ok::<(Seq<char>, u64), ManifestError>((e.name@, e.code_id)),
            Err(e) => parse_line_spec(line@) == Err::<(Seq<char>, u64), ManifestError>(e),
        },
{
    let w = split_words(line);
    if w.len() != 2 {
        return Err(ManifestError::InvalidLine);
    }
    assert(w@[0]@ == words_of(line@)[0]);
    assert(w@[1]@ == words_of(line@)[1]);
    match parse_u64(w[1].as_str()) {
        Some(id) => Ok(CodeIdEntry { name: contract_name(w[0].as_str()), code_id: id }),
        None => Err(ManifestError::InvalidCodeId),
    }
}

/// Reads a release manifest into its entries, in order.
pub fn parse_code_ids(content: &str) -> (r: Result<Vec<CodeIdEntry>, ManifestError>)
    ensures
        match r {
            Ok(v) => parse_manifest_spec(content@) == Ok::<Seq<(Seq<char>, u64)>, ManifestError>(entries_view(v@)),
            Err(e) => parse_manifest_spec(content@) == Err::<Seq<(Seq<char>, u64)>, ManifestError>(e),
        },
{
    let lines = split_lines(content);
    let ghost ls = strings_view(lines@);
    let n = lines.len();
    let mut out: Vec<CodeIdEntry> = Vec::new();
    let mut i: usize = 0;
    assert(ls.subrange(0, n as int) =~= ls);
    while i < n
        invariant
            n == lines@.len(),
            ls == strings_view(lines@),
            ls == lines_of(content@),
            i <= n,
            parse_lines_spec(ls) == (match parse_lines_spec(ls.subrange(i as int, n as int)) {
                Ok(rest) => Ok(entries_view(out@) + rest),
                Err(e) => Err(e),
            }),
        decreases n - i,
    {
        let ghost sub = ls.subrange(i as int, n as int);
        assert(sub[0] == lines@[i as int]@);
        assert(sub.drop_first() =~= ls.subrange(i + 1, n as int));
        match parse_code_id_line(lines[i].as_str()) {
            Ok(e) => {
                let ghost before = entries_view(out@);
                out.push(e);
                assert(entries_view(out@) =~= before.push((e.name@, e.code_id)));
                proof {
                    match parse_lines_spec(ls.subrange(i + 1, n as int)) {
                        Ok(rest) => {
                            assert(before + (seq![(e.name@, e.code_id)] + rest) =~= entries_view(out@) + rest);
                        },
                        Err(_) => {},
                    }
                }
            },
            Err(e) => {
                return Err(e);
            },
        }
        i = i + 1;
    }
    assert(ls.subrange(n as int, n as int) =~= Seq::<Seq<char>>::empty());
    assert(entries_view(out@) + Seq::<(Seq<char>, u64)>::empty() =~= entries_view(out@));
    Ok(out)
}

} // verus!

//! The report that every check writes into.
//!
//! A report is a list of keys, each with the messages recorded under it in
//! the order they came. Keys are unique and keep the order in which they were
//! first used; nothing is ever removed or overwritten.
//!
//! Keys are strings, so the report is a list of entries with unique keys
//! rather than a hash map: the list keeps the order of first use, and its
//! contents are stated exactly as a sequence.
use vstd::prelude::*;

use crate::text::concat3;

verus! {

/// The messages recorded under each key, in order.
pub type Log = Seq<(Seq<char>, Seq<Seq<char>>)>;

/// Which provider turns the native token into its liquid-staked form.
#[derive(Clone, Copy, Debug, PartialEq, Eq, Structural)]
pub enum LsProvider {
    Stride,
    Persistence,
}

impl LsProvider {
    /// Reads a provider name as written in the deployment metadata.
    pub fn from_name(value: &str) -> (r: Option<LsProvider>)
        ensures
            r == ls_provider_of(value@),
    {
        proof {
            reveal_strlit("stride");
            reveal_strlit("persistence");
        }
        if crate::text::str_eq(value, "stride") {
            Some(LsProvider::Stride)
        } else if crate::text::str_eq(value, "persistence") {
            Some(LsProvider::Persistence)
        } else {
            None
        }
    }
}

/// The provider that a metadata name selects, if any.
pub open spec fn ls_provider_of(s: Seq<char>) -> Option<LsProvider> {
    if s == "stride"@ {
        Some(LsProvider::Stride)
    } else if s == "persistence"@ {
        Some(LsProvider::Persistence)
    } else {
        None
    }
}

/// The messages recorded under one key.
#[derive(Clone, Debug)]
pub struct ReportEntry {
    pub key: String,
    pub messages: Vec<String>,
}

impl View for ReportEntry {
    type V = (Seq<char>, Seq<Seq<char>>);

    open spec fn view(&self) -> (Seq<char>, Seq<Seq<char>>) {
        (self.key@, self.messages@.map_values(|m: String| m@))
    }
}

/// The log that a list of entries stands for.
pub open spec fn log_of(v: Seq<ReportEntry>) -> Log {
    v.map_values(|e: ReportEntry| e@)
}

/// No key appears twice.
pub open spec fn keys_unique(l: Log) -> bool {
    forall|i: int, j: int| 0 <= i < j < l.len() ==> l[i].0 != l[j].0
}

/// Whether some entry has key `k`.
pub open spec fn has_key(l: Log, k: Seq<char>) -> bool {
    exists|i: int| 0 <= i < l.len() && l[i].0 == k
}

/// The position of key `k` (meaningful where `has_key(l, k)`).
pub open spec fn key_index(l: Log, k: Seq<char>) -> int {
    choose|i: int| 0 <= i < l.len() && l[i].0 == k
}

/// The messages recorded under `k`; empty where nothing was.
pub open spec fn messages_of(l: Log, k: Seq<char>) -> Seq<Seq<char>> {
    if has_key(l, k) {
        l[key_index(l, k)].1
    } else {
        Seq::empty()
    }
}

/// The log after `m` is recorded under `k`: appended to that key's
/// messages, or as a new last key.
pub open spec fn appended(l: Log, k: Seq<char>, m: Seq<char>) -> Log {
    if has_key(l, k) {
        l.update(key_index(l, k), (k, l[key_index(l, k)].1.push(m)))
    } else {
        l.push((k, seq![m]))
    }
}

/// The text recorded for a message about one field.
pub open spec fn field_message(field: Seq<char>, message: Seq<char>) -> Seq<char> {
    field + ": "@ + message
}

/// One record: whether it passes, its key and its text.
pub type Rec = (bool, Seq<char>, Seq<char>);

/// The passing and the failing logs.
pub type Logs = (Log, Log);

/// A passing record of `field` under `key`.
pub open spec fn pass_field(key: Seq<char>, field: Seq<char>, message: Seq<char>) -> Rec {
    (true, key, field_message(field, message))
}

/// A failing record of `field` under `key`.
pub open spec fn fail_field(key: Seq<char>, field: Seq<char>, message: Seq<char>) -> Rec {
    (false, key, field_message(field, message))
}

/// A failing record under `key`, about no single field.
pub open spec fn fail_key(key: Seq<char>, message: Seq<char>) -> Rec {
    (false, key, message)
}

/// The logs after one record.
pub open spec fn apply_record(l: Logs, r: Rec) -> Logs {
    if r.0 {
        (appended(l.0, r.1, r.2), l.1)
    } else {
        (l.0, appended(l.1, r.1, r.2))
    }
}

/// The logs after a list of records, in order.
pub open spec fn apply_records(l: Logs, rs: Seq<Rec>) -> Logs
    decreases rs.len(),
{
    if rs.len() == 0 {
        l
    } else {
        apply_record(apply_records(l, rs.drop_last()), rs.last())
    }
}

/// One more record after a list.
pub proof fn lemma_apply_push(l: Logs, rs: Seq<Rec>, r: Rec)
    ensures
        apply_records(l, rs.push(r)) == apply_record(apply_records(l, rs), r),
{
    assert(rs.push(r).drop_last() =~= rs);
}

/// Records applied in two runs are the records of both lists applied in one.
pub proof fn lemma_apply_concat(l: Logs, a: Seq<Rec>, b: Seq<Rec>)
    ensures
        apply_records(l, a + b) == apply_records(apply_records(l, a), b),
    decreases b.len(),
{
    if b.len() == 0 {
        assert(a + b =~= a);
    } else {
        lemma_apply_concat(l, a, b.drop_last());
        assert((a + b).drop_last() =~= a + b.drop_last());
    }
}

/// Recording keeps keys unique.
pub proof fn lemma_appended_unique(l: Log, k: Seq<char>, m: Seq<char>)
    requires
        keys_unique(l),
    ensures
        keys_unique(appended(l, k, m)),
{
    if has_key(l, k) {
        let i = key_index(l, k);
        assert(0 <= i < l.len() && l[i].0 == k);
        let l2 = appended(l, k, m);
        assert forall|a: int, b: int| 0 <= a < b < l2.len() implies l2[a].0 != l2[b].0 by {
            assert(l2[a].0 == l[a].0);
            assert(l2[b].0 == l[b].0);
        }
    } else {
        let l2 = appended(l, k, m);
        assert forall|a: int, b: int| 0 <= a < b < l2.len() implies l2[a].0 != l2[b].0 by {
            if b == l.len() {
                assert(l2[a].0 == l[a].0);
            } else {
                assert(l2[a].0 == l[a].0 && l2[b].0 == l[b].0);
            }
        }
    }
}

/// With unique keys, the messages of a key are those at its one position.
pub proof fn lemma_messages_at(l: Log, k: Seq<char>, i: int)
    requires
        keys_unique(l),
        0 <= i < l.len(),
        l[i].0 == k,
    ensures
        messages_of(l, k) == l[i].1,
{
    assert(has_key(l, k));
    let j = key_index(l, k);
    if j < i {
        assert(l[j].0 != l[i].0);
    } else if j > i {
        assert(l[i].0 != l[j].0);
    }
}

/// A message recorded under a key stays among that key's messages after
/// any further record.
pub proof fn lemma_appended_keeps(l: Log, k: Seq<char>, m: Seq<char>, k2: Seq<char>, x: Seq<char>)
    requires
        keys_unique(l),
        messages_of(l, k2).contains(x),
    ensures
        messages_of(appended(l, k, m), k2).contains(x),
{
    lemma_appended_unique(l, k, m);
    let l2 = appended(l, k, m);
    assert(has_key(l, k2));
    let j = key_index(l, k2);
    assert(0 <= j < l.len() && l[j].0 == k2);
    assert(l2[j].0 == k2);
    lemma_messages_at(l2, k2, j);
    let w = choose|w: int| 0 <= w < messages_of(l, k2).len() && messages_of(l, k2)[w] == x;
    assert(l2[j].1[w] == x);
}

/// A message just recorded is among its key's messages.
pub proof fn lemma_appended_has(l: Log, k: Seq<char>, m: Seq<char>)
    requires
        keys_unique(l),
    ensures
        messages_of(appended(l, k, m), k).contains(m),
{
    lemma_appended_unique(l, k, m);
    let l2 = appended(l, k, m);
    if has_key(l, k) {
        let i = key_index(l, k);
        assert(0 <= i < l.len() && l[i].0 == k);
        lemma_messages_at(l2, k, i);
        assert(l2[i].1[l2[i].1.len() - 1] == m);
    } else {
        lemma_messages_at(l2, k, l.len() as int);
        assert(l2[l.len() as int].1[0] == m);
    }
}

/// Records keep keys unique.
pub proof fn lemma_apply_unique(l: Logs, rs: Seq<Rec>)
    requires
        keys_unique(l.0),
        keys_unique(l.1),
    ensures
        keys_unique(apply_records(l, rs).0),
        keys_unique(apply_records(l, rs).1),
    decreases rs.len(),
{
    if rs.len() > 0 {
        lemma_apply_unique(l, rs.drop_last());
        let p = apply_records(l, rs.drop_last());
        lemma_appended_unique(p.0, rs.last().1, rs.last().2);
        lemma_appended_unique(p.1, rs.last().1, rs.last().2);
    }
}

/// A failing record among many ends up among its key's failures: the
/// report never loses a failure.
pub proof fn lemma_failure_kept(l: Logs, rs: Seq<Rec>, i: int)
    requires
        keys_unique(l.0),
        keys_unique(l.1),
        0 <= i < rs.len(),
        !rs[i].0,
    ensures
        messages_of(apply_records(l, rs).1, rs[i].1).contains(rs[i].2),
    decreases rs.len(),
{
    let p = apply_records(l, rs.drop_last());
    lemma_apply_unique(l, rs.drop_last());
    if i == rs.len() - 1 {
        lemma_appended_has(p.1, rs[i].1, rs[i].2);
    } else {
        lemma_failure_kept(l, rs.drop_last(), i);
        assert(rs.drop_last()[i] == rs[i]);
        if !rs.last().0 {
            lemma_appended_keeps(p.1, rs.last().1, rs.last().2, rs[i].1, rs[i].2);
        }
    }
}

/// Recording under another key, or another message, leaves a key's
/// messages without `t` if they were without it.
pub proof fn lemma_appended_keeps_absent(l: Log, k2: Seq<char>, m: Seq<char>, k: Seq<char>, t: Seq<char>)
    requires
        keys_unique(l),
        !messages_of(l, k).contains(t),
        k2 != k || m != t,
    ensures
        !messages_of(appended(l, k2, m), k).contains(t),
{
    lemma_appended_unique(l, k2, m);
    let l2 = appended(l, k2, m);
    if has_key(l2, k) {
        let j = key_index(l2, k);
        assert(0 <= j < l2.len() && l2[j].0 == k);
        lemma_messages_at(l2, k, j);
        if j < l.len() {
            assert(l[j].0 == k);
            lemma_messages_at(l, k, j);
            if k2 == k {
                assert(has_key(l, k2));
                let i = key_index(l, k2);
                assert(0 <= i < l.len() && l[i].0 == k2);
                if i != j {
                    if i < j { assert(l[i].0 != l[j].0); } else { assert(l[j].0 != l[i].0); }
                }
                assert(l2[j].1 == l[j].1.push(m));
                assert forall|w: int| 0 <= w < l2[j].1.len() implies l2[j].1[w] != t by {
                    if w < l[j].1.len() {
                        assert(l2[j].1[w] == l[j].1[w]);
                    }
                }
            } else {
                assert(l2[j].1 == l[j].1);
            }
        } else {
            assert(l2[j] == (k2, seq![m]));
            assert(l2[j].1[0] == m);
        }
    }
}

/// A message that no failing record carries under `k`, and that was not
/// among `k`'s failures before, is not among them after.
pub proof fn lemma_failure_absent(l: Logs, rs: Seq<Rec>, k: Seq<char>, t: Seq<char>)
    requires
        keys_unique(l.0),
        keys_unique(l.1),
        !messages_of(l.1, k).contains(t),
        forall|i: int| 0 <= i < rs.len() ==> (#[trigger] rs[i]).0 || rs[i].1 != k || rs[i].2 != t,
    ensures
        !messages_of(apply_records(l, rs).1, k).contains(t),
    decreases rs.len(),
{
    if rs.len() > 0 {
        let rest = rs.drop_last();
        assert forall|i: int| 0 <= i < rest.len() implies (#[trigger] rest[i]).0 || rest[i].1 != k || rest[i].2 != t by {
            assert(rest[i] == rs[i]);
        }
        lemma_failure_absent(l, rest, k, t);
        lemma_apply_unique(l, rest);
        let p = apply_records(l, rest);
        let r = rs[rs.len() - 1];
        if !r.0 {
            lemma_appended_keeps_absent(p.1, r.1, r.2, k, t);
        }
    }
}

/// The state of one validation run: the deployment settings and the
/// passing and failing records written so far.
#[derive(Clone, Debug)]
pub struct CovenantValidationContext {
    party_a_chain_name: String,
    party_a_channel_uses_wasm_port: bool,
    party_b_chain_name: String,
    ls_provider: LsProvider,
    single_side_lp_limit_pct: u32,
    checks: Vec<ReportEntry>,
    errors: Vec<ReportEntry>,
}

/// The limit percentage that a run uses unless the metadata sets one.
pub const DEFAULT_SINGLE_SIDE_LP_LIMIT_PCT: u32 = 10;

impl CovenantValidationContext {
    /// The passing records, as a log.
    pub closed spec fn checks_log(&self) -> Log {
        log_of(self.checks@)
    }

    /// The failing records, as a log.
    pub closed spec fn errors_log(&self) -> Log {
        log_of(self.errors@)
    }

    pub closed spec fn spec_party_a_chain_name(&self) -> Seq<char> {
        self.party_a_chain_name@
    }

    pub closed spec fn spec_party_b_chain_name(&self) -> Seq<char> {
        self.party_b_chain_name@
    }

    pub closed spec fn spec_party_a_channel_uses_wasm_port(&self) -> bool {
        self.party_a_channel_uses_wasm_port
    }

    pub closed spec fn spec_ls_provider(&self) -> LsProvider {
        self.ls_provider
    }

    pub closed spec fn spec_single_side_lp_limit_pct(&self) -> u32 {
        self.single_side_lp_limit_pct
    }

    /// Both logs.
    pub open spec fn logs(&self) -> Logs {
        (self.checks_log(), self.errors_log())
    }

    /// Keys are unique in both logs.
    pub open spec fn wf(&self) -> bool {
        keys_unique(self.checks_log()) && keys_unique(self.errors_log())
    }

    /// The settings are the same in both contexts.
    pub open spec fn same_settings(&self, other: &Self) -> bool {
        &&& self.spec_party_a_chain_name() == other.spec_party_a_chain_name()
        &&& self.spec_party_b_chain_name() == other.spec_party_b_chain_name()
        &&& self.spec_party_a_channel_uses_wasm_port() == other.spec_party_a_channel_uses_wasm_port()
        &&& self.spec_ls_provider() == other.spec_ls_provider()
        &&& self.spec_single_side_lp_limit_pct() == other.spec_single_side_lp_limit_pct()
    }

    /// A fresh context: no records, no party names, the default provider
    /// and the default limit percentage.
    pub fn new() -> (r: Self)
        ensures
            r.wf(),
            r.checks_log() == Log::empty(),
            r.errors_log() == Log::empty(),
            r.spec_party_a_chain_name() == Seq::<char>::empty(),
            r.spec_party_b_chain_name() == Seq::<char>::empty(),
            !r.spec_party_a_channel_uses_wasm_port(),
            r.spec_ls_provider() == LsProvider::Stride,
            r.spec_single_side_lp_limit_pct() == DEFAULT_SINGLE_SIDE_LP_LIMIT_PCT,
    {
        let r = CovenantValidationContext {
            party_a_chain_name: String::new(),
            party_a_channel_uses_wasm_port: false,
            party_b_chain_name: String::new(),
            ls_provider: LsProvider::Stride,
            single_side_lp_limit_pct: DEFAULT_SINGLE_SIDE_LP_LIMIT_PCT,
            checks: Vec::new(),
            errors: Vec::new(),
        };
        assert(r.checks_log() =~= Log::empty());
        assert(r.errors_log() =~= Log::empty());
        r
    }

    pub fn party_a_chain_name(&self) -> (r: String)
        ensures
            r@ == self.spec_party_a_chain_name(),
    {
        self.party_a_chain_name.clone()
    }

    pub fn set_party_a_chain_name(&mut self, party: String)
        ensures
            final(self).spec_party_a_chain_name() == party@,
            final(self).spec_party_b_chain_name() == old(self).spec_party_b_chain_name(),
            final(self).spec_party_a_channel_uses_wasm_port() == old(self).spec_party_a_channel_uses_wasm_port(),
            final(self).spec_ls_provider() == old(self).spec_ls_provider(),
            final(self).spec_single_side_lp_limit_pct() == old(self).spec_single_side_lp_limit_pct(),
            final(self).checks_log() == old(self).checks_log(),
            final(self).errors_log() == old(self).errors_log(),
    {
        self.party_a_chain_name = party;
    }

    pub fn party_a_channel_uses_wasm_port(&self) -> (r: bool)
        ensures
            r == self.spec_party_a_channel_uses_wasm_port(),
    {
        self.party_a_channel_uses_wasm_port
    }

    pub fn set_party_a_channel_uses_wasm_port(&mut self, value: bool)
        ensures
            final(self).spec_party_a_channel_uses_wasm_port() == value,
            final(self).spec_party_a_chain_name() == old(self).spec_party_a_chain_name(),
            final(self).spec_party_b_chain_name() == old(self).spec_party_b_chain_name(),
            final(self).spec_ls_provider() == old(self).spec_ls_provider(),
            final(self).spec_single_side_lp_limit_pct() == old(self).spec_single_side_lp_limit_pct(),
            final(self).checks_log() == old(self).checks_log(),
            final(self).errors_log() == old(self).errors_log(),
    {
        self.party_a_channel_uses_wasm_port = value;
    }

    pub fn party_b_chain_name(&self) -> (r: String)
        ensures
            r@ == self.spec_party_b_chain_name(),
    {
        self.party_b_chain_name.clone()
    }

    pub fn set_party_b_chain_name(&mut self, party: String)
        ensures
            final(self).spec_party_b_chain_name() == party@,
            final(self).spec_party_a_chain_name() == old(self).spec_party_a_chain_name(),
            final(self).spec_party_a_channel_uses_wasm_port() == old(self).spec_party_a_channel_uses_wasm_port(),
            final(self).spec_ls_provider() == old(self).spec_ls_provider(),
            final(self).spec_single_side_lp_limit_pct() == old(self).spec_single_side_lp_limit_pct(),
            final(self).checks_log() == old(self).checks_log(),
            final(self).errors_log() == old(self).errors_log(),
    {
        self.party_b_chain_name = party;
    }

    pub fn ls_provider(&self) -> (r: LsProvider)
        ensures
            r == self.spec_ls_provider(),
    {
        self.ls_provider
    }

    pub fn set_ls_provider(&mut self, provider: LsProvider)
        ensures
            final(self).spec_ls_provider() == provider,
            final(self).spec_party_a_chain_name() == old(self).spec_party_a_chain_name(),
            final(self).spec_party_b_chain_name() == old(self).spec_party_b_chain_name(),
            final(self).spec_party_a_channel_uses_wasm_port() == old(self).spec_party_a_channel_uses_wasm_port(),
            final(self).spec_single_side_lp_limit_pct() == old(self).spec_single_side_lp_limit_pct(),
            final(self).checks_log() == old(self).checks_log(),
            final(self).errors_log() == old(self).errors_log(),
    {
        self.ls_provider = provider;
    }

    pub fn single_side_lp_limit_pct(&self) -> (r: u32)
        ensures
            r == self.spec_single_side_lp_limit_pct(),
    {
        self.single_side_lp_limit_pct
    }

    pub fn set_single_side_lp_limit_pct(&mut self, limit_pct: u32)
        ensures
            final(self).spec_single_side_lp_limit_pct() == limit_pct,
            final(self).spec_party_a_chain_name() == old(self).spec_party_a_chain_name(),
            final(self).spec_party_b_chain_name() == old(self).spec_party_b_chain_name(),
            final(self).spec_party_a_channel_uses_wasm_port() == old(self).spec_party_a_channel_uses_wasm_port(),
            final(self).spec_ls_provider() == old(self).spec_ls_provider(),
            final(self).checks_log() == old(self).checks_log(),
            final(self).errors_log() == old(self).errors_log(),
    {
        self.single_side_lp_limit_pct = limit_pct;
    }

    /// The passing records, by key in order of first use.
    pub fn checks(&self) -> (r: &Vec<ReportEntry>)
        ensures
            log_of(r@) == self.checks_log(),
    {
        &self.checks
    }

    /// The failing records, by key in order of first use.
    pub fn errors(&self) -> (r: &Vec<ReportEntry>)
        ensures
            log_of(r@) == self.errors_log(),
    {
        &self.errors
    }

    /// Whether any failing record was written: the outcome of the run.
    pub fn has_errors(&self) -> (r: bool)
        ensures
            r == (self.errors_log().len() > 0),
    {
        self.errors.len() > 0
    }

    /// Records a passing check under `key`.
    pub fn valid(&mut self, key: &str, message: String)
        requires
            old(self).wf(),
        ensures
            final(self).wf(),
            final(self).checks_log() == appended(old(self).checks_log(), key@, message@),
            final(self).errors_log() == old(self).errors_log(),
            final(self).same_settings(old(self)),
    {
        record(&mut self.checks, key, message);
    }

    /// Records a passing check of `field` under `key`.
    pub fn valid_field(&mut self, key: &str, field: &str, message: String)
        requires
            old(self).wf(),
        ensures
            final(self).wf(),
            final(self).checks_log() == appended(
                old(self).checks_log(),
                key@,
                field_message(field@, message@),
            ),
            final(self).errors_log() == old(self).errors_log(),
            final(self).same_settings(old(self)),
    {
        let m = concat3(field, ": ", message.as_str());
        record(&mut self.checks, key, m);
    }

    /// Records a failed check under `key`.
    pub fn invalid(&mut self, key: &str, message: String)
        requires
            old(self).wf(),
        ensures
            final(self).wf(),
            final(self).errors_log() == appended(old(self).errors_log(), key@, message@),
            final(self).checks_log() == old(self).checks_log(),
            final(self).same_settings(old(self)),
    {
        record(&mut self.errors, key, message);
    }

    /// Records a failed check of `field` under `key`.
    pub fn invalid_field(&mut self, key: &str, field: &str, message: String)
        requires
            old(self).wf(),
        ensures
            final(self).wf(),
            final(self).errors_log() == appended(
                old(self).errors_log(),
                key@,
                field_message(field@, message@),
            ),
            final(self).checks_log() == old(self).checks_log(),
            final(self).same_settings(old(self)),
    {
        let m = concat3(field, ": ", message.as_str());
        record(&mut self.errors, key, m);
    }
}

impl Default for CovenantValidationContext {
    /// A fresh context, as `new` gives it.
    fn default() -> (r: Self)
        ensures
            r.wf(),
            r.checks_log() == Log::empty(),
            r.errors_log() == Log::empty(),
            r.spec_party_a_chain_name() == Seq::<char>::empty(),
            r.spec_party_b_chain_name() == Seq::<char>::empty(),
            !r.spec_party_a_channel_uses_wasm_port(),
            r.spec_ls_provider() == LsProvider::Stride,
            r.spec_single_side_lp_limit_pct() == DEFAULT_SINGLE_SIDE_LP_LIMIT_PCT,
    {
        Self::new()
    }
}

impl CovenantValidationContext {
    /// Records a check of `field` under `key`: passing with `pass_message`
    /// where `ok` holds, failing with `fail_message` otherwise.
    pub fn check_field(&mut self, ok: bool, key: &str, field: &str, pass_message: String, fail_message: String)
        requires
            old(self).wf(),
        ensures
            final(self).wf(),
            final(self).same_settings(old(self)),
            final(self).logs() == apply_record(
                old(self).logs(),
                outcome_record(ok, key@, field@, pass_message@, fail_message@),
            ),
    {
        if ok {
            self.valid_field(key, field, pass_message);
        } else {
            self.invalid_field(key, field, fail_message);
        }
    }
}

/// The record of a check of `field` that passes where `ok` holds.
pub open spec fn outcome_record(ok: bool, key: Seq<char>, field: Seq<char>, pass_message: Seq<char>, fail_message: Seq<char>) -> Rec {
    if ok {
        pass_field(key, field, pass_message)
    } else {
        fail_field(key, field, fail_message)
    }
}

/// Appends `message` under `key`, adding the key at the end if it is new.
fn record(entries: &mut Vec<ReportEntry>, key: &str, message: String)
    requires
        keys_unique(log_of(old(entries)@)),
    ensures
        keys_unique(log_of(final(entries)@)),
        log_of(final(entries)@) == appended(log_of(old(entries)@), key@, message@),
{
    let ghost l = log_of(entries@);
    let n = entries.len();
    let mut i: usize = 0;
    while i < n
        invariant
            n == entries.len(),
            entries@ == old(entries)@,
            l == log_of(entries@),
            keys_unique(l),
            i <= n,
            forall|j: int| 0 <= j < i ==> l[j].0 != key@,
        decreases n - i,
    {
        if entries[i].key == String::from_str(key) {
            assert(l[i as int].0 == key@);
            assert(has_key(l, key@));
            assert(key_index(l, key@) == i as int) by {
                let c = key_index(l, key@);
                assert(0 <= c < l.len() && l[c].0 == key@);
                assert(keys_unique(l));
                if c < i {
                    assert(l[c].0 != l[i as int].0);
                } else if c > i {
                    assert(l[i as int].0 != l[c].0);
                }
            }
            let mut e = entries.remove(i);
            let ghost before = e@;
            e.messages.push(message);
            assert(e.messages@.map_values(|m: String| m@) =~= before.1.push(message@));
            entries.insert(i, e);
            assert(log_of(entries@) =~= appended(l, key@, message@));
            assert(forall|j: int| 0 <= j < l.len() ==> log_of(entries@)[j].0 == l[j].0);
            return;
        }
        i = i + 1;
    }
    assert(!has_key(l, key@));
    let mut msgs: Vec<String> = Vec::new();
    msgs.push(message);
    let e = ReportEntry { key: String::from_str(key), messages: msgs };
    assert(e@.1 =~= seq![message@]);
    entries.push(e);
    assert(log_of(entries@) =~= appended(l, key@, message@));
}

} // verus!

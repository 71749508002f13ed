//! ICS-20 voucher denoms: `ibc/` followed by the upper-case hex SHA-256 of
//! the denom trace `transfer/<channel>/<base denom>`.
use vstd::prelude::*;

use crate::text::concat;
use sha2::Digest;

verus! {

/// The SHA-256 digest of the UTF-8 encoding of a text.
pub uninterp spec fn sha256_of_text(s: Seq<char>) -> Seq<u8>;

/// Relies on sha2's `Sha256::digest`: the 32-byte digest of the text's bytes.
#[verifier::external_body]
fn sha256_text(s: &str) -> (r: Vec<u8>)
    ensures
        r@ == sha256_of_text(s@),
        r@.len() == 32,
{
    sha2::Sha256::digest(s.as_bytes()).to_vec()
}

/// The upper-case hex digit of a value below 16.
pub open spec fn hex_digit(n: u8) -> char {
    if n == 0 { '0' } else if n == 1 { '1' } else if n == 2 { '2' } else if n == 3 { '3' }
    else if n == 4 { '4' } else if n == 5 { '5' } else if n == 6 { '6' } else if n == 7 { '7' }
    else if n == 8 { '8' } else if n == 9 { '9' } else if n == 10 { 'A' } else if n == 11 { 'B' }
    else if n == 12 { 'C' } else if n == 13 { 'D' } else if n == 14 { 'E' } else { 'F' }
}

/// Upper-case hex of a byte string: two digits per byte, high nibble first.
pub open spec fn upper_hex_spec(b: Seq<u8>) -> Seq<char>
    decreases b.len(),
{
    if b.len() == 0 {
        Seq::empty()
    } else {
        upper_hex_spec(b.drop_last()) + seq![hex_digit(b.last() / 16), hex_digit(b.last() % 16)]
    }
}

/// Relies on base16ct's `upper::encode_string`: each byte as two upper-case
/// hex digits, high nibble first. It panics only on inputs longer than
/// `usize::MAX / 2`.
#[verifier::external_body]
fn upper_hex(b: &[u8]) -> (r: String)
    requires
        b@.len() <= usize::MAX / 2,
    ensures
        r@ == upper_hex_spec(b@),
{
    base16ct::upper::encode_string(b)
}

/// The denom trace that a one-hop transfer over `channel_id` gives `base_denom`.
pub open spec fn denom_trace(channel_id: Seq<char>, base_denom: Seq<char>) -> Seq<char> {
    "transfer/"@ + channel_id + "/"@ + base_denom
}

/// The voucher denom for a trace digest.
pub open spec fn voucher_denom_of_digest(digest: Seq<u8>) -> Seq<char> {
    "ibc/"@ + upper_hex_spec(digest)
}

/// The voucher denom that a token with `base_denom` gets when it arrives
/// over `channel_id` (the receiving side's channel).
pub open spec fn voucher_denom_spec(channel_id: Seq<char>, base_denom: Seq<char>) -> Seq<char> {
    voucher_denom_of_digest(sha256_of_text(denom_trace(channel_id, base_denom)))
}

/// The denom trace string for one hop.
pub fn denom_trace_text(channel_id: &str, base_denom: &str) -> (r: String)
    ensures
        r@ == denom_trace(channel_id@, base_denom@),
{
    let mut s = concat("transfer/", channel_id);
    s.append("/");
    s.append(base_denom);
    s
}

/// The voucher denom for a trace digest: `ibc/` and the digest in
/// upper-case hex.
pub fn voucher_denom_from_digest(digest: &[u8]) -> (r: String)
    requires
        digest@.len() <= usize::MAX / 2,
    ensures
        r@ == voucher_denom_of_digest(digest@),
{
    let hex = upper_hex(digest);
    concat("ibc/", hex.as_str())
}

/// Derives the ICS-20 voucher denom of `base_denom` arriving over `channel_id`.
pub fn derive_voucher_denom(channel_id: &str, base_denom: &str) -> (r: String)
    ensures
        r@ == voucher_denom_spec(channel_id@, base_denom@),
{
    let trace = denom_trace_text(channel_id, base_denom);
    let digest = sha256_text(trace.as_str());
    voucher_denom_from_digest(digest.as_slice())
}

} // verus!

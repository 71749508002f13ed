//! Deadlines: a block height, a time, or never.
use vstd::prelude::*;

use crate::report::{apply_records, fail_field, lemma_apply_push, pass_field, CovenantValidationContext, Rec};
use crate::text::{parse_u128, parse_u128_spec};

verus! {

/// Nanoseconds in a second.
pub const NANOS_PER_SECOND: u64 = 1_000_000_000;

/// When something expires.
#[derive(Clone, Copy, Debug, PartialEq, Eq, Structural)]
pub enum Expiration {
    /// Once the chain reaches this height.
    AtHeight(u64),
    /// Once this Unix time, in nanoseconds, has passed.
    AtTime(u64),
    /// Never.
    Never,
}

/// Whether a deadline lies in the future, as seen at `current_height` and
/// `now_secs` (Unix seconds). A time deadline is compared in whole seconds.
pub open spec fn expiration_in_future(e: Expiration, current_height: int, now_secs: int) -> bool {
    match e {
        Expiration::AtHeight(h) => h as int > current_height,
        Expiration::AtTime(t) => (t / NANOS_PER_SECOND) as int > now_secs,
        Expiration::Never => true,
    }
}

/// The record that checking one deadline writes.
pub open spec fn expiration_record(key: Seq<char>, field: Seq<char>, e: Expiration, current_height: int, now_secs: int) -> Rec {
    match e {
        Expiration::AtHeight(h) => if h as int > current_height {
            pass_field(key, field, "verified"@)
        } else {
            fail_field(key, field, "invalid block height: should be in the future"@)
        },
        Expiration::AtTime(t) => if (t / NANOS_PER_SECOND) as int > now_secs {
            pass_field(key, field, "verified"@)
        } else {
            fail_field(key, field, "invalid timestamp: should be in the future"@)
        },
        Expiration::Never => pass_field(key, field, "verified (note: never expires)"@),
    }
}

/// Records whether `deadline` lies in the future.
pub fn verify_expiration(
    ctx: &mut CovenantValidationContext,
    key: &str,
    field: &str,
    deadline: Expiration,
    current_height: u128,
    now_secs: u64,
)
    requires
        old(ctx).wf(),
    ensures
        final(ctx).wf(),
        final(ctx).same_settings(old(ctx)),
        final(ctx).logs() == apply_records(
            old(ctx).logs(),
            seq![expiration_record(key@, field@, deadline, current_height as int, now_secs as int)],
        ),
{
    let ghost r = expiration_record(key@, field@, deadline, current_height as int, now_secs as int);
    proof {
        lemma_apply_push(old(ctx).logs(), Seq::empty(), r);
        assert(Seq::<Rec>::empty().push(r) =~= seq![r]);
    }
    match deadline {
        Expiration::AtHeight(height) => {
            if (height as u128) > current_height {
                ctx.valid_field(key, field, String::from_str("verified"));
            } else {
                ctx.invalid_field(key, field, String::from_str("invalid block height: should be in the future"));
            }
        },
        Expiration::AtTime(nanos) => {
            if nanos / NANOS_PER_SECOND > now_secs {
                ctx.valid_field(key, field, String::from_str("verified"));
            } else {
                ctx.invalid_field(key, field, String::from_str("invalid timestamp: should be in the future"));
            }
        },
        Expiration::Never => {
            ctx.valid_field(key, field, String::from_str("verified (note: never expires)"));
        },
    }
}

/// The partial order of deadlines: heights compare with heights and times
/// with times; never is later than anything else; a height and a time do
/// not compare.
pub open spec fn expiration_le(a: Expiration, b: Expiration) -> bool {
    match (a, b) {
        (Expiration::AtHeight(h1), Expiration::AtHeight(h2)) => h1 <= h2,
        (Expiration::AtTime(t1), Expiration::AtTime(t2)) => t1 <= t2,
        (Expiration::Never, Expiration::Never) => true,
        (Expiration::Never, _) => false,
        (_, Expiration::Never) => true,
        _ => false,
    }
}

/// Whether `a` is at or before `b` in the partial order of deadlines.
pub fn expiration_not_after(a: Expiration, b: Expiration) -> (r: bool)
    ensures
        r == expiration_le(a, b),
{
    match (a, b) {
        (Expiration::AtHeight(h1), Expiration::AtHeight(h2)) => h1 <= h2,
        (Expiration::AtTime(t1), Expiration::AtTime(t2)) => t1 <= t2,
        (Expiration::Never, Expiration::Never) => true,
        (Expiration::Never, _) => false,
        (_, Expiration::Never) => true,
        _ => false,
    }
}

/// The header of a block, as a node reports it.
#[derive(Clone, Debug, PartialEq, Eq, Default)]
pub struct BlockHeader {
    pub chain_id: String,
    pub height: String,
    pub time: String,
}

/// The height that a block header reports, where it is a number.
pub fn block_height(header: &BlockHeader) -> (r: Option<u128>)
    ensures
        r == parse_u128_spec(header.height@),
{
    parse_u128(header.height.as_str())
}

} // verus!

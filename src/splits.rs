//! Post-settlement splits: for each denom, who receives what share.
use vstd::prelude::*;

use crate::numeric::FIXED_ONE;
use crate::report::{apply_record, fail_field, outcome_record, CovenantValidationContext, Rec};
use crate::text::str_eq;

verus! {

/// One receiver of a split and its share, scaled by 10^18.
#[derive(Clone, Debug, PartialEq, Eq)]
pub struct SplitReceiver {
    pub addr: String,
    pub share: u128,
}

/// How one denom is split among receivers.
#[derive(Clone, Debug, PartialEq, Eq)]
pub struct SplitConfig {
    pub denom: String,
    pub receivers: Vec<SplitReceiver>,
}

/// The report key of split checks.
pub const SPLITS_KEY: &'static str = "splits";

/// The share of the first receiver at `addr`.
pub open spec fn receiver_share(rs: Seq<SplitReceiver>, addr: Seq<char>) -> Option<u128>
    decreases rs.len(),
{
    if rs.len() == 0 {
        None
    } else if rs[0].addr@ == addr {
        Some(rs[0].share)
    } else {
        receiver_share(rs.drop_first(), addr)
    }
}

/// The sum of all shares.
pub open spec fn shares_total(rs: Seq<SplitReceiver>) -> int
    decreases rs.len(),
{
    if rs.len() == 0 {
        0
    } else {
        shares_total(rs.drop_last()) + rs.last().share
    }
}

/// The receivers of a split are exactly the two given addresses: each
/// receiver is one of them, both are there, and none is listed twice.
pub open spec fn names_exactly(rs: Seq<SplitReceiver>, a: Seq<char>, b: Seq<char>) -> bool {
    &&& forall|i: int| 0 <= i < rs.len() ==> (#[trigger] rs[i]).addr@ == a || rs[i].addr@ == b
    &&& receiver_share(rs, a) is Some
    &&& receiver_share(rs, b) is Some
    &&& forall|i: int, j: int| 0 <= i < j < rs.len() ==> (#[trigger] rs[i]).addr@ != (#[trigger] rs[j]).addr@
}

/// A split names exactly the two parties' receivers and its shares add up
/// to exactly 1.
pub open spec fn split_ok(rs: Seq<SplitReceiver>, a: Seq<char>, b: Seq<char>) -> bool {
    names_exactly(rs, a, b) && shares_total(rs) == FIXED_ONE as int
}

/// The text of a split that fails its check.
pub open spec fn bad_split_text() -> Seq<char> {
    "invalid splits: receivers should be exactly the two parties, with shares summing to 1.0"@
}

/// The record of the splits check.
pub open spec fn splits_record(s: Seq<SplitConfig>, a_denom: Seq<char>, a_receiver: Seq<char>, b_denom: Seq<char>, b_receiver: Seq<char>) -> Rec {
    if s.len() == 2 && ((s[0].denom@ == a_denom && s[1].denom@ == b_denom) || (s[1].denom@ == a_denom && s[0].denom@ == b_denom)) {
        outcome_record(
            split_ok(s[0].receivers@, a_receiver, b_receiver) && split_ok(s[1].receivers@, a_receiver, b_receiver),
            SPLITS_KEY@,
            Seq::empty(),
            "verified"@,
            bad_split_text(),
        )
    } else {
        fail_field(SPLITS_KEY@, Seq::empty(), "invalid splits: unexpected denoms"@)
    }
}

fn receiver_share_exec(rs: &Vec<SplitReceiver>, addr: &str) -> (r: Option<u128>)
    ensures
        r == receiver_share(rs@, addr@),
{
    let n = rs.len();
    let mut i: usize = 0;
    assert(rs@.subrange(0, n as int) =~= rs@);
    while i < n
        invariant
            n == rs@.len(),
            i <= n,
            receiver_share(rs@, addr@) == receiver_share(rs@.subrange(i as int, n as int), addr@),
        decreases n - i,
    {
        assert(rs@.subrange(i as int, n as int).drop_first() =~= rs@.subrange(i + 1, n as int));
        assert(rs@.subrange(i as int, n as int)[0] == rs@[i as int]);
        if str_eq(rs[i].addr.as_str(), addr) {
            return Some(rs[i].share);
        }
        i = i + 1;
    }
    None
}

proof fn lemma_shares_total_grows(rs: Seq<SplitReceiver>, i: int)
    requires
        0 <= i <= rs.len(),
    ensures
        0 <= shares_total(rs.subrange(0, i)) <= shares_total(rs),
    decreases rs.len() - i,
{
    if i == rs.len() {
        assert(rs.subrange(0, i) =~= rs);
        lemma_shares_total_nonneg(rs);
    } else {
        lemma_shares_total_grows(rs, i + 1);
        assert(rs.subrange(0, i + 1).drop_last() =~= rs.subrange(0, i));
        lemma_shares_total_nonneg(rs.subrange(0, i));
    }
}

proof fn lemma_shares_total_nonneg(rs: Seq<SplitReceiver>)
    ensures
        shares_total(rs) >= 0,
    decreases rs.len(),
{
    if rs.len() > 0 {
        lemma_shares_total_nonneg(rs.drop_last());
    }
}

/// Whether the shares add up to exactly 1.
fn shares_total_is_one(rs: &Vec<SplitReceiver>) -> (r: bool)
    ensures
        r == (shares_total(rs@) == FIXED_ONE as int),
{
    let n = rs.len();
    let mut total: u128 = 0;
    let mut i: usize = 0;
    while i < n
        invariant
            n == rs@.len(),
            i <= n,
            total as int == shares_total(rs@.subrange(0, i as int)),
            total <= FIXED_ONE,
        decreases n - i,
    {
        assert(rs@.subrange(0, i + 1).drop_last() =~= rs@.subrange(0, i as int));
        let s = rs[i].share;
        if s > FIXED_ONE - total {
            proof { lemma_shares_total_grows(rs@, i + 1); }
            return false;
        }
        total = total + s;
        i = i + 1;
    }
    assert(rs@.subrange(0, n as int) =~= rs@);
    total == FIXED_ONE
}

fn names_exactly_exec(rs: &Vec<SplitReceiver>, a: &str, b: &str) -> (r: bool)
    ensures
        r == names_exactly(rs@, a@, b@),
{
    let n = rs.len();
    let mut i: usize = 0;
    while i < n
        invariant
            n == rs@.len(),
            i <= n,
            forall|k: int| 0 <= k < i ==> (#[trigger] rs@[k]).addr@ == a@ || rs@[k].addr@ == b@,
            forall|k: int, l: int| 0 <= k < l < i ==> (#[trigger] rs@[k]).addr@ != (#[trigger] rs@[l]).addr@,
        decreases n - i,
    {
        let x = rs[i].addr.as_str();
        if !(str_eq(x, a) || str_eq(x, b)) {
            return false;
        }
        let mut j: usize = 0;
        while j < i
            invariant
                n == rs@.len(),
                j <= i < n,
                x@ == rs@[i as int].addr@,
                forall|k: int| 0 <= k < j ==> (#[trigger] rs@[k]).addr@ != rs@[i as int].addr@,
            decreases i - j,
        {
            if str_eq(rs[j].addr.as_str(), x) {
                return false;
            }
            j = j + 1;
        }
        i = i + 1;
    }
    let has_a = match receiver_share_exec(rs, a) {
        Some(_) => true,
        None => false,
    };
    let has_b = match receiver_share_exec(rs, b) {
        Some(_) => true,
        None => false,
    };
    has_a && has_b
}

fn split_ok_exec(rs: &Vec<SplitReceiver>, a: &str, b: &str) -> (r: bool)
    ensures
        r == split_ok(rs@, a@, b@),
{
    names_exactly_exec(rs, a, b) && shares_total_is_one(rs)
}

/// Checks that the splits name exactly the two parties' denoms, and that
/// each split names exactly the two parties' receivers with shares adding
/// up to exactly 1.
pub fn verify_splits(
    ctx: &mut CovenantValidationContext,
    splits: &Vec<SplitConfig>,
    a_denom: &str,
    a_receiver: &str,
    b_denom: &str,
    b_receiver: &str,
)
    requires
        old(ctx).wf(),
    ensures
        final(ctx).wf(),
        final(ctx).same_settings(old(ctx)),
        final(ctx).logs() == apply_record(old(ctx).logs(), splits_record(splits@, a_denom@, a_receiver@, b_denom@, b_receiver@)),
{
    if splits.len() == 2 && ((str_eq(splits[0].denom.as_str(), a_denom) && str_eq(splits[1].denom.as_str(), b_denom))
        || (str_eq(splits[1].denom.as_str(), a_denom) && str_eq(splits[0].denom.as_str(), b_denom))) {
        let ok = split_ok_exec(&splits[0].receivers, a_receiver, b_receiver)
            && split_ok_exec(&splits[1].receivers, a_receiver, b_receiver);
        ctx.check_field(ok, SPLITS_KEY, "", String::from_str("verified"),
            String::from_str("invalid splits: receivers should be exactly the two parties, with shares summing to 1.0"));
    } else {
        ctx.invalid_field(SPLITS_KEY, "", String::from_str("invalid splits: unexpected denoms"));
    }
    proof { reveal_strlit(""); assert(""@ =~= Seq::<char>::empty()); }
}

} // verus!

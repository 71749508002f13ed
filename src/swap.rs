//! The swap covenant. Its checks are not written yet: only the label is
//! checked, and the report says so.
use vstd::prelude::*;

use crate::report::{apply_records, fail_key, lemma_apply_push, CovenantValidationContext, Rec};
use crate::two_party::{label_record, COVENANT_KEY};

verus! {

/// The instantiation message of a swap covenant, as far as the checks read it.
#[derive(Clone, Debug, PartialEq, Eq)]
pub struct SwapInstantiateMsg {
    pub label: String,
}

/// The swap covenant, ready to be checked.
pub struct SwapCovenantInstMsg(pub SwapInstantiateMsg);

/// The text that marks the swap checks as missing.
pub open spec fn swap_gap_text() -> Seq<char> {
    "swap covenant: validation logic not yet implemented; only the label was checked"@
}

/// The records that the swap checks write: the label, and a failure that
/// marks the missing checks.
pub open spec fn swap_records(m: SwapInstantiateMsg) -> Seq<Rec> {
    seq![label_record(m.label@), fail_key(COVENANT_KEY@, swap_gap_text())]
}

impl SwapCovenantInstMsg {
    pub fn new(inner: SwapInstantiateMsg) -> (r: Self)
        ensures
            r.0 == inner,
    {
        SwapCovenantInstMsg(inner)
    }

    /// Checks the label and records that no other check exists yet.
    pub fn validate(&self, ctx: &mut CovenantValidationContext)
        requires
            old(ctx).wf(),
        ensures
            final(ctx).wf(),
            final(ctx).same_settings(old(ctx)),
            final(ctx).logs() == apply_records(old(ctx).logs(), swap_records(self.0)),
    {
        let ghost l0 = ctx.logs();
        let has_label = !self.0.label.as_str().is_empty();
        ctx.check_field(has_label, COVENANT_KEY, "label", String::from_str("valid"), String::from_str("required"));
        ctx.invalid(COVENANT_KEY, String::from_str("swap covenant: validation logic not yet implemented; only the label was checked"));
        proof {
            let rs = swap_records(self.0);
            lemma_apply_push(l0, Seq::empty(), rs[0]);
            assert(Seq::<Rec>::empty().push(rs[0]) =~= seq![rs[0]]);
            lemma_apply_push(l0, seq![rs[0]], rs[1]);
            assert(seq![rs[0]].push(rs[1]) =~= rs);
        }
    }
}

} // verus!

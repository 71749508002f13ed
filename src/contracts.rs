//! Contract code ids, checked against the manifest of a pinned release.
use vstd::prelude::*;

use crate::report::{
    apply_records, fail_field, fail_key, lemma_apply_push, pass_field, CovenantValidationContext, Rec,
};
use crate::text::concat;

verus! {

/// The report key of code id checks.
pub const CONTRACT_CODES_KEY: &'static str = "contract_codes";

/// The release whose manifest the code ids are checked against.
pub const RELEASE_TAG: &'static str = "v0.1.0";

/// One line of a release manifest: a contract name and its code id.
#[derive(Clone, Debug, PartialEq, Eq)]
pub struct CodeIdEntry {
    pub name: String,
    pub code_id: u64,
}

/// One configured code id, with the report field and the manifest name
/// that it is checked under.
#[derive(Clone, Debug, PartialEq, Eq)]
pub struct CodeIdExpectation {
    pub field: String,
    pub contract: String,
    pub code_id: u64,
}

/// The code id that a manifest gives a contract name; a later line wins
/// over an earlier one.
pub open spec fn manifest_lookup(m: Seq<CodeIdEntry>, name: Seq<char>) -> Option<u64>
    decreases m.len(),
{
    if m.len() == 0 {
        None
    } else if m.last().name@ == name {
        Some(m.last().code_id)
    } else {
        manifest_lookup(m.drop_last(), name)
    }
}

/// The record that one code id check writes.
pub open spec fn code_id_record(field: Seq<char>, m: Seq<CodeIdEntry>, name: Seq<char>, code_id: u64) -> Rec {
    match manifest_lookup(m, name) {
        Some(v) => if v == code_id {
            pass_field(CONTRACT_CODES_KEY@, field, "verified"@)
        } else {
            fail_field(CONTRACT_CODES_KEY@, field, "invalid code id"@)
        },
        None => fail_key(CONTRACT_CODES_KEY@, "unknown contract name "@ + name),
    }
}

/// The records that checking a list of code ids writes: one per code id.
pub open spec fn code_ids_records(m: Seq<CodeIdEntry>, expected: Seq<CodeIdExpectation>) -> Seq<Rec> {
    expected.map_values(|e: CodeIdExpectation| code_id_record(e.field@, m, e.contract@, e.code_id))
}

/// Looks a contract name up in a manifest.
pub fn lookup_code_id(code_ids: &Vec<CodeIdEntry>, contract_name: &str) -> (r: Option<u64>)
    ensures
        r == manifest_lookup(code_ids@, contract_name@),
{
    let mut i: usize = code_ids.len();
    assert(code_ids@.subrange(0, i as int) =~= code_ids@);
    while i > 0
        invariant
            i <= code_ids@.len(),
            manifest_lookup(code_ids@, contract_name@) == manifest_lookup(code_ids@.subrange(0, i as int), contract_name@),
        decreases i,
    {
        let ghost sub = code_ids@.subrange(0, i as int);
        assert(sub.drop_last() =~= code_ids@.subrange(0, i - 1));
        if code_ids[i - 1].name == String::from_str(contract_name) {
            return Some(code_ids[i - 1].code_id);
        }
        i = i - 1;
    }
    None
}

/// Checks one configured code id against the manifest.
pub fn verify_code_id(
    ctx: &mut CovenantValidationContext,
    field: &str,
    code_ids: &Vec<CodeIdEntry>,
    contract_name: &str,
    code_id: u64,
)
    requires
        old(ctx).wf(),
    ensures
        final(ctx).wf(),
        final(ctx).same_settings(old(ctx)),
        final(ctx).logs() == apply_records(old(ctx).logs(), seq![code_id_record(field@, code_ids@, contract_name@, code_id)]),
{
    proof {
        lemma_apply_push(old(ctx).logs(), Seq::empty(), code_id_record(field@, code_ids@, contract_name@, code_id));
        assert(Seq::<Rec>::empty().push(code_id_record(field@, code_ids@, contract_name@, code_id))
            =~= seq![code_id_record(field@, code_ids@, contract_name@, code_id)]);
    }
    match lookup_code_id(code_ids, contract_name) {
        Some(v) => {
            if v == code_id {
                ctx.valid_field(CONTRACT_CODES_KEY, field, String::from_str("verified"));
            } else {
                ctx.invalid_field(CONTRACT_CODES_KEY, field, String::from_str("invalid code id"));
            }
        },
        None => {
            ctx.invalid(CONTRACT_CODES_KEY, concat("unknown contract name ", contract_name));
        },
    }
}

/// Checks each configured code id against the manifest, in order.
pub fn verify_code_ids(ctx: &mut CovenantValidationContext, manifest: &Vec<CodeIdEntry>, expected: &Vec<CodeIdExpectation>)
    requires
        old(ctx).wf(),
    ensures
        final(ctx).wf(),
        final(ctx).same_settings(old(ctx)),
        final(ctx).logs() == apply_records(old(ctx).logs(), code_ids_records(manifest@, expected@)),
{
    let ghost l0 = ctx.logs();
    let ghost all = code_ids_records(manifest@, expected@);
    let n = expected.len();
    let mut i: usize = 0;
    assert(all.subrange(0, 0) =~= Seq::<Rec>::empty());
    while i < n
        invariant
            n == expected@.len(),
            i <= n,
            ctx.wf(),
            ctx.same_settings(old(ctx)),
            l0 == old(ctx).logs(),
            all == code_ids_records(manifest@, expected@),
            all.len() == n,
            ctx.logs() == apply_records(l0, all.subrange(0, i as int)),
        decreases n - i,
    {
        let e = &expected[i];
        proof {
            lemma_apply_push(l0, all.subrange(0, i as int), all[i as int]);
            assert(all.subrange(0, i as int).push(all[i as int]) =~= all.subrange(0, i + 1));
        }
        verify_code_id(ctx, e.field.as_str(), manifest, e.contract.as_str(), e.code_id);
        proof {
            reveal_with_fuel(apply_records, 2);
            assert(seq![all[i as int]].drop_last() =~= Seq::<Rec>::empty());
        }
        i = i + 1;
    }
    assert(all.subrange(0, n as int) =~= all);
}

} // verus!

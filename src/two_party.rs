//! The two-party protocol-owned-liquidity covenant and its checks.
use vstd::prelude::*;

use crate::assets::AssetInfo;
use crate::astroport::{
    astroport_fatal, astroport_records, check_pool_data, pool_amounts, verify_astroport_liquid_pooler_config,
    AstroportLiquidPoolerConfig, FatalError, PairInfo, PoolInfo, PoolPriceConfig, LIQUID_POOLER_CONFIG_KEY,
    POOL_PRICE_CONFIG_KEY,
};
use crate::contracts::{code_ids_records, verify_code_ids, CodeIdEntry, CodeIdExpectation, CONTRACT_CODES_KEY};
use crate::expiration::{expiration_le, expiration_not_after, expiration_record, verify_expiration, Expiration};
use crate::numeric::shares_sum_to_one;
use crate::party::{
    check_party_data, party_contribution, party_fatal, party_native_denom, party_receiver, party_records, verify_party_config,
    CovenantPartyConfig, PartyChainData,
};
use crate::report::{
    apply_records, fail_field, fail_key, lemma_apply_concat, lemma_apply_push, outcome_record,
    pass_field, CovenantValidationContext, Rec,
};
use crate::splits::{splits_record, verify_splits, SplitConfig};

verus! {

/// The report key of covenant-wide checks.
pub const COVENANT_KEY: &'static str = "covenant";

/// The code ids of the contracts that a two-party covenant instantiates.
#[derive(Clone, Copy, Debug, PartialEq, Eq, Structural)]
pub struct TwoPartyCodeIds {
    pub ibc_forwarder_code: u64,
    pub holder_code: u64,
    pub clock_code: u64,
    pub interchain_router_code: u64,
    pub native_router_code: u64,
    pub liquid_pooler_code: u64,
}

/// Where the pooled liquidity goes.
#[derive(Clone, Debug, PartialEq, Eq)]
pub enum LiquidPoolerConfig {
    Astroport(AstroportLiquidPoolerConfig),
    /// An Osmosis pool; its checks are not written yet.
    Osmosis,
}

/// The instantiation message of a two-party covenant, as far as the checks
/// read it. Shares are scaled by 10^18.
#[derive(Clone, Debug, PartialEq, Eq)]
pub struct TwoPartyInstantiateMsg {
    pub label: String,
    pub contract_codes: TwoPartyCodeIds,
    pub party_a_share: u128,
    pub party_b_share: u128,
    pub deposit_deadline: Expiration,
    pub lockup_config: Expiration,
    pub party_a_config: CovenantPartyConfig,
    pub party_b_config: CovenantPartyConfig,
    pub liquid_pooler_config: LiquidPoolerConfig,
    pub pool_price_config: PoolPriceConfig,
    pub splits: Vec<SplitConfig>,
}

/// What other systems said, handed to the two-party checks.
#[derive(Debug)]
pub struct TwoPartyObservations {
    /// The release manifest, or why it could not be had.
    pub code_ids: Result<Vec<CodeIdEntry>, String>,
    /// Neutron's current block height.
    pub current_height: u128,
    /// The current Unix time in seconds.
    pub now_secs: u64,
    pub party_a: PartyChainData,
    pub party_b: PartyChainData,
    /// Neutron's asset registry.
    pub neutron_assets: Vec<AssetInfo>,
    /// The pool's pair data (read where the pooler is an Astroport one).
    pub pair_info: PairInfo,
    /// The pool's reserves (read where the pooler is an Astroport one).
    pub pool_info: PoolInfo,
}

/// The two-party covenant, ready to be checked.
pub struct TwoPartyPolCovenantInstMsg(pub TwoPartyInstantiateMsg);

/// The code ids to check, with their report fields and manifest names.
pub open spec fn two_party_expectations(c: TwoPartyCodeIds) -> Seq<(Seq<char>, Seq<char>, u64)> {
    seq![
        ("ibc_forwarder_code"@, "ibc_forwarder"@, c.ibc_forwarder_code),
        ("holder_code"@, "two_party_pol_holder"@, c.holder_code),
        ("clock_code"@, "clock"@, c.clock_code),
        ("interchain_router_code"@, "interchain_router"@, c.interchain_router_code),
        ("native_router_code"@, "native_router"@, c.native_router_code),
        ("liquid_pooler_code"@, "astroport_liquid_pooler"@, c.liquid_pooler_code),
    ]
}

/// The view of a list of code id expectations.
pub open spec fn expectations_view(e: Seq<CodeIdExpectation>) -> Seq<(Seq<char>, Seq<char>, u64)> {
    e.map_values(|x: CodeIdExpectation| (x.field@, x.contract@, x.code_id))
}

/// One code id to check.
pub(crate) fn expectation(field: &str, contract: &str, code_id: u64) -> (r: CodeIdExpectation)
    ensures
        r.field@ == field@,
        r.contract@ == contract@,
        r.code_id == code_id,
{
    CodeIdExpectation { field: String::from_str(field), contract: String::from_str(contract), code_id }
}

/// The code ids of a two-party covenant, as a list to check.
pub fn two_party_code_expectations(c: &TwoPartyCodeIds) -> (r: Vec<CodeIdExpectation>)
    ensures
        expectations_view(r@) == two_party_expectations(*c),
{
    let mut v: Vec<CodeIdExpectation> = Vec::new();
    v.push(expectation("ibc_forwarder_code", "ibc_forwarder", c.ibc_forwarder_code));
    v.push(expectation("holder_code", "two_party_pol_holder", c.holder_code));
    v.push(expectation("clock_code", "clock", c.clock_code));
    v.push(expectation("interchain_router_code", "interchain_router", c.interchain_router_code));
    v.push(expectation("native_router_code", "native_router", c.native_router_code));
    v.push(expectation("liquid_pooler_code", "astroport_liquid_pooler", c.liquid_pooler_code));
    assert(expectations_view(v@) =~= two_party_expectations(*c));
    v
}

/// The record of a label check.
pub open spec fn label_record(label: Seq<char>) -> Rec {
    outcome_record(label.len() > 0, COVENANT_KEY@, "label"@, "valid"@, "required"@)
}

/// The records of the party shares check.
pub open spec fn shares_records(a: u128, b: u128) -> Seq<Rec> {
    if a as int + b as int == crate::numeric::FIXED_ONE as int {
        seq![
            pass_field(COVENANT_KEY@, "party_a_share"@, "verified"@),
            pass_field(COVENANT_KEY@, "party_b_share"@, "verified"@),
        ]
    } else {
        seq![
            fail_field(COVENANT_KEY@, "party_a_share"@, "invalid share: sum of shares should be 1.0"@),
            fail_field(COVENANT_KEY@, "party_b_share"@, "invalid share: sum of shares should be 1.0"@),
        ]
    }
}

/// The records of the deadline checks: each in the future, and the lockup
/// strictly after the deposit deadline.
pub open spec fn deadline_records(deposit: Expiration, lockup: Expiration, height: int, now: int) -> Seq<Rec> {
    seq![
        expiration_record(COVENANT_KEY@, "deposit_deadline"@, deposit, height, now),
        expiration_record(COVENANT_KEY@, "lockup_config"@, lockup, height, now),
    ] + if expiration_le(lockup, deposit) {
        seq![fail_field(COVENANT_KEY@, "lockup_config"@, "invalid lockup config: should be later than deposit deadline"@)]
    } else {
        Seq::empty()
    }
}

/// The records of the liquid pooler checks.
pub open spec fn pooler_records(m: TwoPartyInstantiateMsg, o: TwoPartyObservations, pct: u32) -> Seq<Rec> {
    match m.liquid_pooler_config {
        LiquidPoolerConfig::Astroport(lp) => astroport_records(
            LIQUID_POOLER_CONFIG_KEY@,
            party_native_denom(m.party_a_config),
            party_contribution(m.party_a_config),
            party_native_denom(m.party_b_config),
            party_contribution(m.party_b_config),
            lp,
            m.pool_price_config,
            pct,
            o.pair_info,
            pool_amounts(o.pool_info)->0,
        ),
        LiquidPoolerConfig::Osmosis => seq![
            fail_key(LIQUID_POOLER_CONFIG_KEY@, "Osmosis liquid pooler config: validation logic not yet implemented."@),
            fail_key(POOL_PRICE_CONFIG_KEY@, "Osmosis pool price config: validation logic not yet implemented."@),
        ],
    }
}

/// Why the two-party checks cannot be made: the manifest, the first
/// party's data, the second party's, then the pool's.
pub open spec fn two_party_fatal(m: TwoPartyInstantiateMsg, o: TwoPartyObservations) -> Option<FatalError> {
    if o.code_ids is Err {
        Some(FatalError::ManifestUnavailable)
    } else if party_fatal(m.party_a_config, o.party_a, o.neutron_assets@) is Some {
        party_fatal(m.party_a_config, o.party_a, o.neutron_assets@)
    } else if party_fatal(m.party_b_config, o.party_b, o.neutron_assets@) is Some {
        party_fatal(m.party_b_config, o.party_b, o.neutron_assets@)
    } else {
        match m.liquid_pooler_config {
            LiquidPoolerConfig::Astroport(_) => astroport_fatal(o.pair_info, o.pool_info, m.pool_price_config),
            LiquidPoolerConfig::Osmosis => None,
        }
    }
}

/// Every record that the two-party checks write, in order.
pub open spec fn two_party_records(m: TwoPartyInstantiateMsg, o: TwoPartyObservations, uses_contract_port: bool, pct: u32) -> Seq<Rec> {
    seq![label_record(m.label@)]
        + two_party_code_records(m, o)
        + seq![pass_field(COVENANT_KEY@, "covenant_type"@, "verified"@)]
        + shares_records(m.party_a_share, m.party_b_share)
        + deadline_records(m.deposit_deadline, m.lockup_config, o.current_height as int, o.now_secs as int)
        + party_records("party_a_config"@, m.party_a_config, o.party_a, o.neutron_assets@, uses_contract_port)
        + party_records("party_b_config"@, m.party_b_config, o.party_b, o.neutron_assets@, false)
        + pooler_records(m, o, pct)
        + seq![splits_record(m.splits@, party_native_denom(m.party_a_config), party_receiver(m.party_a_config),
            party_native_denom(m.party_b_config), party_receiver(m.party_b_config))]
}

/// The records of the code id checks of a two-party covenant.
pub open spec fn two_party_code_records(m: TwoPartyInstantiateMsg, o: TwoPartyObservations) -> Seq<Rec> {
    match o.code_ids {
        Ok(entries) => two_party_expectations(m.contract_codes).map_values(
            |e: (Seq<char>, Seq<char>, u64)| crate::contracts::code_id_record(e.0, entries@, e.1, e.2)),
        Err(_) => Seq::empty(),
    }
}

fn verify_shares(ctx: &mut CovenantValidationContext, a: u128, b: u128)
    requires
        old(ctx).wf(),
    ensures
        final(ctx).wf(),
        final(ctx).same_settings(old(ctx)),
        final(ctx).logs() == apply_records(old(ctx).logs(), shares_records(a, b)),
{
    let ghost l0 = ctx.logs();
    let ghost rs = shares_records(a, b);
    if shares_sum_to_one(a, b) {
        ctx.valid_field(COVENANT_KEY, "party_a_share", String::from_str("verified"));
        proof { lemma_apply_push(l0, Seq::empty(), rs[0]); assert(Seq::<Rec>::empty().push(rs[0]) =~= rs.subrange(0, 1)); }
        ctx.valid_field(COVENANT_KEY, "party_b_share", String::from_str("verified"));
    } else {
        ctx.invalid_field(COVENANT_KEY, "party_a_share", String::from_str("invalid share: sum of shares should be 1.0"));
        proof { lemma_apply_push(l0, Seq::empty(), rs[0]); assert(Seq::<Rec>::empty().push(rs[0]) =~= rs.subrange(0, 1)); }
        ctx.invalid_field(COVENANT_KEY, "party_b_share", String::from_str("invalid share: sum of shares should be 1.0"));
    }
    proof { lemma_apply_push(l0, rs.subrange(0, 1), rs[1]); assert(rs.subrange(0, 1).push(rs[1]) =~= rs); }
}

fn verify_deadlines(ctx: &mut CovenantValidationContext, deposit: Expiration, lockup: Expiration, height: u128, now: u64)
    requires
        old(ctx).wf(),
    ensures
        final(ctx).wf(),
        final(ctx).same_settings(old(ctx)),
        final(ctx).logs() == apply_records(old(ctx).logs(), deadline_records(deposit, lockup, height as int, now as int)),
{
    let ghost l0 = ctx.logs();
    let ghost r0 = expiration_record(COVENANT_KEY@, "deposit_deadline"@, deposit, height as int, now as int);
    let ghost r1 = expiration_record(COVENANT_KEY@, "lockup_config"@, lockup, height as int, now as int);
    verify_expiration(ctx, COVENANT_KEY, "deposit_deadline", deposit, height, now);
    verify_expiration(ctx, COVENANT_KEY, "lockup_config", lockup, height, now);
    proof {
        lemma_apply_concat(l0, seq![r0], seq![r1]);
        assert(seq![r0] + seq![r1] =~= seq![r0, r1]);
    }
    let ghost l1 = ctx.logs();
    if expiration_not_after(lockup, deposit) {
        let ghost r2 = fail_field(COVENANT_KEY@, "lockup_config"@, "invalid lockup config: should be later than deposit deadline"@);
        ctx.invalid_field(COVENANT_KEY, "lockup_config", String::from_str("invalid lockup config: should be later than deposit deadline"));
        proof {
            lemma_apply_push(l0, seq![r0, r1], r2);
            assert(seq![r0, r1].push(r2) =~= deadline_records(deposit, lockup, height as int, now as int));
        }
    } else {
        assert(seq![r0, r1] + Seq::<Rec>::empty() =~= deadline_records(deposit, lockup, height as int, now as int));
    }
}

impl TwoPartyPolCovenantInstMsg {
    pub fn new(inner: TwoPartyInstantiateMsg) -> (r: Self)
        ensures
            r.0 == inner,
    {
        TwoPartyPolCovenantInstMsg(inner)
    }

    /// Runs every two-party check, in order, writing each outcome into
    /// `ctx`; no failed check stops the later ones. Where the data of
    /// another system cannot be used, the run stops with that error before
    /// anything is recorded.
    pub fn validate(&self, ctx: &mut CovenantValidationContext, obs: &TwoPartyObservations) -> (r: Result<(), FatalError>)
        requires
            old(ctx).wf(),
        ensures
            final(ctx).wf(),
            final(ctx).same_settings(old(ctx)),
            validate_outcome(self.0, *obs, *old(ctx), *final(ctx), r),
    {
        let msg = &self.0;
        // Everything that can stop the run is settled before anything is recorded.
        let manifest = match &obs.code_ids {
            Ok(m) => m,
            Err(_) => {
                return Err(FatalError::ManifestUnavailable);
            },
        };
        match check_party_data(&msg.party_a_config, &obs.party_a, &obs.neutron_assets) {
            Some(e) => {
                return Err(e);
            },
            None => {},
        }
        match check_party_data(&msg.party_b_config, &obs.party_b, &obs.neutron_assets) {
            Some(e) => {
                return Err(e);
            },
            None => {},
        }
        match &msg.liquid_pooler_config {
            LiquidPoolerConfig::Astroport(_) => match check_pool_data(&obs.pair_info, &obs.pool_info, &msg.pool_price_config) {
                Err(e) => {
                    return Err(e);
                },
                Ok(_) => {},
            },
            LiquidPoolerConfig::Osmosis => {},
        }
        let ghost l0 = ctx.logs();
        let ghost flag = ctx.spec_party_a_channel_uses_wasm_port();
        let ghost pct = ctx.spec_single_side_lp_limit_pct();
        let ghost mut done: Seq<Rec> = Seq::empty();

        // Label
        let has_label = !msg.label.as_str().is_empty();
        ctx.check_field(has_label, COVENANT_KEY, "label", String::from_str("valid"), String::from_str("required"));
        proof { lemma_apply_push(l0, done, label_record(msg.label@)); done = done.push(label_record(msg.label@)); }

        // Contract codes
        let expected = two_party_code_expectations(&msg.contract_codes);
        verify_code_ids(ctx, manifest, &expected);
        proof {
            let part = code_ids_records(manifest@, expected@);
            assert(part =~= two_party_code_records(*msg, *obs));
            lemma_apply_concat(l0, done, part);
            done = done + part;
        }

        // Covenant type
        ctx.valid_field(COVENANT_KEY, "covenant_type", String::from_str("verified"));
        proof {
            let r0 = pass_field(COVENANT_KEY@, "covenant_type"@, "verified"@);
            lemma_apply_push(l0, done, r0);
            done = done.push(r0);
        }

        // Party shares
        verify_shares(ctx, msg.party_a_share, msg.party_b_share);
        proof {
            let part = shares_records(msg.party_a_share, msg.party_b_share);
            lemma_apply_concat(l0, done, part);
            done = done + part;
        }

        // Deadlines
        verify_deadlines(ctx, msg.deposit_deadline, msg.lockup_config, obs.current_height, obs.now_secs);
        proof {
            let part = deadline_records(msg.deposit_deadline, msg.lockup_config, obs.current_height as int, obs.now_secs as int);
            lemma_apply_concat(l0, done, part);
            done = done + part;
        }

        // Parties
        let uses_wasm = ctx.party_a_channel_uses_wasm_port();
        // The data were checked above, so this cannot fail.
        let _ = verify_party_config(ctx, "party_a_config", &msg.party_a_config, &obs.party_a, &obs.neutron_assets, uses_wasm);
        proof {
            let part = party_records("party_a_config"@, msg.party_a_config, obs.party_a, obs.neutron_assets@, flag);
            lemma_apply_concat(l0, done, part);
            done = done + part;
        }
        let _ = verify_party_config(ctx, "party_b_config", &msg.party_b_config, &obs.party_b, &obs.neutron_assets, false);
        proof {
            let part = party_records("party_b_config"@, msg.party_b_config, obs.party_b, obs.neutron_assets@, false);
            lemma_apply_concat(l0, done, part);
            done = done + part;
        }

        // Liquid pooler
        let a_denom = msg.party_a_config.native_denom();
        let b_denom = msg.party_b_config.native_denom();
        match &msg.liquid_pooler_config {
            LiquidPoolerConfig::Astroport(lp) => {
                let pct_now = ctx.single_side_lp_limit_pct();
                // The pool data were checked above, so this cannot fail.
                let _ = verify_astroport_liquid_pooler_config(
                    ctx,
                    LIQUID_POOLER_CONFIG_KEY,
                    a_denom.as_str(),
                    msg.party_a_config.contribution_amount(),
                    b_denom.as_str(),
                    msg.party_b_config.contribution_amount(),
                    lp,
                    &msg.pool_price_config,
                    pct_now,
                    &obs.pair_info,
                    &obs.pool_info,
                );
            },
            LiquidPoolerConfig::Osmosis => {
                let ghost lb = ctx.logs();
                ctx.invalid(LIQUID_POOLER_CONFIG_KEY, String::from_str("Osmosis liquid pooler config: validation logic not yet implemented."));
                ctx.invalid(POOL_PRICE_CONFIG_KEY, String::from_str("Osmosis pool price config: validation logic not yet implemented."));
                proof {
                    let p = pooler_records(*msg, *obs, pct);
                    lemma_apply_push(lb, Seq::empty(), p[0]);
                    lemma_apply_push(lb, seq![p[0]], p[1]);
                    assert(Seq::<Rec>::empty().push(p[0]) =~= seq![p[0]]);
                    assert(seq![p[0]].push(p[1]) =~= p);
                }
            },
        }
        proof {
            let part = pooler_records(*msg, *obs, pct);
            lemma_apply_concat(l0, done, part);
            done = done + part;
        }

        // Splits
        let a_receiver = msg.party_a_config.final_receiver_address();
        let b_receiver = msg.party_b_config.final_receiver_address();
        verify_splits(ctx, &msg.splits, a_denom.as_str(), a_receiver.as_str(), b_denom.as_str(), b_receiver.as_str());
        proof {
            let r0 = splits_record(msg.splits@, a_denom@, a_receiver@, b_denom@, b_receiver@);
            lemma_apply_push(l0, done, r0);
            done = done.push(r0);
            assert(done =~= two_party_records(*msg, *obs, flag, pct));
        }
        Ok(())
    }
}

/// A deposit deadline at a height the chain has already reached, and a
/// lockup that does not come after the deposit deadline, are both reported
/// as failures under the covenant key, so the run fails, whatever else the
/// message holds.
pub proof fn lemma_expired_deadlines_reported(
    m: TwoPartyInstantiateMsg,
    o: TwoPartyObservations,
    uses_contract_port: bool,
    pct: u32,
    l: crate::report::Logs,
)
    requires
        crate::report::keys_unique(l.0),
        crate::report::keys_unique(l.1),
        m.deposit_deadline is AtHeight,
        m.deposit_deadline->AtHeight_0 as int <= o.current_height as int,
        expiration_le(m.lockup_config, m.deposit_deadline),
    ensures
        ({
            let errors = apply_records(l, two_party_records(m, o, uses_contract_port, pct)).1;
            &&& crate::report::messages_of(errors, COVENANT_KEY@).contains(
                crate::report::field_message("deposit_deadline"@, "invalid block height: should be in the future"@))
            &&& crate::report::messages_of(errors, COVENANT_KEY@).contains(
                crate::report::field_message("lockup_config"@, "invalid lockup config: should be later than deposit deadline"@))
            &&& errors.len() > 0
        }),
{
    let rs = two_party_records(m, o, uses_contract_port, pct);
    let pre = seq![label_record(m.label@)] + two_party_code_records(m, o)
        + seq![pass_field(COVENANT_KEY@, "covenant_type"@, "verified"@)] + shares_records(m.party_a_share, m.party_b_share);
    let d = deadline_records(m.deposit_deadline, m.lockup_config, o.current_height as int, o.now_secs as int);
    let rest1 = party_records("party_a_config"@, m.party_a_config, o.party_a, o.neutron_assets@, uses_contract_port);
    let rest2 = party_records("party_b_config"@, m.party_b_config, o.party_b, o.neutron_assets@, false);
    let rest3 = pooler_records(m, o, pct);
    let rest4 = seq![splits_record(m.splits@, party_native_denom(m.party_a_config), party_receiver(m.party_a_config),
            party_native_denom(m.party_b_config), party_receiver(m.party_b_config))];
    assert(rs == ((((pre + d) + rest1) + rest2) + rest3) + rest4);
    assert(d.len() == 3);
    let i0 = pre.len() as int;
    let i2 = pre.len() as int + 2;
    assert(rs[i0] == d[0]);
    assert(rs[i2] == d[2]);
    crate::report::lemma_failure_kept(l, rs, i0);
    crate::report::lemma_failure_kept(l, rs, i2);
    let errors = apply_records(l, rs).1;
    let k = COVENANT_KEY@;
    assert(crate::report::messages_of(errors, k).len() > 0);
    assert(crate::report::has_key(errors, k));
}

/// Checking the same message against the same data from the same report
/// gives the same outcome and the same report, record for record and in the
/// same order, whether the run completes or stops.
pub proof fn lemma_two_party_validation_deterministic(
    m: TwoPartyInstantiateMsg,
    o: TwoPartyObservations,
    c1: CovenantValidationContext,
    c2: CovenantValidationContext,
    after1: CovenantValidationContext,
    after2: CovenantValidationContext,
    r1: Result<(), FatalError>,
    r2: Result<(), FatalError>,
)
    requires
        c1.logs() == c2.logs(),
        c1.same_settings(&c2),
        validate_outcome(m, o, c1, after1, r1),
        validate_outcome(m, o, c2, after2, r2),
    ensures
        r1 == r2,
        after1.logs() == after2.logs(),
{
}

/// What `validate` promises of a run from `before` to `after` with result
/// `r`: where the data cannot be used, that error and an unchanged report;
/// otherwise success and exactly the two-party records.
pub open spec fn validate_outcome(
    m: TwoPartyInstantiateMsg,
    o: TwoPartyObservations,
    before: CovenantValidationContext,
    after: CovenantValidationContext,
    r: Result<(), FatalError>,
) -> bool {
    match two_party_fatal(m, o) {
        Some(e) => r == Err::<(), FatalError>(e) && after.logs() == before.logs(),
        None => r == Ok::<(), FatalError>(()) && after.logs() == apply_records(
            before.logs(),
            two_party_records(m, o, before.spec_party_a_channel_uses_wasm_port(), before.spec_single_side_lp_limit_pct()),
        ),
    }
}

/// A record that cannot put a message starting with `p` among the
/// covenant key's failures.
pub open spec fn no_p_failure(r: Rec) -> bool {
    r.0 || r.1 != COVENANT_KEY@ || (r.2.len() > 0 && r.2[0] != 'p')
}

proof fn lemma_all_concat(a: Seq<Rec>, b: Seq<Rec>)
    requires
        forall|i: int| 0 <= i < a.len() ==> no_p_failure(#[trigger] a[i]),
        forall|i: int| 0 <= i < b.len() ==> no_p_failure(#[trigger] b[i]),
    ensures
        forall|i: int| 0 <= i < (a + b).len() ==> no_p_failure(#[trigger] (a + b)[i]),
{
    assert forall|i: int| 0 <= i < (a + b).len() implies no_p_failure(#[trigger] (a + b)[i]) by {
        if i < a.len() {
            assert((a + b)[i] == a[i]);
        } else {
            assert((a + b)[i] == b[i - a.len()]);
        }
    }
}

proof fn lemma_field_first(f: Seq<char>, m: Seq<char>)
    requires
        f.len() > 0,
    ensures
        crate::report::field_message(f, m).len() > 0,
        crate::report::field_message(f, m)[0] == f[0],
{
}

/// With shares that add up to exactly 1, a two-party run records no
/// share-sum failure (where the report held none before).
pub proof fn lemma_exact_shares_not_reported(
    m: TwoPartyInstantiateMsg,
    o: TwoPartyObservations,
    uses_contract_port: bool,
    pct: u32,
    l: crate::report::Logs,
)
    requires
        crate::report::keys_unique(l.0),
        crate::report::keys_unique(l.1),
        m.party_a_share as int + m.party_b_share as int == crate::numeric::FIXED_ONE as int,
        !crate::report::messages_of(l.1, COVENANT_KEY@).contains(
            crate::report::field_message("party_a_share"@, "invalid share: sum of shares should be 1.0"@)),
        !crate::report::messages_of(l.1, COVENANT_KEY@).contains(
            crate::report::field_message("party_b_share"@, "invalid share: sum of shares should be 1.0"@)),
    ensures
        ({
            let errors = apply_records(l, two_party_records(m, o, uses_contract_port, pct)).1;
            &&& !crate::report::messages_of(errors, COVENANT_KEY@).contains(
                crate::report::field_message("party_a_share"@, "invalid share: sum of shares should be 1.0"@))
            &&& !crate::report::messages_of(errors, COVENANT_KEY@).contains(
                crate::report::field_message("party_b_share"@, "invalid share: sum of shares should be 1.0"@))
        }),
{
    reveal_strlit("covenant");
    reveal_strlit("label");
    reveal_strlit("covenant_type");
    reveal_strlit("deposit_deadline");
    reveal_strlit("lockup_config");
    reveal_strlit("party_a_share");
    reveal_strlit("party_b_share");
    reveal_strlit("contract_codes");
    reveal_strlit("party_a_config");
    reveal_strlit("party_b_config");
    reveal_strlit("liquid_pooler_config");
    reveal_strlit("pool_price_config");
    reveal_strlit("splits");
    let k = COVENANT_KEY@;
    let p0 = seq![label_record(m.label@)];
    let p1 = two_party_code_records(m, o);
    let p2 = seq![pass_field(k, "covenant_type"@, "verified"@)];
    let p3 = shares_records(m.party_a_share, m.party_b_share);
    let p4 = deadline_records(m.deposit_deadline, m.lockup_config, o.current_height as int, o.now_secs as int);
    let p5 = party_records("party_a_config"@, m.party_a_config, o.party_a, o.neutron_assets@, uses_contract_port);
    let p6 = party_records("party_b_config"@, m.party_b_config, o.party_b, o.neutron_assets@, false);
    let p7 = pooler_records(m, o, pct);
    let p8 = seq![splits_record(m.splits@, party_native_denom(m.party_a_config), party_receiver(m.party_a_config),
            party_native_denom(m.party_b_config), party_receiver(m.party_b_config))];
    let rs = two_party_records(m, o, uses_contract_port, pct);
    assert(rs == p0 + p1 + p2 + p3 + p4 + p5 + p6 + p7 + p8);

    lemma_field_first("label"@, "valid"@);
    lemma_field_first("label"@, "required"@);
    assert(forall|i: int| 0 <= i < p0.len() ==> no_p_failure(#[trigger] p0[i]));
    assert forall|i: int| 0 <= i < p1.len() implies no_p_failure(#[trigger] p1[i]) by {
        assert(p1[i].1 == CONTRACT_CODES_KEY@);
        assert(CONTRACT_CODES_KEY@.len() != k.len());
    }
    assert(forall|i: int| 0 <= i < p2.len() ==> no_p_failure(#[trigger] p2[i]));
    assert(forall|i: int| 0 <= i < p3.len() ==> no_p_failure(#[trigger] p3[i]));
    lemma_field_first("deposit_deadline"@, "verified"@);
    lemma_field_first("deposit_deadline"@, "invalid block height: should be in the future"@);
    lemma_field_first("deposit_deadline"@, "invalid timestamp: should be in the future"@);
    lemma_field_first("deposit_deadline"@, "verified (note: never expires)"@);
    lemma_field_first("lockup_config"@, "verified"@);
    lemma_field_first("lockup_config"@, "invalid block height: should be in the future"@);
    lemma_field_first("lockup_config"@, "invalid timestamp: should be in the future"@);
    lemma_field_first("lockup_config"@, "verified (note: never expires)"@);
    lemma_field_first("lockup_config"@, "invalid lockup config: should be later than deposit deadline"@);
    assert(forall|i: int| 0 <= i < p4.len() ==> no_p_failure(#[trigger] p4[i]));
    lemma_party_keyed("party_a_config"@, m.party_a_config, o.party_a, o.neutron_assets@, uses_contract_port);
    lemma_party_keyed("party_b_config"@, m.party_b_config, o.party_b, o.neutron_assets@, false);
    assert("party_a_config"@.len() != k.len() && "party_b_config"@.len() != k.len());
    assert forall|i: int| 0 <= i < p5.len() implies no_p_failure(#[trigger] p5[i]) by {
        assert(p5[i].1 == "party_a_config"@);
    }
    assert forall|i: int| 0 <= i < p6.len() implies no_p_failure(#[trigger] p6[i]) by {
        assert(p6[i].1 == "party_b_config"@);
    }
    assert(forall|i: int| 0 <= i < p7.len() ==> no_p_failure(#[trigger] p7[i]));
    assert(forall|i: int| 0 <= i < p8.len() ==> no_p_failure(#[trigger] p8[i]));
    lemma_all_concat(p0, p1);
    lemma_all_concat(p0 + p1, p2);
    lemma_all_concat(p0 + p1 + p2, p3);
    lemma_all_concat(p0 + p1 + p2 + p3, p4);
    lemma_all_concat(p0 + p1 + p2 + p3 + p4, p5);
    lemma_all_concat(p0 + p1 + p2 + p3 + p4 + p5, p6);
    lemma_all_concat(p0 + p1 + p2 + p3 + p4 + p5 + p6, p7);
    lemma_all_concat(p0 + p1 + p2 + p3 + p4 + p5 + p6 + p7, p8);
    let ta = crate::report::field_message("party_a_share"@, "invalid share: sum of shares should be 1.0"@);
    let tb = crate::report::field_message("party_b_share"@, "invalid share: sum of shares should be 1.0"@);
    lemma_field_first("party_a_share"@, "invalid share: sum of shares should be 1.0"@);
    lemma_field_first("party_b_share"@, "invalid share: sum of shares should be 1.0"@);
    assert forall|i: int| 0 <= i < rs.len() implies (#[trigger] rs[i]).0 || rs[i].1 != k || rs[i].2 != ta by {
        assert(no_p_failure(rs[i]));
    }
    assert forall|i: int| 0 <= i < rs.len() implies (#[trigger] rs[i]).0 || rs[i].1 != k || rs[i].2 != tb by {
        assert(no_p_failure(rs[i]));
    }
    crate::report::lemma_failure_absent(l, rs, k, ta);
    crate::report::lemma_failure_absent(l, rs, k, tb);
}

/// Every record of a party check is under the party's key.
proof fn lemma_party_keyed(key: Seq<char>, cfg: CovenantPartyConfig, data: PartyChainData, neutron_assets: Seq<AssetInfo>, flag: bool)
    ensures
        forall|i: int| 0 <= i < party_records(key, cfg, data, neutron_assets, flag).len()
            ==> (#[trigger] party_records(key, cfg, data, neutron_assets, flag)[i]).1 == key,
{
    let rs = party_records(key, cfg, data, neutron_assets, flag);
    match cfg {
        CovenantPartyConfig::Native(p) => {
            assert forall|i: int| 0 <= i < rs.len() implies (#[trigger] rs[i]).1 == key by {}
        },
        CovenantPartyConfig::Interchain(p) => {
            let res = crate::path::resolve_spec(data.path->0, crate::path::NEUTRON_CHAIN_NAME@, flag);
            let h = crate::party::path_records(key, p, res);
            assert(forall|i: int| 0 <= i < h.len() ==> (#[trigger] h[i]).1 == key);
            assert forall|i: int| 0 <= i < rs.len() implies (#[trigger] rs[i]).1 == key by {
                if i < h.len() {
                    assert(rs[i] == h[i]);
                }
            }
        },
    }
}

} // verus!

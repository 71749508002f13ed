//! The single-party protocol-owned-liquidity covenant and its checks: one
//! party's funds are split into a liquid-staked leg and a native leg, and
//! both are pooled on Neutron.
use vstd::prelude::*;

use crate::assets::{find_asset, find_asset_spec, AssetInfo};
use crate::astroport::{
    astroport_fatal, astroport_records, check_pool_data, pool_amounts, verify_astroport_liquid_pooler_config, FatalError, PairInfo,
    PoolInfo, PoolPriceConfig, LIQUID_POOLER_CONFIG_KEY, POOL_PRICE_CONFIG_KEY,
};
use crate::contracts::{code_id_record, code_ids_records, verify_code_ids, CodeIdEntry, CodeIdExpectation, CONTRACT_CODES_KEY};
use crate::denom::{derive_voucher_denom, voucher_denom_spec};
use crate::numeric::{decimals_divisor, leg_matches_share, leg_matches_share_spec, pow10, share_within_unit, shares_sum_to_one, FIXED_ONE};
use crate::party::{
    address_record, amount_text, check_contribution, contribution_record, equals_record, mismatch_message, mismatch_text, party_contribution, path_error_text,
    verify_equals, Coin, CovenantPartyConfig, InterchainCovenantParty, PartyChainData,
};
use crate::path::{
    resolve_path_channels, resolve_spec, IBCPath, PathError, NEUTRON_CHAIN_NAME, PERSISTENCE_CHAIN_NAME,
    STRIDE_CHAIN_NAME,
};
use crate::report::{
    apply_record, apply_records, fail_field, fail_key, lemma_apply_concat, lemma_apply_push, outcome_record,
    pass_field, CovenantValidationContext, LsProvider, Rec,
};
use crate::text::{digits_of, str_eq, u128_text};
use crate::two_party::{expectation, expectations_view, label_record, LiquidPoolerConfig, COVENANT_KEY};

verus! {

/// The code ids of the contracts that a single-party covenant instantiates.
#[derive(Clone, Copy, Debug, PartialEq, Eq, Structural)]
pub struct SinglePartyCodeIds {
    pub ibc_forwarder_code: u64,
    pub holder_code: u64,
    pub clock_code: u64,
    pub remote_chain_splitter_code: u64,
    pub liquid_pooler_code: u64,
    pub liquid_staker_code: u64,
    pub interchain_router_code: u64,
}

/// Where the liquid-staked leg comes from.
#[derive(Clone, Debug, PartialEq, Eq)]
pub struct LsInfo {
    pub ls_neutron_connection_id: String,
    pub ls_chain_to_neutron_channel_id: String,
    pub ls_denom: String,
    pub ls_denom_on_neutron: String,
}

/// How the party's funds are split on its own chain. Shares are scaled by
/// 10^18.
#[derive(Clone, Debug, PartialEq, Eq)]
pub struct RemoteChainSplitterConfig {
    pub channel_id: String,
    pub connection_id: String,
    pub denom: String,
    pub amount: u128,
    pub ls_share: u128,
    pub native_share: u128,
}

/// The instantiation message of a single-party covenant, as far as the
/// checks read it.
#[derive(Clone, Debug, PartialEq, Eq)]
pub struct SinglePartyInstantiateMsg {
    pub label: String,
    pub contract_codes: SinglePartyCodeIds,
    pub covenant_party_config: InterchainCovenantParty,
    pub ls_info: LsInfo,
    pub remote_chain_splitter_config: RemoteChainSplitterConfig,
    pub lp_forwarder_config: CovenantPartyConfig,
    pub ls_forwarder_config: CovenantPartyConfig,
    pub liquid_pooler_config: LiquidPoolerConfig,
    pub pool_price_config: PoolPriceConfig,
}

/// What other systems said, handed to the single-party checks.
#[derive(Debug)]
pub struct SinglePartyObservations {
    /// The release manifest, or why it could not be had.
    pub code_ids: Result<Vec<CodeIdEntry>, String>,
    /// The party's chain; its path is the one to Neutron.
    pub party: PartyChainData,
    /// The path between Neutron and the liquid staking chain.
    pub ls_path: IBCPath,
    /// The path between the party's chain and the liquid staking chain.
    pub party_ls_path: IBCPath,
    /// The liquid staking chain's asset registry.
    pub ls_chain_assets: Vec<AssetInfo>,
    pub pair_info: PairInfo,
    pub pool_info: PoolInfo,
}

/// The single-party covenant, ready to be checked.
pub struct SinglePartyPolCovenantInstMsg(pub SinglePartyInstantiateMsg);

/// The report keys of the single-party checks.
pub const COVENANT_PARTY_CONFIG_KEY: &'static str = "covenant_party_config";
pub const LS_INFO_KEY: &'static str = "ls_info";
pub const REMOTE_CHAIN_SPLITTER_KEY: &'static str = "remote_chain_splitter_config";
pub const LP_FORWARDER_KEY: &'static str = "lp_forwarder_config";
pub const LS_FORWARDER_KEY: &'static str = "ls_forwarder_config";

/// The code ids to check, with their report fields and manifest names.
pub open spec fn single_party_expectations(c: SinglePartyCodeIds) -> Seq<(Seq<char>, Seq<char>, u64)> {
    seq![
        ("ibc_forwarder_code"@, "ibc_forwarder"@, c.ibc_forwarder_code),
        ("holder_code"@, "single_party_pol_holder"@, c.holder_code),
        ("clock_code"@, "clock"@, c.clock_code),
        ("remote_chain_splitter_code"@, "remote_chain_splitter"@, c.remote_chain_splitter_code),
        ("liquid_pooler_code"@, "astroport_liquid_pooler"@, c.liquid_pooler_code),
        ("liquid_staker_code"@, "stride_liquid_staker"@, c.liquid_staker_code),
        ("interchain_router_code"@, "interchain_router"@, c.interchain_router_code),
    ]
}

/// The code ids of a single-party covenant, as a list to check.
pub fn single_party_code_expectations(c: &SinglePartyCodeIds) -> (r: Vec<CodeIdExpectation>)
    ensures
        expectations_view(r@) == single_party_expectations(*c),
{
    let mut v: Vec<CodeIdExpectation> = Vec::new();
    v.push(expectation("ibc_forwarder_code", "ibc_forwarder", c.ibc_forwarder_code));
    v.push(expectation("holder_code", "single_party_pol_holder", c.holder_code));
    v.push(expectation("clock_code", "clock", c.clock_code));
    v.push(expectation("remote_chain_splitter_code", "remote_chain_splitter", c.remote_chain_splitter_code));
    v.push(expectation("liquid_pooler_code", "astroport_liquid_pooler", c.liquid_pooler_code));
    v.push(expectation("liquid_staker_code", "stride_liquid_staker", c.liquid_staker_code));
    v.push(expectation("interchain_router_code", "interchain_router", c.interchain_router_code));
    assert(expectations_view(v@) =~= single_party_expectations(*c));
    v
}

/// The records of the code id checks of a single-party covenant.
pub open spec fn single_party_code_records(m: SinglePartyInstantiateMsg, o: SinglePartyObservations) -> Seq<Rec> {
    match o.code_ids {
        Ok(entries) => single_party_expectations(m.contract_codes).map_values(
            |e: (Seq<char>, Seq<char>, u64)| code_id_record(e.0, entries@, e.1, e.2)),
        Err(_) => Seq::empty(),
    }
}

/// The records of the covenant party's checks.
pub open spec fn covenant_party_records(p: InterchainCovenantParty, data: PartyChainData, uses_contract_port: bool) -> Seq<Rec> {
    let key = COVENANT_PARTY_CONFIG_KEY@;
    let ids = match resolve_spec(data.path->0, NEUTRON_CHAIN_NAME@, uses_contract_port) {
        Ok(t) => seq![
            equals_record(key, "party_chain_connection_id"@, "connection id"@, t.0, p.party_chain_connection_id@),
            equals_record(key, "host_to_party_chain_channel_id"@, "channel id"@, t.1, p.host_to_party_chain_channel_id@),
            equals_record(key, "party_to_host_chain_channel_id"@, "channel id"@, t.2, p.party_to_host_chain_channel_id@),
        ],
        Err(e) => seq![fail_key(key, path_error_text(e))],
    };
    ids + seq![
        equals_record(key, "remote_chain_denom"@, "denom"@, data.chain.denom@, p.remote_chain_denom@),
        equals_record(key, "native_denom"@, "denom"@,
            voucher_denom_spec(p.host_to_party_chain_channel_id@, p.remote_chain_denom@), p.native_denom@),
        contribution_record(key, p.contribution, data.chain.denom@, data.chain.decimals, data.chain.display@),
        address_record(key, "party_receiver_addr"@, p.party_receiver_addr@),
        address_record(key, "addr"@, p.addr@),
    ]
}

/// The records of the liquid staking checks.
pub open spec fn ls_info_records(ls: LsInfo, ls_path: IBCPath, ls_assets: Seq<AssetInfo>) -> Seq<Rec> {
    let key = LS_INFO_KEY@;
    let denom_rec = match find_asset_spec(ls_assets, ls.ls_denom@) {
        Some(i) if ls_assets[i].base@ == ls.ls_denom@ => pass_field(key, "ls_denom"@, "verified"@),
        _ => fail_field(key, "ls_denom"@, "could not verify denom: "@ + ls.ls_denom@),
    };
    match resolve_spec(ls_path, NEUTRON_CHAIN_NAME@, false) {
        Ok(t) => seq![
            equals_record(key, "ls_neutron_connection_id"@, "connection id"@, t.0, ls.ls_neutron_connection_id@),
            equals_record(key, "ls_chain_to_neutron_channel_id"@, "channel id"@, t.2, ls.ls_chain_to_neutron_channel_id@),
            denom_rec,
            equals_record(key, "ls_denom_on_neutron"@, "denom"@, voucher_denom_spec(t.1, ls.ls_denom@), ls.ls_denom_on_neutron@),
        ],
        Err(e) => seq![
            fail_key(key, path_error_text(e)),
            denom_rec,
            fail_field(key, "ls_denom_on_neutron"@, "could not derive denom: no channel"@),
        ],
    }
}

/// The records of the remote chain splitter checks.
pub open spec fn splitter_records(p: InterchainCovenantParty, s: RemoteChainSplitterConfig) -> Seq<Rec> {
    let key = REMOTE_CHAIN_SPLITTER_KEY@;
    seq![
        equals_record(key, "connection_id"@, "connection id"@, p.party_chain_connection_id@, s.connection_id@),
        equals_record(key, "channel_id"@, "channel id"@, p.host_to_party_chain_channel_id@, s.channel_id@),
        equals_record(key, "denom"@, "denom"@, p.remote_chain_denom@, s.denom@),
        outcome_record(p.contribution.amount == s.amount, key, "amount"@, "verified"@,
            mismatch_text("amount"@, digits_of(p.contribution.amount as nat), digits_of(s.amount as nat))),
        outcome_record(s.ls_share <= FIXED_ONE, key, "ls_share"@, "verified"@, "invalid share: should be between 0 and 1"@),
        outcome_record(s.native_share <= FIXED_ONE, key, "native_share"@, "verified"@, "invalid share: should be between 0 and 1"@),
        outcome_record(s.ls_share as int + s.native_share as int == FIXED_ONE as int, key, "ls_share + native_share"@,
            "verified"@, "invalid share: should sum up to 1"@),
    ]
}

/// The record of a field that must be set but is not compared.
pub open spec fn required_record(key: Seq<char>, field: Seq<char>, value: Seq<char>) -> Rec {
    outcome_record(value.len() > 0, key, field, "ignored"@, "required"@)
}

/// The records of a forwarder's checks: which fields are set, its denom,
/// its connection and channel, and that its contribution is in the base
/// denom and is its share of the party's contribution.
pub open spec fn forwarder_records(
    key: Seq<char>,
    cfg: CovenantPartyConfig,
    remote: Seq<char>,
    base: Seq<char>,
    ids: Result<(Seq<char>, Seq<char>), PathError>,
    total: u128,
    share: u128,
    share_name: Seq<char>,
    decimals: u8,
    unit: Seq<char>,
) -> Seq<Rec> {
    match cfg {
        CovenantPartyConfig::Interchain(f) => seq![
            required_record(key, "party_receiver_addr"@, f.party_receiver_addr@),
            required_record(key, "addr"@, f.addr@),
            required_record(key, "host_to_party_chain_channel_id"@, f.host_to_party_chain_channel_id@),
            required_record(key, "native_denom"@, f.native_denom@),
            equals_record(key, "remote_chain_denom"@, "denom"@, remote, f.remote_chain_denom@),
        ] + match ids {
            Ok(t) => seq![
                equals_record(key, "party_chain_connection_id"@, "connection id"@, t.0, f.party_chain_connection_id@),
                equals_record(key, "party_to_host_chain_channel_id"@, "channel id"@, t.1, f.party_to_host_chain_channel_id@),
            ],
            Err(e) => seq![fail_key(key, path_error_text(e))],
        } + seq![amount_record(key, f.contribution, base, (total, share, share_name), decimals, unit)],
        CovenantPartyConfig::Native(_) => seq![
            fail_key(key, "Invalid covenant party config: should be an Interchain party config."@),
        ],
    }
}

/// The records of the liquid pooler checks of a single-party covenant: the
/// native leg and the liquid-staked leg on Neutron.
pub open spec fn single_pooler_records(m: SinglePartyInstantiateMsg, o: SinglePartyObservations, pct: u32) -> Seq<Rec> {
    match m.liquid_pooler_config {
        LiquidPoolerConfig::Astroport(lp) => astroport_records(
            LIQUID_POOLER_CONFIG_KEY@,
            m.covenant_party_config.native_denom@,
            party_contribution(m.lp_forwarder_config),
            m.ls_info.ls_denom_on_neutron@,
            party_contribution(m.ls_forwarder_config),
            lp,
            m.pool_price_config,
            pct,
            o.pair_info,
            pool_amounts(o.pool_info)->0,
        ),
        LiquidPoolerConfig::Osmosis => seq![
            fail_key(LIQUID_POOLER_CONFIG_KEY@, "Osmosis liquid pooler config: validation logic not yet implemented."@),
            fail_key(POOL_PRICE_CONFIG_KEY@, "Osmosis pool price config: validation logic not yet implemented."@),
        ],
    }
}

/// Why the single-party checks cannot be made.
pub open spec fn single_party_fatal(m: SinglePartyInstantiateMsg, o: SinglePartyObservations) -> Option<FatalError> {
    if o.code_ids is Err {
        Some(FatalError::ManifestUnavailable)
    } else if o.party.path is None {
        Some(FatalError::PathUnresolved)
    } else if pow10(o.party.chain.decimals as nat) > u128::MAX / 10 {
        Some(FatalError::ArithmeticOverflow)
    } else {
        match m.liquid_pooler_config {
            LiquidPoolerConfig::Astroport(_) => astroport_fatal(o.pair_info, o.pool_info, m.pool_price_config),
            LiquidPoolerConfig::Osmosis => None,
        }
    }
}

/// The chain of a liquid staking provider.
pub open spec fn ls_chain_name(p: LsProvider) -> Seq<char> {
    match p {
        LsProvider::Stride => STRIDE_CHAIN_NAME@,
        LsProvider::Persistence => PERSISTENCE_CHAIN_NAME@,
    }
}

/// The chain of a liquid staking provider.
pub fn ls_chain(p: LsProvider) -> (r: &'static str)
    ensures
        r@ == ls_chain_name(p),
{
    match p {
        LsProvider::Stride => STRIDE_CHAIN_NAME,
        LsProvider::Persistence => PERSISTENCE_CHAIN_NAME,
    }
}

/// The connection and channel that the liquid staking forwarder must use:
/// the staking chain's connection and the party chain's channel.
pub open spec fn ls_forwarder_ids(o: SinglePartyObservations, provider: LsProvider) -> Result<(Seq<char>, Seq<char>), PathError> {
    match resolve_spec(o.party_ls_path, ls_chain_name(provider), false) {
        Ok(t) => Ok((t.0, t.2)),
        Err(e) => Err(e),
    }
}

/// Every record that the single-party checks write, in order.
pub open spec fn single_party_records(
    m: SinglePartyInstantiateMsg,
    o: SinglePartyObservations,
    uses_contract_port: bool,
    pct: u32,
    provider: LsProvider,
) -> Seq<Rec> {
    let p = m.covenant_party_config;
    let s = m.remote_chain_splitter_config;
    seq![label_record(m.label@)]
        + single_party_code_records(m, o)
        + covenant_party_records(p, o.party, uses_contract_port)
        + ls_info_records(m.ls_info, o.ls_path, o.ls_chain_assets@)
        + splitter_records(p, s)
        + forwarder_records(LP_FORWARDER_KEY@, m.lp_forwarder_config, p.remote_chain_denom@, o.party.chain.denom@,
            Ok((p.party_chain_connection_id@, p.party_to_host_chain_channel_id@)), p.contribution.amount,
            s.native_share, "native_share"@, o.party.chain.decimals, o.party.chain.display@)
        + forwarder_records(LS_FORWARDER_KEY@, m.ls_forwarder_config, p.remote_chain_denom@, o.party.chain.denom@,
            ls_forwarder_ids(o, provider), p.contribution.amount, s.ls_share, "ls_share"@, o.party.chain.decimals,
            o.party.chain.display@)
        + single_pooler_records(m, o, pct)
}

fn verify_covenant_party(
    ctx: &mut CovenantValidationContext,
    p: &InterchainCovenantParty,
    data: &PartyChainData,
    path: &IBCPath,
    divisor: u128,
    uses_contract_port: bool,
)
    requires
        old(ctx).wf(),
        data.path == Some(*path),
        divisor as nat == pow10(data.chain.decimals as nat),
        divisor <= u128::MAX / 10,
    ensures
        final(ctx).wf(),
        final(ctx).same_settings(old(ctx)),
        final(ctx).logs() == apply_records(old(ctx).logs(), covenant_party_records(*p, *data, uses_contract_port)),
{
    let key = COVENANT_PARTY_CONFIG_KEY;
    let ghost l0 = ctx.logs();
    let ghost mut done: Seq<Rec> = Seq::empty();
    match resolve_path_channels(path, NEUTRON_CHAIN_NAME, uses_contract_port) {
        Ok((conn, h2p, p2h)) => {
            verify_equals(ctx, key, "party_chain_connection_id", "connection id", conn.as_str(), p.party_chain_connection_id.as_str());
            proof { let r = equals_record(key@, "party_chain_connection_id"@, "connection id"@, conn@, p.party_chain_connection_id@); lemma_apply_push(l0, done, r); done = done.push(r); }
            verify_equals(ctx, key, "host_to_party_chain_channel_id", "channel id", h2p.as_str(), p.host_to_party_chain_channel_id.as_str());
            proof { let r = equals_record(key@, "host_to_party_chain_channel_id"@, "channel id"@, h2p@, p.host_to_party_chain_channel_id@); lemma_apply_push(l0, done, r); done = done.push(r); }
            verify_equals(ctx, key, "party_to_host_chain_channel_id", "channel id", p2h.as_str(), p.party_to_host_chain_channel_id.as_str());
            proof { let r = equals_record(key@, "party_to_host_chain_channel_id"@, "channel id"@, p2h@, p.party_to_host_chain_channel_id@); lemma_apply_push(l0, done, r); done = done.push(r); }
        },
        Err(e) => {
            ctx.invalid(key, crate::party::path_error_message(e));
            proof { let r = fail_key(key@, path_error_text(e)); lemma_apply_push(l0, done, r); done = done.push(r); }
        },
    }
    verify_equals(ctx, key, "remote_chain_denom", "denom", data.chain.denom.as_str(), p.remote_chain_denom.as_str());
    proof { let r = equals_record(key@, "remote_chain_denom"@, "denom"@, data.chain.denom@, p.remote_chain_denom@); lemma_apply_push(l0, done, r); done = done.push(r); }
    let expected_native = derive_voucher_denom(p.host_to_party_chain_channel_id.as_str(), p.remote_chain_denom.as_str());
    verify_equals(ctx, key, "native_denom", "denom", expected_native.as_str(), p.native_denom.as_str());
    proof { let r = equals_record(key@, "native_denom"@, "denom"@, expected_native@, p.native_denom@); lemma_apply_push(l0, done, r); done = done.push(r); }
    check_contribution(ctx, key, &p.contribution, data.chain.denom.as_str(), divisor, data.chain.decimals, data.chain.display.as_str());
    proof {
        let r = contribution_record(key@, p.contribution, data.chain.denom@, data.chain.decimals, data.chain.display@);
        lemma_apply_push(l0, done, r);
        done = done.push(r);
    }
    crate::address::validate_party_address(ctx, key, "party_receiver_addr", p.party_receiver_addr.as_str());
    proof { let r = address_record(key@, "party_receiver_addr"@, p.party_receiver_addr@); lemma_apply_push(l0, done, r); done = done.push(r); }
    crate::address::validate_party_address(ctx, key, "addr", p.addr.as_str());
    proof {
        let r = address_record(key@, "addr"@, p.addr@);
        lemma_apply_push(l0, done, r);
        done = done.push(r);
        assert(done =~= covenant_party_records(*p, *data, uses_contract_port));
    }
}

/// The record of a forwarder's contribution check: in the base denom, and
/// exactly its share of the party's total.
pub open spec fn amount_record(
    key: Seq<char>,
    c: Coin,
    base: Seq<char>,
    rule: (u128, u128, Seq<char>),
    decimals: u8,
    unit: Seq<char>,
) -> Rec {
    if c.denom@ == base && !leg_matches_share_spec(c.amount as int, rule.0 as int, rule.1 as int) {
        fail_field(key, "contribution"@, "invalid amount: should be equal to "@ + rule.2 + " * contribution amount"@)
    } else {
        contribution_record(key, c, base, decimals, unit)
    }
}

/// A share rule as plain values.
pub struct ShareRule {
    pub total: u128,
    pub share: u128,
    pub name: &'static str,
}

fn check_amount(
    ctx: &mut CovenantValidationContext,
    key: &str,
    c: &Coin,
    base: &str,
    rule: ShareRule,
    divisor: u128,
    decimals: u8,
    unit: &str,
)
    requires
        old(ctx).wf(),
        divisor as nat == pow10(decimals as nat),
        divisor <= u128::MAX / 10,
    ensures
        final(ctx).wf(),
        final(ctx).same_settings(old(ctx)),
        final(ctx).logs() == apply_record(old(ctx).logs(), amount_record(key@, *c, base@,
            (rule.total, rule.share, rule.name@), decimals, unit@)),
{
    if str_eq(c.denom.as_str(), base) && !leg_matches_share(c.amount, rule.total, rule.share) {
        let mut msg = crate::text::concat("invalid amount: should be equal to ", rule.name);
        msg.append(" * contribution amount");
        ctx.invalid_field(key, "contribution", msg);
    } else {
        check_contribution(ctx, key, c, base, divisor, decimals, unit);
    }
}

fn verify_ls_info(ctx: &mut CovenantValidationContext, ls: &LsInfo, ls_path: &IBCPath, ls_assets: &Vec<AssetInfo>)
    requires
        old(ctx).wf(),
    ensures
        final(ctx).wf(),
        final(ctx).same_settings(old(ctx)),
        final(ctx).logs() == apply_records(old(ctx).logs(), ls_info_records(*ls, *ls_path, ls_assets@)),
{
    let key = LS_INFO_KEY;
    let ghost l0 = ctx.logs();
    let ghost mut done: Seq<Rec> = Seq::empty();
    let denom_ok = match find_asset(ls_assets, ls.ls_denom.as_str()) {
        Some(i) => str_eq(ls_assets[i].base.as_str(), ls.ls_denom.as_str()),
        None => false,
    };
    let ghost denom_rec = match find_asset_spec(ls_assets@, ls.ls_denom@) {
        Some(i) if ls_assets@[i].base@ == ls.ls_denom@ => pass_field(key@, "ls_denom"@, "verified"@),
        _ => fail_field(key@, "ls_denom"@, "could not verify denom: "@ + ls.ls_denom@),
    };
    match resolve_path_channels(ls_path, NEUTRON_CHAIN_NAME, false) {
        Ok((conn, neutron_channel, ls_channel)) => {
            verify_equals(ctx, key, "ls_neutron_connection_id", "connection id", conn.as_str(), ls.ls_neutron_connection_id.as_str());
            proof { let r = equals_record(key@, "ls_neutron_connection_id"@, "connection id"@, conn@, ls.ls_neutron_connection_id@); lemma_apply_push(l0, done, r); done = done.push(r); }
            verify_equals(ctx, key, "ls_chain_to_neutron_channel_id", "channel id", ls_channel.as_str(), ls.ls_chain_to_neutron_channel_id.as_str());
            proof { let r = equals_record(key@, "ls_chain_to_neutron_channel_id"@, "channel id"@, ls_channel@, ls.ls_chain_to_neutron_channel_id@); lemma_apply_push(l0, done, r); done = done.push(r); }
            ctx.check_field(denom_ok, key, "ls_denom", String::from_str("verified"), crate::text::concat("could not verify denom: ", ls.ls_denom.as_str()));
            proof { lemma_apply_push(l0, done, denom_rec); done = done.push(denom_rec); }
            let expected = derive_voucher_denom(neutron_channel.as_str(), ls.ls_denom.as_str());
            verify_equals(ctx, key, "ls_denom_on_neutron", "denom", expected.as_str(), ls.ls_denom_on_neutron.as_str());
            proof { let r = equals_record(key@, "ls_denom_on_neutron"@, "denom"@, expected@, ls.ls_denom_on_neutron@); lemma_apply_push(l0, done, r); done = done.push(r); }
        },
        Err(e) => {
            ctx.invalid(key, crate::party::path_error_message(e));
            proof { let r = fail_key(key@, path_error_text(e)); lemma_apply_push(l0, done, r); done = done.push(r); }
            ctx.check_field(denom_ok, key, "ls_denom", String::from_str("verified"), crate::text::concat("could not verify denom: ", ls.ls_denom.as_str()));
            proof { lemma_apply_push(l0, done, denom_rec); done = done.push(denom_rec); }
            ctx.invalid_field(key, "ls_denom_on_neutron", String::from_str("could not derive denom: no channel"));
            proof { let r = fail_field(key@, "ls_denom_on_neutron"@, "could not derive denom: no channel"@); lemma_apply_push(l0, done, r); done = done.push(r); }
        },
    }
    assert(done =~= ls_info_records(*ls, *ls_path, ls_assets@));
}

fn verify_splitter(ctx: &mut CovenantValidationContext, p: &InterchainCovenantParty, s: &RemoteChainSplitterConfig)
    requires
        old(ctx).wf(),
    ensures
        final(ctx).wf(),
        final(ctx).same_settings(old(ctx)),
        final(ctx).logs() == apply_records(old(ctx).logs(), splitter_records(*p, *s)),
{
    let key = REMOTE_CHAIN_SPLITTER_KEY;
    let ghost l0 = ctx.logs();
    let ghost mut done: Seq<Rec> = Seq::empty();
    verify_equals(ctx, key, "connection_id", "connection id", p.party_chain_connection_id.as_str(), s.connection_id.as_str());
    proof { let r = equals_record(key@, "connection_id"@, "connection id"@, p.party_chain_connection_id@, s.connection_id@); lemma_apply_push(l0, done, r); done = done.push(r); }
    verify_equals(ctx, key, "channel_id", "channel id", p.host_to_party_chain_channel_id.as_str(), s.channel_id.as_str());
    proof { let r = equals_record(key@, "channel_id"@, "channel id"@, p.host_to_party_chain_channel_id@, s.channel_id@); lemma_apply_push(l0, done, r); done = done.push(r); }
    verify_equals(ctx, key, "denom", "denom", p.remote_chain_denom.as_str(), s.denom.as_str());
    proof { let r = equals_record(key@, "denom"@, "denom"@, p.remote_chain_denom@, s.denom@); lemma_apply_push(l0, done, r); done = done.push(r); }
    let amount_msg = mismatch_message("amount", u128_text(p.contribution.amount).as_str(), u128_text(s.amount).as_str());
    ctx.check_field(p.contribution.amount == s.amount, key, "amount", String::from_str("verified"), amount_msg);
    proof {
        let r = outcome_record(p.contribution.amount == s.amount, key@, "amount"@, "verified"@,
            mismatch_text("amount"@, digits_of(p.contribution.amount as nat), digits_of(s.amount as nat)));
        lemma_apply_push(l0, done, r);
        done = done.push(r);
    }
    ctx.check_field(share_within_unit(s.ls_share), key, "ls_share", String::from_str("verified"), String::from_str("invalid share: should be between 0 and 1"));
    proof { let r = outcome_record(s.ls_share <= FIXED_ONE, key@, "ls_share"@, "verified"@, "invalid share: should be between 0 and 1"@); lemma_apply_push(l0, done, r); done = done.push(r); }
    ctx.check_field(share_within_unit(s.native_share), key, "native_share", String::from_str("verified"), String::from_str("invalid share: should be between 0 and 1"));
    proof { let r = outcome_record(s.native_share <= FIXED_ONE, key@, "native_share"@, "verified"@, "invalid share: should be between 0 and 1"@); lemma_apply_push(l0, done, r); done = done.push(r); }
    ctx.check_field(shares_sum_to_one(s.ls_share, s.native_share), key, "ls_share + native_share", String::from_str("verified"), String::from_str("invalid share: should sum up to 1"));
    proof {
        let r = outcome_record(s.ls_share as int + s.native_share as int == FIXED_ONE as int, key@, "ls_share + native_share"@, "verified"@, "invalid share: should sum up to 1"@);
        lemma_apply_push(l0, done, r);
        done = done.push(r);
        assert(done =~= splitter_records(*p, *s));
    }
}

/// The view of an executable connection and channel pair.
pub open spec fn ids_view(ids: Result<(String, String), PathError>) -> Result<(Seq<char>, Seq<char>), PathError> {
    match ids {
        Ok(t) => Ok((t.0@, t.1@)),
        Err(e) => Err(e),
    }
}

fn check_required(ctx: &mut CovenantValidationContext, key: &str, field: &str, value: &String)
    requires
        old(ctx).wf(),
    ensures
        final(ctx).wf(),
        final(ctx).same_settings(old(ctx)),
        final(ctx).logs() == apply_record(old(ctx).logs(), required_record(key@, field@, value@)),
{
    let set = !value.as_str().is_empty();
    ctx.check_field(set, key, field, String::from_str("ignored"), String::from_str("required"));
}

fn verify_forwarder(
    ctx: &mut CovenantValidationContext,
    key: &str,
    cfg: &CovenantPartyConfig,
    remote: &str,
    base: &str,
    ids: &Result<(String, String), PathError>,
    rule: ShareRule,
    divisor: u128,
    decimals: u8,
    unit: &str,
)
    requires
        old(ctx).wf(),
        divisor as nat == pow10(decimals as nat),
        divisor <= u128::MAX / 10,
    ensures
        final(ctx).wf(),
        final(ctx).same_settings(old(ctx)),
        final(ctx).logs() == apply_records(old(ctx).logs(), forwarder_records(key@, *cfg, remote@, base@,
            ids_view(*ids),
            rule.total, rule.share, rule.name@, decimals, unit@)),
{
    let ghost l0 = ctx.logs();
    let ghost mut done: Seq<Rec> = Seq::empty();
    let ghost iv = ids_view(*ids);
    let ghost rule_view = (rule.total, rule.share, rule.name@);
    match cfg {
        CovenantPartyConfig::Interchain(f) => {
            check_required(ctx, key, "party_receiver_addr", &f.party_receiver_addr);
            proof { let r = required_record(key@, "party_receiver_addr"@, f.party_receiver_addr@); lemma_apply_push(l0, done, r); done = done.push(r); }
            check_required(ctx, key, "addr", &f.addr);
            proof { let r = required_record(key@, "addr"@, f.addr@); lemma_apply_push(l0, done, r); done = done.push(r); }
            check_required(ctx, key, "host_to_party_chain_channel_id", &f.host_to_party_chain_channel_id);
            proof { let r = required_record(key@, "host_to_party_chain_channel_id"@, f.host_to_party_chain_channel_id@); lemma_apply_push(l0, done, r); done = done.push(r); }
            check_required(ctx, key, "native_denom", &f.native_denom);
            proof { let r = required_record(key@, "native_denom"@, f.native_denom@); lemma_apply_push(l0, done, r); done = done.push(r); }
            verify_equals(ctx, key, "remote_chain_denom", "denom", remote, f.remote_chain_denom.as_str());
            proof { let r = equals_record(key@, "remote_chain_denom"@, "denom"@, remote@, f.remote_chain_denom@); lemma_apply_push(l0, done, r); done = done.push(r); }
            match ids {
                Ok((conn, chan)) => {
                    verify_equals(ctx, key, "party_chain_connection_id", "connection id", conn.as_str(), f.party_chain_connection_id.as_str());
                    proof { let r = equals_record(key@, "party_chain_connection_id"@, "connection id"@, conn@, f.party_chain_connection_id@); lemma_apply_push(l0, done, r); done = done.push(r); }
                    verify_equals(ctx, key, "party_to_host_chain_channel_id", "channel id", chan.as_str(), f.party_to_host_chain_channel_id.as_str());
                    proof { let r = equals_record(key@, "party_to_host_chain_channel_id"@, "channel id"@, chan@, f.party_to_host_chain_channel_id@); lemma_apply_push(l0, done, r); done = done.push(r); }
                },
                Err(e) => {
                    ctx.invalid(key, crate::party::path_error_message(*e));
                    proof { let r = fail_key(key@, path_error_text(*e)); lemma_apply_push(l0, done, r); done = done.push(r); }
                },
            }
            check_amount(ctx, key, &f.contribution, base, rule, divisor, decimals, unit);
            proof {
                let r = amount_record(key@, f.contribution, base@, rule_view, decimals, unit@);
                lemma_apply_push(l0, done, r);
                done = done.push(r);
                assert(done =~= forwarder_records(key@, *cfg, remote@, base@, iv, rule_view.0, rule_view.1, rule_view.2, decimals, unit@));
            }
        },
        CovenantPartyConfig::Native(_) => {
            ctx.invalid(key, String::from_str("Invalid covenant party config: should be an Interchain party config."));
            proof {
                let r = fail_key(key@, "Invalid covenant party config: should be an Interchain party config."@);
                lemma_apply_push(l0, done, r);
                done = done.push(r);
                assert(done =~= forwarder_records(key@, *cfg, remote@, base@, iv, rule_view.0, rule_view.1, rule_view.2, decimals, unit@));
            }
        },
    }
}

impl SinglePartyPolCovenantInstMsg {
    pub fn new(inner: SinglePartyInstantiateMsg) -> (r: Self)
        ensures
            r.0 == inner,
    {
        SinglePartyPolCovenantInstMsg(inner)
    }

    /// Runs every single-party check, in order, writing each outcome into
    /// `ctx`; no failed check stops the later ones. Where the data of
    /// another system cannot be used, the run stops with that error before
    /// anything is recorded.
    pub fn validate(&self, ctx: &mut CovenantValidationContext, obs: &SinglePartyObservations) -> (r: Result<(), FatalError>)
        requires
            old(ctx).wf(),
        ensures
            final(ctx).wf(),
            final(ctx).same_settings(old(ctx)),
            validate_outcome(self.0, *obs, *old(ctx), *final(ctx), r),
    {
        let msg = &self.0;
        let p = &msg.covenant_party_config;
        let sp = &msg.remote_chain_splitter_config;
        // Everything that can stop the run is settled before anything is recorded.
        let manifest = match &obs.code_ids {
            Ok(m) => m,
            Err(_) => {
                return Err(FatalError::ManifestUnavailable);
            },
        };
        let path = match &obs.party.path {
            Some(x) => x,
            None => {
                return Err(FatalError::PathUnresolved);
            },
        };
        let divisor = match decimals_divisor(obs.party.chain.decimals) {
            Some(x) => x,
            None => {
                return Err(FatalError::ArithmeticOverflow);
            },
        };
        match &msg.liquid_pooler_config {
            LiquidPoolerConfig::Astroport(_) => match check_pool_data(&obs.pair_info, &obs.pool_info, &msg.pool_price_config) {
                Err(e) => {
                    return Err(e);
                },
                Ok(_) => {},
            },
            LiquidPoolerConfig::Osmosis => {},
        }
        let ghost l0 = ctx.logs();
        let ghost flag = ctx.spec_party_a_channel_uses_wasm_port();
        let ghost pct = ctx.spec_single_side_lp_limit_pct();
        let provider = ctx.ls_provider();
        let ghost mut done: Seq<Rec> = Seq::empty();

        let has_label = !msg.label.as_str().is_empty();
        ctx.check_field(has_label, COVENANT_KEY, "label", String::from_str("valid"), String::from_str("required"));
        proof { lemma_apply_push(l0, done, label_record(msg.label@)); done = done.push(label_record(msg.label@)); }

        let expected = single_party_code_expectations(&msg.contract_codes);
        verify_code_ids(ctx, manifest, &expected);
        proof {
            let part = code_ids_records(manifest@, expected@);
            assert(part =~= single_party_code_records(*msg, *obs));
            lemma_apply_concat(l0, done, part);
            done = done + part;
        }

        let uses_wasm = ctx.party_a_channel_uses_wasm_port();
        verify_covenant_party(ctx, p, &obs.party, path, divisor, uses_wasm);
        proof {
            let part = covenant_party_records(*p, obs.party, flag);
            lemma_apply_concat(l0, done, part);
            done = done + part;
        }

        verify_ls_info(ctx, &msg.ls_info, &obs.ls_path, &obs.ls_chain_assets);
        proof {
            let part = ls_info_records(msg.ls_info, obs.ls_path, obs.ls_chain_assets@);
            lemma_apply_concat(l0, done, part);
            done = done + part;
        }

        verify_splitter(ctx, p, sp);
        proof {
            let part = splitter_records(*p, *sp);
            lemma_apply_concat(l0, done, part);
            done = done + part;
        }

        let lp_ids: Result<(String, String), PathError> =
            Ok((p.party_chain_connection_id.clone(), p.party_to_host_chain_channel_id.clone()));
        let lp_rule = ShareRule { total: p.contribution.amount, share: sp.native_share, name: "native_share" };
        verify_forwarder(ctx, LP_FORWARDER_KEY, &msg.lp_forwarder_config, p.remote_chain_denom.as_str(),
            obs.party.chain.denom.as_str(), &lp_ids, lp_rule, divisor, obs.party.chain.decimals,
            obs.party.chain.display.as_str());
        proof {
            let part = forwarder_records(LP_FORWARDER_KEY@, msg.lp_forwarder_config, p.remote_chain_denom@,
                obs.party.chain.denom@, Ok((p.party_chain_connection_id@, p.party_to_host_chain_channel_id@)),
                p.contribution.amount, sp.native_share, "native_share"@, obs.party.chain.decimals, obs.party.chain.display@);
            lemma_apply_concat(l0, done, part);
            done = done + part;
        }

        let ls_ids: Result<(String, String), PathError> = match resolve_path_channels(&obs.party_ls_path, ls_chain(provider), false) {
            Ok((conn, _stride_channel, party_channel)) => Ok((conn, party_channel)),
            Err(e) => Err(e),
        };
        assert(ids_view(ls_ids) == ls_forwarder_ids(*obs, provider));
        let ls_rule = ShareRule { total: p.contribution.amount, share: sp.ls_share, name: "ls_share" };
        verify_forwarder(ctx, LS_FORWARDER_KEY, &msg.ls_forwarder_config, p.remote_chain_denom.as_str(),
            obs.party.chain.denom.as_str(), &ls_ids, ls_rule, divisor, obs.party.chain.decimals,
            obs.party.chain.display.as_str());
        proof {
            let part = forwarder_records(LS_FORWARDER_KEY@, msg.ls_forwarder_config, p.remote_chain_denom@,
                obs.party.chain.denom@, ls_forwarder_ids(*obs, provider), p.contribution.amount, sp.ls_share,
                "ls_share"@, obs.party.chain.decimals, obs.party.chain.display@);
            lemma_apply_concat(l0, done, part);
            done = done + part;
        }

        match &msg.liquid_pooler_config {
            LiquidPoolerConfig::Astroport(lp) => {
                let pct_now = ctx.single_side_lp_limit_pct();
                // The pool data were checked above, so this cannot fail.
                let _ = verify_astroport_liquid_pooler_config(
                    ctx,
                    LIQUID_POOLER_CONFIG_KEY,
                    p.native_denom.as_str(),
                    msg.lp_forwarder_config.contribution_amount(),
                    msg.ls_info.ls_denom_on_neutron.as_str(),
                    msg.ls_forwarder_config.contribution_amount(),
                    lp,
                    &msg.pool_price_config,
                    pct_now,
                    &obs.pair_info,
                    &obs.pool_info,
                );
            },
            LiquidPoolerConfig::Osmosis => {
                let ghost lb = ctx.logs();
                ctx.invalid(LIQUID_POOLER_CONFIG_KEY, String::from_str("Osmosis liquid pooler config: validation logic not yet implemented."));
                ctx.invalid(POOL_PRICE_CONFIG_KEY, String::from_str("Osmosis pool price config: validation logic not yet implemented."));
                proof {
                    let q = single_pooler_records(*msg, *obs, pct);
                    lemma_apply_push(lb, Seq::empty(), q[0]);
                    lemma_apply_push(lb, seq![q[0]], q[1]);
                    assert(Seq::<Rec>::empty().push(q[0]) =~= seq![q[0]]);
                    assert(seq![q[0]].push(q[1]) =~= q);
                }
            },
        }
        proof {
            let part = single_pooler_records(*msg, *obs, pct);
            lemma_apply_concat(l0, done, part);
            done = done + part;
            assert(done =~= single_party_records(*msg, *obs, flag, pct, provider));
        }
        Ok(())
    }
}

/// What `validate` promises of a run from `before` to `after` with result
/// `r`: where the data cannot be used, that error and an unchanged report;
/// otherwise success and exactly the single-party records.
pub open spec fn validate_outcome(
    m: SinglePartyInstantiateMsg,
    o: SinglePartyObservations,
    before: CovenantValidationContext,
    after: CovenantValidationContext,
    r: Result<(), FatalError>,
) -> bool {
    match single_party_fatal(m, o) {
        Some(e) => r == Err::<(), FatalError>(e) && after.logs() == before.logs(),
        None => r == Ok::<(), FatalError>(()) && after.logs() == apply_records(
            before.logs(),
            single_party_records(m, o, before.spec_party_a_channel_uses_wasm_port(),
                before.spec_single_side_lp_limit_pct(), before.spec_ls_provider()),
        ),
    }
}

/// Checking the same message against the same data from the same report
/// gives the same outcome and the same report, record for record and in the
/// same order, whether the run completes or stops.
pub proof fn lemma_single_party_validation_deterministic(
    m: SinglePartyInstantiateMsg,
    o: SinglePartyObservations,
    c1: CovenantValidationContext,
    c2: CovenantValidationContext,
    after1: CovenantValidationContext,
    after2: CovenantValidationContext,
    r1: Result<(), FatalError>,
    r2: Result<(), FatalError>,
)
    requires
        c1.logs() == c2.logs(),
        c1.same_settings(&c2),
        validate_outcome(m, o, c1, after1, r1),
        validate_outcome(m, o, c2, after2, r2),
    ensures
        r1 == r2,
        after1.logs() == after2.logs(),
{
}

} // verus!

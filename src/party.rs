//! The configuration of one covenant party, and its check against the
//! chain registries and the IBC path between the party's chain and Neutron.
use vstd::prelude::*;

use crate::address::{address_result, validate_party_address};
use crate::assets::{
    find_asset, find_asset_spec, transfer_base_denom, transfer_base_denom_of, AssetInfo,
    ChainDenomInfo,
};
use crate::astroport::FatalError;
use crate::denom::{derive_voucher_denom, voucher_denom_spec};
use crate::numeric::{decimals_divisor, pow10, ratio_text, ratio_text_spec};
use crate::path::{get_path_connection_and_channels, resolve_spec, resolved_view, IBCPath, PathError, NEUTRON_CHAIN_NAME};
use crate::report::{
    apply_record, apply_records, fail_field, fail_key, lemma_apply_push, outcome_record, pass_field,
    CovenantValidationContext, Rec,
};
use crate::text::{concat, concat3, starts_with, str_eq};

verus! {

/// An amount of one denom.
#[derive(Clone, Debug, PartialEq, Eq)]
pub struct Coin {
    pub denom: String,
    pub amount: u128,
}

/// A party whose funds are already on Neutron.
#[derive(Clone, Debug, PartialEq, Eq)]
pub struct NativeCovenantParty {
    pub party_receiver_addr: String,
    pub native_denom: String,
    pub addr: String,
    pub contribution: Coin,
}

/// A party whose funds come over IBC from its own chain.
#[derive(Clone, Debug, PartialEq, Eq)]
pub struct InterchainCovenantParty {
    pub party_receiver_addr: String,
    pub party_chain_connection_id: String,
    pub party_to_host_chain_channel_id: String,
    pub host_to_party_chain_channel_id: String,
    pub remote_chain_denom: String,
    pub addr: String,
    pub native_denom: String,
    pub contribution: Coin,
}

/// How one party takes part.
#[derive(Clone, Debug, PartialEq, Eq)]
pub enum CovenantPartyConfig {
    Native(NativeCovenantParty),
    Interchain(InterchainCovenantParty),
}

impl CovenantPartyConfig {
    /// The denom that the party's funds have on Neutron.
    pub fn native_denom(&self) -> (r: String)
        ensures
            r@ == party_native_denom(*self),
    {
        match self {
            CovenantPartyConfig::Native(p) => p.native_denom.clone(),
            CovenantPartyConfig::Interchain(p) => p.native_denom.clone(),
        }
    }

    /// The address that finally receives the party's share.
    pub fn final_receiver_address(&self) -> (r: String)
        ensures
            r@ == party_receiver(*self),
    {
        match self {
            CovenantPartyConfig::Native(p) => p.party_receiver_addr.clone(),
            CovenantPartyConfig::Interchain(p) => p.party_receiver_addr.clone(),
        }
    }

    /// The amount that the party contributes.
    pub fn contribution_amount(&self) -> (r: u128)
        ensures
            r == party_contribution(*self),
    {
        match self {
            CovenantPartyConfig::Native(p) => p.contribution.amount,
            CovenantPartyConfig::Interchain(p) => p.contribution.amount,
        }
    }
}

/// The party's denom on Neutron.
pub open spec fn party_native_denom(c: CovenantPartyConfig) -> Seq<char> {
    match c {
        CovenantPartyConfig::Native(p) => p.native_denom@,
        CovenantPartyConfig::Interchain(p) => p.native_denom@,
    }
}

/// The party's final receiver.
pub open spec fn party_receiver(c: CovenantPartyConfig) -> Seq<char> {
    match c {
        CovenantPartyConfig::Native(p) => p.party_receiver_addr@,
        CovenantPartyConfig::Interchain(p) => p.party_receiver_addr@,
    }
}

/// The party's contribution amount.
pub open spec fn party_contribution(c: CovenantPartyConfig) -> u128 {
    match c {
        CovenantPartyConfig::Native(p) => p.contribution.amount,
        CovenantPartyConfig::Interchain(p) => p.contribution.amount,
    }
}

/// What other systems say about one party's chain.
#[derive(Clone, Debug)]
pub struct PartyChainData {
    /// The chain's own token.
    pub chain: ChainDenomInfo,
    /// The chain's asset registry.
    pub assets: Vec<AssetInfo>,
    /// The registry's path between the chain and Neutron, where there is one.
    pub path: Option<IBCPath>,
}

/// The text of a mismatch: `invalid <what>: expected <e> | actual <a>`.
pub open spec fn mismatch_text(what: Seq<char>, expected: Seq<char>, actual: Seq<char>) -> Seq<char> {
    "invalid "@ + what + ": expected "@ + expected + " | actual "@ + actual
}

/// Builds the text of a mismatch.
pub fn mismatch_message(what: &str, expected: &str, actual: &str) -> (r: String)
    ensures
        r@ == mismatch_text(what@, expected@, actual@),
{
    let mut s = concat3("invalid ", what, ": expected ");
    s.append(expected);
    s.append(" | actual ");
    s.append(actual);
    s
}

/// The record of an equality check of one field.
pub open spec fn equals_record(key: Seq<char>, field: Seq<char>, what: Seq<char>, expected: Seq<char>, actual: Seq<char>) -> Rec {
    outcome_record(expected == actual, key, field, "verified"@, mismatch_text(what, expected, actual))
}

/// Records whether a configured value equals the expected one.
pub fn verify_equals(ctx: &mut CovenantValidationContext, key: &str, field: &str, what: &str, expected: &str, actual: &str)
    requires
        old(ctx).wf(),
    ensures
        final(ctx).wf(),
        final(ctx).same_settings(old(ctx)),
        final(ctx).logs() == apply_record(old(ctx).logs(), equals_record(key@, field@, what@, expected@, actual@)),
{
    let ok = str_eq(expected, actual);
    ctx.check_field(ok, key, field, String::from_str("verified"), mismatch_message(what, expected, actual));
}

/// The text of a contribution: the amount in whole units, to two places,
/// and the unit's name.
pub open spec fn amount_text(amount: u128, decimals: u8, unit: Seq<char>) -> Seq<char> {
    ratio_text_spec(amount as nat, pow10(decimals as nat), 2) + " "@ + unit
}

/// How a denom was resolved: the record of its check, the base denom that
/// transfers carry and the decimals of the asset.
pub type Resolution = (Rec, Seq<char>, u8);

/// Resolution of a native party's denom: the chain's own token, or an IBC
/// voucher that Neutron's registry knows.
pub open spec fn native_resolution(key: Seq<char>, native: Seq<char>, chain: ChainDenomInfo, neutron_assets: Seq<AssetInfo>) -> Resolution {
    let field = "native_denom"@;
    if native == chain.denom@ {
        (pass_field(key, field, "verified"@), chain.denom@, chain.decimals)
    } else if "ibc/"@.len() <= native.len() && native.subrange(0, 4) == "ibc/"@ {
        match find_asset_spec(neutron_assets, native) {
            Some(i) => {
                let a = neutron_assets[i];
                (equals_record(key, field, "denom"@, a.base@, native), transfer_base_denom(a), a.decimals)
            },
            None => (fail_field(key, field, "unknown denom"@), chain.denom@, chain.decimals),
        }
    } else {
        (fail_field(key, field, "unknown denom"@), chain.denom@, chain.decimals)
    }
}

/// Resolution of an interchain party's denom on its own chain: the chain's
/// own token, an asset of the chain's registry, or a micro denom (`u`
/// followed by an asset's denom or display name).
pub open spec fn remote_resolution(key: Seq<char>, remote: Seq<char>, chain: ChainDenomInfo, assets: Seq<AssetInfo>) -> Resolution {
    let field = "remote_chain_denom"@;
    if remote == chain.denom@ {
        (pass_field(key, field, "verified"@), chain.denom@, chain.decimals)
    } else {
        match find_asset_spec(assets, remote) {
            Some(i) => {
                let a = assets[i];
                (equals_record(key, field, "denom"@, a.denom@, remote), a.base@, a.decimals)
            },
            None => {
                let name = remote.drop_first();
                if remote.len() > 0 && remote[0] == 'u' && find_asset_spec(assets, name) is Some
                    && (name == assets[find_asset_spec(assets, name)->0].denom@
                        || name == assets[find_asset_spec(assets, name)->0].display@) {
                    let a = assets[find_asset_spec(assets, name)->0];
                    (pass_field(key, field, "verified (with denom '"@ + name + "')"@), a.base@, a.decimals)
                } else {
                    (fail_field(key, field, "unknown denom"@), chain.denom@, chain.decimals)
                }
            },
        }
    }
}

/// The text of a path that could not be resolved.
pub open spec fn path_error_text(e: PathError) -> Seq<char> {
    match e {
        PathError::HubNotInPath => "neutron is on neither side of the path"@,
        PathError::ChannelNotFound => "channel not found"@,
        PathError::AmbiguousChannels => "more than one channel qualifies"@,
    }
}

pub(crate) fn path_error_message(e: PathError) -> (r: String)
    ensures
        r@ == path_error_text(e),
{
    match e {
        PathError::HubNotInPath => String::from_str("neutron is on neither side of the path"),
        PathError::ChannelNotFound => String::from_str("channel not found"),
        PathError::AmbiguousChannels => String::from_str("more than one channel qualifies"),
    }
}

/// The outcome of a denom check, with what it resolved.
pub struct DenomCheck {
    pub ok: bool,
    pub pass_message: String,
    pub fail_message: String,
    pub base: String,
    pub decimals: u8,
}

impl DenomCheck {
    /// The resolution that this outcome stands for.
    pub open spec fn resolution(&self, key: Seq<char>, field: Seq<char>) -> Resolution {
        (outcome_record(self.ok, key, field, self.pass_message@, self.fail_message@), self.base@, self.decimals)
    }
}

/// Resolves a native party's denom.
pub fn resolve_native_denom(key: &str, native: &str, chain: &ChainDenomInfo, neutron_assets: &Vec<AssetInfo>) -> (r: DenomCheck)
    ensures
        r.resolution(key@, "native_denom"@) == native_resolution(key@, native@, *chain, neutron_assets@),
{
    proof {
        reveal_strlit("ibc/");
    }
    if str_eq(native, chain.denom.as_str()) {
        return DenomCheck {
            ok: true,
            pass_message: String::from_str("verified"),
            fail_message: String::new(),
            base: chain.denom.clone(),
            decimals: chain.decimals,
        };
    }
    if starts_with(native, "ibc/") {
        match find_asset(neutron_assets, native) {
            Some(i) => {
                let a = &neutron_assets[i];
                return DenomCheck {
                    ok: str_eq(a.base.as_str(), native),
                    pass_message: String::from_str("verified"),
                    fail_message: mismatch_message("denom", a.base.as_str(), native),
                    base: transfer_base_denom_of(a),
                    decimals: a.decimals,
                };
            },
            None => {},
        }
    }
    DenomCheck {
        ok: false,
        pass_message: String::new(),
        fail_message: String::from_str("unknown denom"),
        base: chain.denom.clone(),
        decimals: chain.decimals,
    }
}

/// Resolves an interchain party's denom on its own chain.
pub fn resolve_remote_denom(key: &str, remote: &str, chain: &ChainDenomInfo, assets: &Vec<AssetInfo>) -> (r: DenomCheck)
    ensures
        r.resolution(key@, "remote_chain_denom"@) == remote_resolution(key@, remote@, *chain, assets@),
{
    if str_eq(remote, chain.denom.as_str()) {
        return DenomCheck {
            ok: true,
            pass_message: String::from_str("verified"),
            fail_message: String::new(),
            base: chain.denom.clone(),
            decimals: chain.decimals,
        };
    }
    match find_asset(assets, remote) {
        Some(i) => {
            let a = &assets[i];
            return DenomCheck {
                ok: str_eq(a.denom.as_str(), remote),
                pass_message: String::from_str("verified"),
                fail_message: mismatch_message("denom", a.denom.as_str(), remote),
                base: a.base.clone(),
                decimals: a.decimals,
            };
        },
        None => {},
    }
    let n = remote.unicode_len();
    if n > 0 && remote.get_char(0) == 'u' {
        let name = remote.substring_char(1, n);
        assert(name@ =~= remote@.drop_first());
        match find_asset(assets, name) {
            Some(i) => {
                let a = &assets[i];
                if str_eq(name, a.denom.as_str()) || str_eq(name, a.display.as_str()) {
                    let mut msg = concat("verified (with denom '", name);
                    msg.append("')");
                    return DenomCheck {
                        ok: true,
                        pass_message: msg,
                        fail_message: String::new(),
                        base: a.base.clone(),
                        decimals: a.decimals,
                    };
                }
            },
            None => {},
        }
    }
    DenomCheck {
        ok: false,
        pass_message: String::new(),
        fail_message: String::from_str("unknown denom"),
        base: chain.denom.clone(),
        decimals: chain.decimals,
    }
}

/// The record of an address check.
pub open spec fn address_record(key: Seq<char>, field: Seq<char>, address: Seq<char>) -> Rec {
    outcome_record(address_result(address) is Ok, key, field, "valid Bech32 address"@, "Invalid Bech32 address"@)
}

/// The record of a contribution check: its denom must be the resolved
/// base denom, and its amount is reported in whole units of `unit`.
pub open spec fn contribution_record(key: Seq<char>, c: Coin, base: Seq<char>, decimals: u8, unit: Seq<char>) -> Rec {
    if c.denom@ != base {
        fail_field(key, "contribution"@, mismatch_text("denom"@, base, c.denom@))
    } else {
        pass_field(key, "contribution"@, amount_text(c.amount, decimals, unit))
    }
}

/// The records of the path checks: the connection and the two channels, or
/// why they could not be resolved.
pub open spec fn path_records(key: Seq<char>, p: InterchainCovenantParty, res: Result<(Seq<char>, Seq<char>, Seq<char>), PathError>) -> Seq<Rec> {
    match res {
        Ok(t) => seq![
            equals_record(key, "party_chain_connection_id"@, "connection id"@, t.0, p.party_chain_connection_id@),
            equals_record(key, "host_to_party_chain_channel_id"@, "channel id"@, t.1, p.host_to_party_chain_channel_id@),
            equals_record(key, "party_to_host_chain_channel_id"@, "channel id"@, t.2, p.party_to_host_chain_channel_id@),
        ],
        Err(e) => seq![fail_key(key, path_error_text(e))],
    }
}

/// Why a party check cannot be made at all.
pub open spec fn party_fatal(cfg: CovenantPartyConfig, data: PartyChainData, neutron_assets: Seq<AssetInfo>) -> Option<FatalError> {
    match cfg {
        CovenantPartyConfig::Native(p) => {
            let r = native_resolution(Seq::empty(), p.native_denom@, data.chain, neutron_assets);
            if pow10(r.2 as nat) > u128::MAX / 10 { Some(FatalError::ArithmeticOverflow) } else { None }
        },
        CovenantPartyConfig::Interchain(p) => {
            if data.path is None {
                Some(FatalError::PathUnresolved)
            } else {
                let r = remote_resolution(Seq::empty(), p.remote_chain_denom@, data.chain, data.assets@);
                if pow10(r.2 as nat) > u128::MAX / 10 { Some(FatalError::ArithmeticOverflow) } else { None }
            }
        },
    }
}

/// The records that a party check writes.
pub open spec fn party_records(key: Seq<char>, cfg: CovenantPartyConfig, data: PartyChainData, neutron_assets: Seq<AssetInfo>, uses_contract_port: bool) -> Seq<Rec> {
    match cfg {
        CovenantPartyConfig::Native(p) => {
            let r = native_resolution(key, p.native_denom@, data.chain, neutron_assets);
            seq![
                r.0,
                contribution_record(key, p.contribution, r.1, r.2, data.chain.display@),
                address_record(key, "party_receiver_addr"@, p.party_receiver_addr@),
                address_record(key, "addr"@, p.addr@),
            ]
        },
        CovenantPartyConfig::Interchain(p) => {
            let res = resolve_spec(data.path->0, NEUTRON_CHAIN_NAME@, uses_contract_port);
            let r = remote_resolution(key, p.remote_chain_denom@, data.chain, data.assets@);
            path_records(key, p, res) + seq![
                r.0,
                equals_record(key, "native_denom"@, "denom"@, voucher_denom_spec(p.host_to_party_chain_channel_id@, r.1), p.native_denom@),
                contribution_record(key, p.contribution, r.1, r.2, r.1),
                address_record(key, "party_receiver_addr"@, p.party_receiver_addr@),
                address_record(key, "addr"@, p.addr@),
            ]
        },
    }
}

/// The decimals that a resolution finds do not depend on the report key.
proof fn lemma_resolution_decimals(key: Seq<char>, native: Seq<char>, remote: Seq<char>, chain: ChainDenomInfo, assets: Seq<AssetInfo>, neutron_assets: Seq<AssetInfo>)
    ensures
        native_resolution(key, native, chain, neutron_assets).2 == native_resolution(Seq::empty(), native, chain, neutron_assets).2,
        remote_resolution(key, remote, chain, assets).2 == remote_resolution(Seq::empty(), remote, chain, assets).2,
{
}

pub(crate) fn check_contribution(
    ctx: &mut CovenantValidationContext,
    key: &str,
    c: &Coin,
    base: &str,
    divisor: u128,
    decimals: u8,
    unit: &str,
)
    requires
        old(ctx).wf(),
        divisor as nat == pow10(decimals as nat),
        divisor <= u128::MAX / 10,
    ensures
        final(ctx).wf(),
        final(ctx).same_settings(old(ctx)),
        final(ctx).logs() == apply_record(old(ctx).logs(), contribution_record(key@, *c, base@, decimals, unit@)),
{
    if !str_eq(c.denom.as_str(), base) {
        ctx.invalid_field(key, "contribution", mismatch_message("denom", base, c.denom.as_str()));
    } else {
        proof { crate::numeric::lemma_pow10_positive(decimals as nat); }
        let amount = ratio_text(c.amount, divisor, 2);
        ctx.valid_field(key, "contribution", concat3(amount.as_str(), " ", unit));
    }
}

fn check_address(ctx: &mut CovenantValidationContext, key: &str, field: &str, address: &str)
    requires
        old(ctx).wf(),
    ensures
        final(ctx).wf(),
        final(ctx).same_settings(old(ctx)),
        final(ctx).logs() == apply_record(old(ctx).logs(), address_record(key@, field@, address@)),
{
    validate_party_address(ctx, key, field, address);
}

/// Whether a party's data can be used, without recording anything.
pub fn check_party_data(cfg: &CovenantPartyConfig, data: &PartyChainData, neutron_assets: &Vec<AssetInfo>) -> (r: Option<FatalError>)
    ensures
        r == party_fatal(*cfg, *data, neutron_assets@),
{
    proof {
        reveal_strlit("");
        assert(""@ =~= Seq::<char>::empty());
    }
    let decimals = match cfg {
        CovenantPartyConfig::Native(p) => resolve_native_denom("", p.native_denom.as_str(), &data.chain, neutron_assets).decimals,
        CovenantPartyConfig::Interchain(p) => {
            if data.path.is_none() {
                return Some(FatalError::PathUnresolved);
            }
            resolve_remote_denom("", p.remote_chain_denom.as_str(), &data.chain, &data.assets).decimals
        },
    };
    match decimals_divisor(decimals) {
        Some(_) => None,
        None => Some(FatalError::ArithmeticOverflow),
    }
}

/// Checks one party's configuration: its denom against the chain
/// registries, its connection and channels against the IBC path (for an
/// interchain party), its voucher denom on Neutron, its contribution and
/// its addresses. Where the check cannot be made, nothing is recorded and
/// the run stops.
pub fn verify_party_config(
    ctx: &mut CovenantValidationContext,
    key: &str,
    party_config: &CovenantPartyConfig,
    data: &PartyChainData,
    neutron_assets: &Vec<AssetInfo>,
    party_channel_uses_wasm_port: bool,
) -> (r: Result<(), FatalError>)
    requires
        old(ctx).wf(),
    ensures
        final(ctx).wf(),
        final(ctx).same_settings(old(ctx)),
        match party_fatal(*party_config, *data, neutron_assets@) {
            Some(e) => r == Err::<(), FatalError>(e) && final(ctx).logs() == old(ctx).logs(),
            None => r is Ok && final(ctx).logs() == apply_records(
                old(ctx).logs(),
                party_records(key@, *party_config, *data, neutron_assets@, party_channel_uses_wasm_port),
            ),
        },
{
    let ghost l0 = ctx.logs();
    match party_config {
        CovenantPartyConfig::Native(p) => {
            let d = resolve_native_denom(key, p.native_denom.as_str(), &data.chain, neutron_assets);
            proof { lemma_resolution_decimals(key@, p.native_denom@, Seq::empty(), data.chain, data.assets@, neutron_assets@); }
            let divisor = match decimals_divisor(d.decimals) {
                Some(x) => x,
                None => {
                    return Err(FatalError::ArithmeticOverflow);
                },
            };
            let ghost recs = party_records(key@, *party_config, *data, neutron_assets@, party_channel_uses_wasm_port);
            ctx.check_field(d.ok, key, "native_denom", d.pass_message, d.fail_message);
            proof { lemma_apply_push(l0, Seq::empty(), recs[0]); assert(Seq::<Rec>::empty().push(recs[0]) =~= recs.subrange(0, 1)); }
            check_contribution(ctx, key, &p.contribution, d.base.as_str(), divisor, d.decimals, data.chain.display.as_str());
            proof { lemma_apply_push(l0, recs.subrange(0, 1), recs[1]); assert(recs.subrange(0, 1).push(recs[1]) =~= recs.subrange(0, 2)); }
            check_address(ctx, key, "party_receiver_addr", p.party_receiver_addr.as_str());
            proof { lemma_apply_push(l0, recs.subrange(0, 2), recs[2]); assert(recs.subrange(0, 2).push(recs[2]) =~= recs.subrange(0, 3)); }
            check_address(ctx, key, "addr", p.addr.as_str());
            proof { lemma_apply_push(l0, recs.subrange(0, 3), recs[3]); assert(recs.subrange(0, 3).push(recs[3]) =~= recs); }
            Ok(())
        },
        CovenantPartyConfig::Interchain(p) => {
            let path = match &data.path {
                Some(x) => x,
                None => {
                    return Err(FatalError::PathUnresolved);
                },
            };
            let d = resolve_remote_denom(key, p.remote_chain_denom.as_str(), &data.chain, &data.assets);
            proof { lemma_resolution_decimals(key@, Seq::empty(), p.remote_chain_denom@, data.chain, data.assets@, neutron_assets@); }
            let divisor = match decimals_divisor(d.decimals) {
                Some(x) => x,
                None => {
                    return Err(FatalError::ArithmeticOverflow);
                },
            };
            let ghost recs = party_records(key@, *party_config, *data, neutron_assets@, party_channel_uses_wasm_port);
            let resolved = get_path_connection_and_channels(path, party_channel_uses_wasm_port);
            let ghost head = path_records(key@, *p, resolved_view(resolved));
            let ghost tail = recs.subrange(head.len() as int, recs.len() as int);
            assert(recs =~= head + tail);
            match resolved {
                Ok((conn, h2p, p2h)) => {
                    verify_equals(ctx, key, "party_chain_connection_id", "connection id", conn.as_str(), p.party_chain_connection_id.as_str());
                    proof { lemma_apply_push(l0, Seq::empty(), head[0]); assert(Seq::<Rec>::empty().push(head[0]) =~= head.subrange(0, 1)); }
                    verify_equals(ctx, key, "host_to_party_chain_channel_id", "channel id", h2p.as_str(), p.host_to_party_chain_channel_id.as_str());
                    proof { lemma_apply_push(l0, head.subrange(0, 1), head[1]); assert(head.subrange(0, 1).push(head[1]) =~= head.subrange(0, 2)); }
                    verify_equals(ctx, key, "party_to_host_chain_channel_id", "channel id", p2h.as_str(), p.party_to_host_chain_channel_id.as_str());
                    proof { lemma_apply_push(l0, head.subrange(0, 2), head[2]); assert(head.subrange(0, 2).push(head[2]) =~= head); }
                },
                Err(e) => {
                    ctx.invalid(key, path_error_message(e));
                    proof { lemma_apply_push(l0, Seq::empty(), head[0]); assert(Seq::<Rec>::empty().push(head[0]) =~= head); }
                },
            }
            let ghost l1 = ctx.logs();
            ctx.check_field(d.ok, key, "remote_chain_denom", d.pass_message, d.fail_message);
            proof { lemma_apply_push(l1, Seq::empty(), tail[0]); assert(Seq::<Rec>::empty().push(tail[0]) =~= tail.subrange(0, 1)); }
            let expected_native = derive_voucher_denom(p.host_to_party_chain_channel_id.as_str(), d.base.as_str());
            verify_equals(ctx, key, "native_denom", "denom", expected_native.as_str(), p.native_denom.as_str());
            proof { lemma_apply_push(l1, tail.subrange(0, 1), tail[1]); assert(tail.subrange(0, 1).push(tail[1]) =~= tail.subrange(0, 2)); }
            check_contribution(ctx, key, &p.contribution, d.base.as_str(), divisor, d.decimals, d.base.as_str());
            proof { lemma_apply_push(l1, tail.subrange(0, 2), tail[2]); assert(tail.subrange(0, 2).push(tail[2]) =~= tail.subrange(0, 3)); }
            check_address(ctx, key, "party_receiver_addr", p.party_receiver_addr.as_str());
            proof { lemma_apply_push(l1, tail.subrange(0, 3), tail[3]); assert(tail.subrange(0, 3).push(tail[3]) =~= tail.subrange(0, 4)); }
            check_address(ctx, key, "addr", p.addr.as_str());
            proof {
                lemma_apply_push(l1, tail.subrange(0, 4), tail[4]);
                assert(tail.subrange(0, 4).push(tail[4]) =~= tail);
                crate::report::lemma_apply_concat(l0, head, tail);
            }
            Ok(())
        },
    }
}

} // verus!

//! Astroport pools, and the check of a liquid pooler's configuration
//! against the pool's live pair and reserve data.
use vstd::prelude::*;

use crate::numeric::{
    price_within_band, price_within_band_spec, ratio_text, ratio_text_spec, rounded_div, rounded_quotient,
    single_side_lp_limit,
    expected_single_side_limit, FIXED_ONE,
};
use crate::report::{
    apply_record, apply_records, lemma_apply_push, outcome_record, pass_field, CovenantValidationContext, Rec,
};
use crate::text::{concat, concat3, digits_of, parse_u128, parse_u128_spec, str_eq, u128_text};

verus! {

/// A native token's denom and decimals.
#[derive(Clone, Debug, PartialEq, Eq, Default)]
pub struct NativeTokentInfo {
    pub denom: String,
    pub decimals: u8,
}

/// What a pair contract reports about itself.
#[derive(Clone, Debug, PartialEq, Eq, Default)]
pub struct PairInfo {
    pub contract_addr: String,
    pub liquidity_token: String,
    pub pair_type: PairType,
    pub asset_infos: Vec<AssetInfo>,
}

/// What a pair contract reports about its reserves.
#[derive(Clone, Debug, PartialEq, Eq, Default)]
pub struct PoolInfo {
    pub assets: Vec<PoolAssetInfo>,
    pub total_share: String,
}

/// The kind of a pair, as the pair contract reports it: one of the three
/// is set.
#[derive(Clone, Debug, PartialEq, Eq, Default)]
pub struct PairType {
    pub xyk: Option<XykPair>,
    pub stable: Option<StablePair>,
    pub custom: Option<CustomPair>,
}

/// A constant-product pair.
#[derive(Clone, Debug, PartialEq, Eq, Default)]
pub struct XykPair {}

/// A stable-swap pair.
#[derive(Clone, Debug, PartialEq, Eq, Default)]
pub struct StablePair {}

/// A pair of a named custom kind.
#[derive(Clone, Debug, PartialEq, Eq, Default)]
pub struct CustomPair(pub String);

/// One reserve of a pool: its amount in atomic units, as text, and its asset.
#[derive(Clone, Debug, PartialEq, Eq, Default)]
pub struct PoolAssetInfo {
    pub amount: String,
    pub info: AssetInfo,
}

/// An asset of a pair: a contract token or a native token.
#[derive(Clone, Debug, PartialEq, Eq, Default)]
pub struct AssetInfo {
    pub token: Option<Token>,
    pub native_token: Option<NativeToken>,
}

/// A native token, by denom.
#[derive(Clone, Debug, PartialEq, Eq, Default)]
pub struct NativeToken {
    pub denom: String,
}

/// A contract token, by address.
#[derive(Clone, Debug, PartialEq, Eq, Default)]
pub struct Token {
    pub contract_addr: String,
}

/// The kind of pool that a liquid pooler is configured for.
#[derive(Clone, Debug, PartialEq, Eq)]
pub enum PoolPairType {
    Xyk,
    Stable,
    Custom(String),
}

/// How much of each asset may be deposited alone.
#[derive(Clone, Copy, Debug, PartialEq, Eq, Structural)]
pub struct SingleSideLpLimits {
    pub asset_a_limit: u128,
    pub asset_b_limit: u128,
}

/// A liquid pooler's configuration for an Astroport pool.
#[derive(Clone, Debug, PartialEq, Eq)]
pub struct AstroportLiquidPoolerConfig {
    pub pool_pair_type: PoolPairType,
    pub pool_address: String,
    pub asset_a_denom: String,
    pub asset_b_denom: String,
    pub single_side_lp_limits: SingleSideLpLimits,
}

/// The expected spot price and the spread accepted around it, both scaled
/// by 10^18.
#[derive(Clone, Copy, Debug, PartialEq, Eq, Structural)]
pub struct PoolPriceConfig {
    pub expected_spot_price: u128,
    pub acceptable_price_spread: u128,
}

/// What stops a validation run: data from another system that cannot be
/// used, or a value beyond what the checks can compute with.
#[derive(Clone, Copy, Debug, PartialEq, Eq, Structural)]
pub enum FatalError {
    /// The pair lists no assets, or the pool lists no reserves, or a
    /// reserve amount is not a number.
    MalformedPoolData,
    /// A price, spread or decimals count is too large to compute with.
    ArithmeticOverflow,
    /// The path registry has no path for a chain pair.
    PathUnresolved,
    /// The release manifest of code ids could not be had or read.
    ManifestUnavailable,
}

/// The report key of pool price checks.
pub const POOL_PRICE_CONFIG_KEY: &'static str = "pool_price_config";
/// The report key of liquid pooler checks.
pub const LIQUID_POOLER_CONFIG_KEY: &'static str = "liquid_pooler_config";

/// The pair contract's kind is the configured one.
pub open spec fn pair_type_matches(pt: PairType, cfg: PoolPairType) -> bool {
    match (pt.xyk, pt.stable, pt.custom) {
        (Some(_), None, None) => cfg is Xyk,
        (None, Some(_), None) => cfg is Stable,
        (None, None, Some(c)) => match cfg {
            PoolPairType::Custom(x) => x@ == c.0@,
            _ => false,
        },
        _ => false,
    }
}

fn pair_type_matches_exec(pt: &PairType, cfg: &PoolPairType) -> (r: bool)
    ensures
        r == pair_type_matches(*pt, *cfg),
{
    match (&pt.xyk, &pt.stable, &pt.custom) {
        (Some(_), None, None) => match cfg {
            PoolPairType::Xyk => true,
            _ => false,
        },
        (None, Some(_), None) => match cfg {
            PoolPairType::Stable => true,
            _ => false,
        },
        (None, None, Some(c)) => match cfg {
            PoolPairType::Custom(x) => str_eq(x.as_str(), c.0.as_str()),
            _ => false,
        },
        _ => false,
    }
}

/// The native denom of a pair asset; empty for a contract token.
pub open spec fn native_denom_of(a: AssetInfo) -> Seq<char> {
    match a.native_token {
        Some(t) => t.denom@,
        None => Seq::empty(),
    }
}

fn native_denom_of_exec(a: &AssetInfo) -> (r: String)
    ensures
        r@ == native_denom_of(*a),
{
    match &a.native_token {
        Some(t) => t.denom.clone(),
        None => String::new(),
    }
}

/// The two reserves, first and last, where the pool lists reserves whose
/// amounts are numbers.
pub open spec fn pool_amounts(pool: PoolInfo) -> Option<(u128, u128)> {
    if pool.assets@.len() == 0 {
        None
    } else {
        match (parse_u128_spec(pool.assets@[0].amount@), parse_u128_spec(pool.assets@.last().amount@)) {
            (Some(a), Some(b)) => Some((a, b)),
            _ => None,
        }
    }
}

/// The current pool price as text, to four places; 0 for an empty pool.
pub open spec fn current_price_text(a: u128, b: u128) -> Seq<char> {
    if b == 0 {
        ratio_text_spec(0, 1, 4)
    } else {
        ratio_text_spec(a as nat, b as nat, 4)
    }
}

/// The accepted spread in percent of the expected price, rounded to the
/// nearest whole percent (halves up); 0 where the expected price is 0.
pub open spec fn spread_pct(spread: u128, expected: u128) -> int {
    if expected == 0 {
        0
    } else {
        rounded_div(spread * 100, expected as int)
    }
}

/// The text of the accepted spread: a whole percentage.
pub open spec fn spread_pct_text(spread: u128, expected: u128) -> Seq<char> {
    digits_of(spread_pct(spread, expected) as nat) + "%"@
}

/// Whether a pool check cannot be made at all.
pub open spec fn astroport_fatal(pair: PairInfo, pool: PoolInfo, price: PoolPriceConfig) -> Option<FatalError> {
    if pair.asset_infos@.len() == 0 || pool_amounts(pool) is None {
        Some(FatalError::MalformedPoolData)
    } else {
        let reserves = pool_amounts(pool)->0;
        let b = reserves.1;
        let e = price.expected_spot_price;
        let s = price.acceptable_price_spread;
        if e as int * 100 > u128::MAX as int || b as int > u128::MAX as int / 10
            || s as int * 100 > u128::MAX as int || e as int > u128::MAX as int / 10 {
            Some(FatalError::ArithmeticOverflow)
        } else {
            None
        }
    }
}

/// The record of the spot price check: always passing, with a warning
/// where the price lies outside the band.
pub open spec fn spot_price_record(a: u128, b: u128, e: u128) -> Rec {
    if price_within_band_spec(a as int, b as int, e as int) {
        pass_field(POOL_PRICE_CONFIG_KEY@, "expected_spot_price"@, "within 5% range of current pool price"@)
    } else {
        pass_field(
            POOL_PRICE_CONFIG_KEY@,
            "expected_spot_price"@,
            "expected "@ + ratio_text_spec(e as nat, FIXED_ONE as nat, 4) + " | current pool price "@
                + current_price_text(a, b) + " -> outside of 5% range of current pool price"@,
        )
    }
}

/// The text of an expected single-side limit.
pub open spec fn limit_text(contribution: u128, pct: u32) -> Seq<char> {
    let x = expected_single_side_limit(contribution as int, pct as int);
    if x >= 0 {
        digits_of(x as nat)
    } else {
        "below zero"@
    }
}

/// The record of one single-side limit check.
pub open spec fn limit_record(field: Seq<char>, contribution: u128, pct: u32, configured: u128) -> Rec {
    outcome_record(
        configured as int == expected_single_side_limit(contribution as int, pct as int),
        LIQUID_POOLER_CONFIG_KEY@,
        field,
        "verified"@,
        "invalid single side lp limit: expected "@ + limit_text(contribution, pct) + " | actual "@
            + digits_of(configured as nat),
    )
}

/// The record of one pool asset denom check.
pub open spec fn asset_denom_record(key: Seq<char>, field: Seq<char>, label: Seq<char>, pair_denom: Seq<char>, configured: Seq<char>, expected: Seq<char>) -> Rec {
    outcome_record(
        pair_denom == configured && expected == configured,
        key,
        field,
        "verified"@,
        "invalid asset "@ + label + " denom '"@ + configured + "': should be '"@ + expected + "'"@,
    )
}

/// The records that the liquid pooler check writes, given the two reserves.
pub open spec fn astroport_records(
    key: Seq<char>,
    asset_a_denom: Seq<char>,
    asset_a_contribution: u128,
    asset_b_denom: Seq<char>,
    asset_b_contribution: u128,
    lp: AstroportLiquidPoolerConfig,
    price: PoolPriceConfig,
    pct: u32,
    pair: PairInfo,
    reserves: (u128, u128),
) -> Seq<Rec> {
    let a_first = lp.asset_a_denom@ == asset_a_denom;
    seq![
        pass_field(key, "pool_address"@, "verified"@),
        outcome_record(pair_type_matches(pair.pair_type, lp.pool_pair_type), key, "pool_pair_type"@,
            "verified"@, "invalid pool pair type"@),
        asset_denom_record(key, "asset_a_denom"@, "A"@, native_denom_of(pair.asset_infos@[0]),
            lp.asset_a_denom@, if a_first { asset_a_denom } else { asset_b_denom }),
        asset_denom_record(key, "asset_b_denom"@, "B"@, native_denom_of(pair.asset_infos@.last()),
            lp.asset_b_denom@, if a_first { asset_b_denom } else { asset_a_denom }),
        spot_price_record(reserves.0, reserves.1, price.expected_spot_price),
        pass_field(POOL_PRICE_CONFIG_KEY@, "acceptable_price_spread"@,
            spread_pct_text(price.acceptable_price_spread, price.expected_spot_price)),
        limit_record("single_side_lp_limits_asset_a"@, asset_a_contribution, pct,
            lp.single_side_lp_limits.asset_a_limit),
        limit_record("single_side_lp_limits_asset_b"@, asset_b_contribution, pct,
            lp.single_side_lp_limits.asset_b_limit),
    ]
}

fn limit_text_exec(contribution: u128, pct: u32) -> (r: String)
    ensures
        r@ == limit_text(contribution, pct),
{
    match single_side_lp_limit(contribution, pct) {
        Some(v) => u128_text(v),
        None => String::from_str("below zero"),
    }
}

fn check_limit(ctx: &mut CovenantValidationContext, field: &str, contribution: u128, pct: u32, configured: u128)
    requires
        old(ctx).wf(),
    ensures
        final(ctx).wf(),
        final(ctx).same_settings(old(ctx)),
        final(ctx).logs() == apply_record(old(ctx).logs(), limit_record(field@, contribution, pct, configured)),
{
    let ok = match single_side_lp_limit(contribution, pct) {
        Some(v) => v == configured,
        None => false,
    };
    let mut msg = concat("invalid single side lp limit: expected ", limit_text_exec(contribution, pct).as_str());
    msg.append(" | actual ");
    msg.append(u128_text(configured).as_str());
    ctx.check_field(ok, LIQUID_POOLER_CONFIG_KEY, field, String::from_str("verified"), msg);
}

fn check_asset_denom(
    ctx: &mut CovenantValidationContext,
    key: &str,
    field: &str,
    label: &str,
    pair_denom: &str,
    configured: &str,
    expected: &str,
)
    requires
        old(ctx).wf(),
    ensures
        final(ctx).wf(),
        final(ctx).same_settings(old(ctx)),
        final(ctx).logs() == apply_record(
            old(ctx).logs(),
            asset_denom_record(key@, field@, label@, pair_denom@, configured@, expected@),
        ),
{
    let ok = str_eq(pair_denom, configured) && str_eq(expected, configured);
    let mut msg = concat3("invalid asset ", label, " denom '");
    msg.append(configured);
    msg.append("': should be '");
    msg.append(expected);
    msg.append("'");
    ctx.check_field(ok, key, field, String::from_str("verified"), msg);
}

/// Whether the pool's data can be used, without recording anything; where
/// it can, the two reserves.
pub fn check_pool_data(pair_info: &PairInfo, pool_info: &PoolInfo, pool_price_cfg: &PoolPriceConfig) -> (r: Result<(u128, u128), FatalError>)
    ensures
        match astroport_fatal(*pair_info, *pool_info, *pool_price_cfg) {
            Some(e) => r == Err::<(u128, u128), FatalError>(e),
            None => r == Ok::<(u128, u128), FatalError>(pool_amounts(*pool_info)->0),
        },
{
    if pair_info.asset_infos.len() == 0 || pool_info.assets.len() == 0 {
        return Err(FatalError::MalformedPoolData);
    }
    let last = pool_info.assets.len() - 1;
    let (a, b) = match (parse_u128(pool_info.assets[0].amount.as_str()), parse_u128(pool_info.assets[last].amount.as_str())) {
        (Some(a), Some(b)) => (a, b),
        _ => {
            return Err(FatalError::MalformedPoolData);
        },
    };
    let e = pool_price_cfg.expected_spot_price;
    let s = pool_price_cfg.acceptable_price_spread;
    if e > u128::MAX / 100 || b > u128::MAX / 10 || s > u128::MAX / 100 || e > u128::MAX / 10 {
        return Err(FatalError::ArithmeticOverflow);
    }
    Ok((a, b))
}

/// Checks a liquid pooler's configuration against the pool's pair data and
/// reserves: the pair kind, the order and denoms of the two assets, the
/// expected spot price against the current price (a warning only), the
/// accepted spread (informational) and the two single-side limits. Where
/// the pool data cannot be used, nothing is recorded and the run stops.
pub fn verify_astroport_liquid_pooler_config(
    ctx: &mut CovenantValidationContext,
    key: &str,
    asset_a_denom: &str,
    asset_a_contribution: u128,
    asset_b_denom: &str,
    asset_b_contribution: u128,
    lp_cfg: &AstroportLiquidPoolerConfig,
    pool_price_cfg: &PoolPriceConfig,
    single_side_lp_limit_pct: u32,
    pair_info: &PairInfo,
    pool_info: &PoolInfo,
) -> (r: Result<(), FatalError>)
    requires
        old(ctx).wf(),
    ensures
        final(ctx).wf(),
        final(ctx).same_settings(old(ctx)),
        match astroport_fatal(*pair_info, *pool_info, *pool_price_cfg) {
            Some(e) => r == Err::<(), FatalError>(e) && final(ctx).logs() == old(ctx).logs(),
            None => r is Ok && final(ctx).logs() == apply_records(
                old(ctx).logs(),
                astroport_records(key@, asset_a_denom@, asset_a_contribution, asset_b_denom@,
                    asset_b_contribution, *lp_cfg, *pool_price_cfg, single_side_lp_limit_pct,
                    *pair_info, pool_amounts(*pool_info)->0),
            ),
        },
{
    // Everything that can stop the run is settled before anything is recorded.
    let (a, b) = match check_pool_data(pair_info, pool_info, pool_price_cfg) {
        Ok(reserves) => reserves,
        Err(e) => {
            return Err(e);
        },
    };
    let e = pool_price_cfg.expected_spot_price;
    let s = pool_price_cfg.acceptable_price_spread;
    let within = price_within_band(a, b, e);
    let expected_text = ratio_text(e, FIXED_ONE, 4);
    let current_text = if b == 0 { ratio_text(0, 1, 4) } else { ratio_text(a, b, 4) };
    let pct = if e == 0 { 0 } else { rounded_quotient(s * 100, e) };
    let spread_text = u128_text(pct);
    let ghost reserves = (a, b);
    assert(pool_amounts(*pool_info) == Some(reserves));
    let ghost recs = astroport_records(key@, asset_a_denom@, asset_a_contribution, asset_b_denom@,
        asset_b_contribution, *lp_cfg, *pool_price_cfg, single_side_lp_limit_pct, *pair_info, reserves);
    let ghost l0 = ctx.logs();

    ctx.valid_field(key, "pool_address", String::from_str("verified"));
    proof { lemma_apply_push(l0, Seq::empty(), recs[0]); assert(Seq::<Rec>::empty().push(recs[0]) =~= recs.subrange(0, 1)); }

    let pair_ok = pair_type_matches_exec(&pair_info.pair_type, &lp_cfg.pool_pair_type);
    ctx.check_field(pair_ok, key, "pool_pair_type", String::from_str("verified"), String::from_str("invalid pool pair type"));
    proof { lemma_apply_push(l0, recs.subrange(0, 1), recs[1]); assert(recs.subrange(0, 1).push(recs[1]) =~= recs.subrange(0, 2)); }

    let a_first = str_eq(lp_cfg.asset_a_denom.as_str(), asset_a_denom);
    let pair_a = native_denom_of_exec(&pair_info.asset_infos[0]);
    let exp_a = if a_first { asset_a_denom } else { asset_b_denom };
    check_asset_denom(ctx, key, "asset_a_denom", "A", pair_a.as_str(), lp_cfg.asset_a_denom.as_str(), exp_a);
    proof { lemma_apply_push(l0, recs.subrange(0, 2), recs[2]); assert(recs.subrange(0, 2).push(recs[2]) =~= recs.subrange(0, 3)); }

    let pair_b = native_denom_of_exec(&pair_info.asset_infos[pair_info.asset_infos.len() - 1]);
    let exp_b = if a_first { asset_b_denom } else { asset_a_denom };
    check_asset_denom(ctx, key, "asset_b_denom", "B", pair_b.as_str(), lp_cfg.asset_b_denom.as_str(), exp_b);
    proof { lemma_apply_push(l0, recs.subrange(0, 3), recs[3]); assert(recs.subrange(0, 3).push(recs[3]) =~= recs.subrange(0, 4)); }

    if within {
        ctx.valid_field(POOL_PRICE_CONFIG_KEY, "expected_spot_price", String::from_str("within 5% range of current pool price"));
    } else {
        let mut msg = concat("expected ", expected_text.as_str());
        msg.append(" | current pool price ");
        msg.append(current_text.as_str());
        msg.append(" -> outside of 5% range of current pool price");
        ctx.valid_field(POOL_PRICE_CONFIG_KEY, "expected_spot_price", msg);
    }
    proof { lemma_apply_push(l0, recs.subrange(0, 4), recs[4]); assert(recs.subrange(0, 4).push(recs[4]) =~= recs.subrange(0, 5)); }

    ctx.valid_field(POOL_PRICE_CONFIG_KEY, "acceptable_price_spread", concat(spread_text.as_str(), "%"));
    proof { lemma_apply_push(l0, recs.subrange(0, 5), recs[5]); assert(recs.subrange(0, 5).push(recs[5]) =~= recs.subrange(0, 6)); }

    check_limit(ctx, "single_side_lp_limits_asset_a", asset_a_contribution, single_side_lp_limit_pct,
        lp_cfg.single_side_lp_limits.asset_a_limit);
    proof { lemma_apply_push(l0, recs.subrange(0, 6), recs[6]); assert(recs.subrange(0, 6).push(recs[6]) =~= recs.subrange(0, 7)); }

    check_limit(ctx, "single_side_lp_limits_asset_b", asset_b_contribution, single_side_lp_limit_pct,
        lp_cfg.single_side_lp_limits.asset_b_limit);
    proof { lemma_apply_push(l0, recs.subrange(0, 7), recs[7]); assert(recs.subrange(0, 7).push(recs[7]) =~= recs); }
    Ok(())
}

/// The spot price check never fails a run: outside the 5% band it only
/// warns.
pub proof fn lemma_spot_price_never_fails(a: u128, b: u128, e: u128)
    ensures
        spot_price_record(a, b, e).0,
{
}

} // verus!

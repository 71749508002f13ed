use covenant_validator::assets::{AssetInfo, ChainDenomInfo};
use covenant_validator::contracts::CodeIdEntry;
use covenant_validator::astroport::{
    verify_astroport_liquid_pooler_config, AssetInfo as PairAsset, AstroportLiquidPoolerConfig, FatalError, NativeToken,
    PairInfo, PairType, PoolAssetInfo, PoolInfo, PoolPairType, PoolPriceConfig, SingleSideLpLimits, XykPair,
};
use covenant_validator::denom::derive_voucher_denom;
use covenant_validator::expiration::Expiration;
use covenant_validator::numeric::FIXED_ONE;
use covenant_validator::party::{
    verify_party_config, Coin, CovenantPartyConfig, InterchainCovenantParty, NativeCovenantParty, PartyChainData,
};
use covenant_validator::path::{ChainInfo, ChannelInfo, ChannelPort, Tags};
use covenant_validator::splits::{SplitConfig, SplitReceiver};
use covenant_validator::swap::SwapInstantiateMsg;
use covenant_validator::two_party::{LiquidPoolerConfig, TwoPartyCodeIds, TwoPartyInstantiateMsg, TwoPartyObservations};
use covenant_validator::{CovenantValidationContext, IBCPath, ReportEntry, SwapCovenantInstMsg, TwoPartyPolCovenantInstMsg};

const ADDR: &str = "neutron1ayw8xtxkty5cfzx44z6vxpevmtudg2n3d2sfz8";

fn messages(entries: &[ReportEntry], key: &str) -> Vec<String> {
    entries.iter().filter(|e| e.key == key).flat_map(|e| e.messages.clone()).collect()
}

fn pair_asset(denom: &str) -> PairAsset {
    PairAsset { token: None, native_token: Some(NativeToken { denom: denom.to_string() }) }
}

fn pool(a: &str, b: &str) -> (PairInfo, PoolInfo) {
    let pair = PairInfo {
        contract_addr: "neutron1pair".to_string(),
        liquidity_token: "neutron1lp".to_string(),
        pair_type: PairType { xyk: Some(XykPair {}), stable: None, custom: None },
        asset_infos: vec![pair_asset("untrn"), pair_asset("ibc/ATOM")],
    };
    let pool = PoolInfo {
        assets: vec![
            PoolAssetInfo { amount: a.to_string(), info: pair_asset("untrn") },
            PoolAssetInfo { amount: b.to_string(), info: pair_asset("ibc/ATOM") },
        ],
        total_share: "0".to_string(),
    };
    (pair, pool)
}

fn pooler() -> AstroportLiquidPoolerConfig {
    AstroportLiquidPoolerConfig {
        pool_pair_type: PoolPairType::Xyk,
        pool_address: "neutron1pair".to_string(),
        asset_a_denom: "untrn".to_string(),
        asset_b_denom: "ibc/ATOM".to_string(),
        single_side_lp_limits: SingleSideLpLimits { asset_a_limit: 900, asset_b_limit: 300 },
    }
}

fn run_pool(expected_price: u128) -> CovenantValidationContext {
    run_pool_with_spread(expected_price, 5)
}

fn run_pool_with_spread(expected_price: u128, spread: u128) -> CovenantValidationContext {
    let (pair, pool) = pool("100", "1");
    let mut ctx = CovenantValidationContext::new();
    let price = PoolPriceConfig { expected_spot_price: expected_price * FIXED_ONE, acceptable_price_spread: spread * FIXED_ONE };
    let r = verify_astroport_liquid_pooler_config(
        &mut ctx, "liquid_pooler_config", "untrn", 1000, "ibc/ATOM", 333, &pooler(), &price, 10, &pair, &pool,
    );
    assert_eq!(r, Ok(()));
    ctx
}

#[test]
fn spot_price_within_band_has_no_warning() {
    let ctx = run_pool(103);
    assert_eq!(
        messages(ctx.checks(), "pool_price_config"),
        vec![
            "expected_spot_price: within 5% range of current pool price".to_string(),
            "acceptable_price_spread: 5%".to_string()
        ]
    );
    assert_eq!(
        messages(ctx.checks(), "liquid_pooler_config"),
        vec![
            "pool_address: verified".to_string(),
            "pool_pair_type: verified".to_string(),
            "asset_a_denom: verified".to_string(),
            "asset_b_denom: verified".to_string(),
            "single_side_lp_limits_asset_a: verified".to_string(),
            "single_side_lp_limits_asset_b: verified".to_string()
        ]
    );
    assert!(!ctx.has_errors());
}

#[test]
fn spot_price_outside_band_only_warns() {
    let ctx = run_pool(120);
    assert_eq!(
        messages(ctx.checks(), "pool_price_config")[0],
        "expected_spot_price: expected 120.0000 | current pool price 100.0000 -> outside of 5% range of current pool price"
    );
    assert!(!ctx.has_errors());
}

#[test]
fn pool_mismatches_are_errors() {
    let (pair, pool) = pool("100", "1");
    let mut cfg = pooler();
    cfg.pool_pair_type = PoolPairType::Stable;
    cfg.single_side_lp_limits.asset_b_limit = 299;
    let mut ctx = CovenantValidationContext::new();
    let price = PoolPriceConfig { expected_spot_price: 100 * FIXED_ONE, acceptable_price_spread: FIXED_ONE };
    let r = verify_astroport_liquid_pooler_config(
        &mut ctx, "liquid_pooler_config", "ibc/ATOM", 1000, "untrn", 333, &cfg, &price, 10, &pair, &pool,
    );
    assert_eq!(r, Ok(()));
    assert_eq!(
        messages(ctx.errors(), "liquid_pooler_config"),
        vec![
            "pool_pair_type: invalid pool pair type".to_string(),
            "single_side_lp_limits_asset_b: invalid single side lp limit: expected 300 | actual 299".to_string()
        ]
    );
}

#[test]
fn unusable_pool_data_stops_the_run() {
    let (pair, pool) = pool("lots", "1");
    let mut ctx = CovenantValidationContext::new();
    let price = PoolPriceConfig { expected_spot_price: FIXED_ONE, acceptable_price_spread: 0 };
    let r = verify_astroport_liquid_pooler_config(&mut ctx, "lp", "a", 1, "b", 1, &pooler(), &price, 10, &pair, &pool);
    assert_eq!(r, Err(FatalError::MalformedPoolData));
    assert!(ctx.checks().is_empty());
    let (pair, pool) = pool_ok();
    let price = PoolPriceConfig { expected_spot_price: u128::MAX, acceptable_price_spread: 0 };
    let r = verify_astroport_liquid_pooler_config(&mut ctx, "lp", "a", 1, "b", 1, &pooler(), &price, 10, &pair, &pool);
    assert_eq!(r, Err(FatalError::ArithmeticOverflow));
}

fn pool_ok() -> (PairInfo, PoolInfo) {
    pool("100", "1")
}

fn native_party(denom: &str, amount: u128) -> CovenantPartyConfig {
    CovenantPartyConfig::Native(NativeCovenantParty {
        party_receiver_addr: ADDR.to_string(),
        native_denom: denom.to_string(),
        addr: ADDR.to_string(),
        contribution: Coin { denom: denom.to_string(), amount },
    })
}

fn chain_data(denom: &str, display: &str) -> PartyChainData {
    PartyChainData {
        chain: ChainDenomInfo { denom: denom.to_string(), decimals: 6, display: display.to_string() },
        assets: vec![],
        path: None,
    }
}

fn two_party_msg() -> TwoPartyInstantiateMsg {
    TwoPartyInstantiateMsg {
        label: "ntrn-osmo-pol".to_string(),
        contract_codes: TwoPartyCodeIds {
            ibc_forwarder_code: 1,
            holder_code: 2,
            clock_code: 3,
            interchain_router_code: 4,
            native_router_code: 5,
            liquid_pooler_code: 6,
        },
        party_a_share: 400_000_000_000_000_000,
        party_b_share: 600_000_000_000_000_000,
        deposit_deadline: Expiration::AtHeight(100),
        lockup_config: Expiration::AtHeight(50),
        party_a_config: native_party("untrn", 1_500_000),
        party_b_config: native_party("uosmo", 2_000_000),
        liquid_pooler_config: LiquidPoolerConfig::Osmosis,
        pool_price_config: PoolPriceConfig { expected_spot_price: FIXED_ONE, acceptable_price_spread: 0 },
        splits: vec![
            SplitConfig {
                denom: "untrn".to_string(),
                receivers: vec![SplitReceiver { addr: ADDR.to_string(), share: FIXED_ONE }],
            },
            SplitConfig {
                denom: "uosmo".to_string(),
                receivers: vec![SplitReceiver { addr: ADDR.to_string(), share: FIXED_ONE }],
            },
        ],
    }
}

fn two_party_obs() -> TwoPartyObservations {
    TwoPartyObservations {
        code_ids: Ok(["ibc_forwarder", "two_party_pol_holder", "clock", "interchain_router", "native_router", "astroport_liquid_pooler"]
            .iter()
            .enumerate()
            .map(|(i, n)| CodeIdEntry { name: n.to_string(), code_id: i as u64 + 1 })
            .collect()),
        current_height: 200,
        now_secs: 0,
        party_a: chain_data("untrn", "ntrn"),
        party_b: chain_data("uosmo", "osmo"),
        neutron_assets: vec![],
        pair_info: PairInfo::default(),
        pool_info: PoolInfo::default(),
    }
}

#[test]
fn expired_deadlines_are_reported() {
    let covenant = TwoPartyPolCovenantInstMsg::new(two_party_msg());
    let mut ctx = CovenantValidationContext::new();
    assert_eq!(covenant.validate(&mut ctx, &two_party_obs()), Ok(()));
    let errors = messages(ctx.errors(), "covenant");
    assert!(errors.contains(&"deposit_deadline: invalid block height: should be in the future".to_string()));
    assert!(errors.contains(&"lockup_config: invalid lockup config: should be later than deposit deadline".to_string()));
    assert!(ctx.has_errors());
    let checks = messages(ctx.checks(), "covenant");
    assert!(checks.contains(&"label: valid".to_string()));
    assert!(checks.contains(&"party_a_share: verified".to_string()));
    assert!(checks.contains(&"party_b_share: verified".to_string()));
    assert_eq!(
        messages(ctx.checks(), "party_a_config"),
        vec![
            "native_denom: verified".to_string(),
            "contribution: 1.50 ntrn".to_string(),
            "party_receiver_addr: valid Bech32 address".to_string(),
            "addr: valid Bech32 address".to_string()
        ]
    );
    assert_eq!(messages(ctx.checks(), "contract_codes").len(), 6);
    assert!(messages(ctx.errors(), "contract_codes").is_empty());
    assert_eq!(
        messages(ctx.errors(), "splits"),
        Vec::<String>::new()
    );
}

#[test]
fn same_inputs_same_report() {
    let covenant = TwoPartyPolCovenantInstMsg::new(two_party_msg());
    let mut first = CovenantValidationContext::new();
    let mut second = CovenantValidationContext::new();
    assert_eq!(covenant.validate(&mut first, &two_party_obs()), Ok(()));
    assert_eq!(covenant.validate(&mut second, &two_party_obs()), Ok(()));
    assert_eq!(format!("{:?}", first.checks()), format!("{:?}", second.checks()));
    assert_eq!(format!("{:?}", first.errors()), format!("{:?}", second.errors()));
}

#[test]
fn unequal_shares_and_splits_are_reported() {
    let mut msg = two_party_msg();
    msg.party_b_share = 599_999_999_999_999_999;
    msg.splits.pop();
    let covenant = TwoPartyPolCovenantInstMsg::new(msg);
    let mut ctx = CovenantValidationContext::new();
    assert_eq!(covenant.validate(&mut ctx, &two_party_obs()), Ok(()));
    let errors = messages(ctx.errors(), "covenant");
    assert!(errors.contains(&"party_b_share: invalid share: sum of shares should be 1.0".to_string()));
    assert_eq!(messages(ctx.errors(), "splits"), vec![": invalid splits: unexpected denoms".to_string()]);
}

fn interchain_path() -> IBCPath {
    IBCPath {
        chain_1: ChainInfo { chain_name: "cosmoshub".to_string(), client_id: "c".to_string(), connection_id: "connection-809".to_string() },
        chain_2: ChainInfo { chain_name: "neutron".to_string(), client_id: "c".to_string(), connection_id: "connection-0".to_string() },
        channels: vec![ChannelInfo {
            chain_1: ChannelPort { channel_id: "channel-569".to_string(), port_id: "transfer".to_string() },
            chain_2: ChannelPort { channel_id: "channel-1".to_string(), port_id: "transfer".to_string() },
            ordering: "unordered".to_string(),
            version: "ics20-1".to_string(),
            tags: Tags::default(),
        }],
    }
}

#[test]
fn interchain_party_is_checked_against_path_and_denom() {
    let party = CovenantPartyConfig::Interchain(InterchainCovenantParty {
        party_receiver_addr: "cosmos1ayw8xtxkty5cfzx44z6vxpevmtudg2n3f4etcq".to_string(),
        party_chain_connection_id: "connection-0".to_string(),
        party_to_host_chain_channel_id: "channel-569".to_string(),
        host_to_party_chain_channel_id: "channel-1".to_string(),
        remote_chain_denom: "uatom".to_string(),
        addr: ADDR.to_string(),
        native_denom: derive_voucher_denom("channel-1", "uatom"),
        contribution: Coin { denom: "uatom".to_string(), amount: 5_000_000 },
    });
    let data = PartyChainData {
        chain: ChainDenomInfo { denom: "uatom".to_string(), decimals: 6, display: "atom".to_string() },
        assets: Vec::<AssetInfo>::new(),
        path: Some(interchain_path()),
    };
    let mut ctx = CovenantValidationContext::new();
    assert_eq!(verify_party_config(&mut ctx, "party_b_config", &party, &data, &vec![], false), Ok(()));
    assert_eq!(
        messages(ctx.checks(), "party_b_config"),
        vec![
            "party_chain_connection_id: verified".to_string(),
            "host_to_party_chain_channel_id: verified".to_string(),
            "party_to_host_chain_channel_id: verified".to_string(),
            "remote_chain_denom: verified".to_string(),
            "native_denom: verified".to_string(),
            "contribution: 5.00 uatom".to_string(),
            "party_receiver_addr: valid Bech32 address".to_string(),
            "addr: valid Bech32 address".to_string()
        ]
    );
    assert!(!ctx.has_errors());

    let mut ctx = CovenantValidationContext::new();
    let no_path = PartyChainData { path: None, ..data };
    assert_eq!(verify_party_config(&mut ctx, "party_b_config", &party, &no_path, &vec![], false), Err(FatalError::PathUnresolved));
}

#[test]
fn swap_covenant_reports_its_gap() {
    let covenant = SwapCovenantInstMsg::new(SwapInstantiateMsg { label: String::new() });
    let mut ctx = CovenantValidationContext::new();
    covenant.validate(&mut ctx);
    assert_eq!(
        messages(ctx.errors(), "covenant"),
        vec![
            "label: required".to_string(),
            "swap covenant: validation logic not yet implemented; only the label was checked".to_string()
        ]
    );
}

#[test]
fn unavailable_manifest_stops_the_run() {
    let covenant = TwoPartyPolCovenantInstMsg::new(two_party_msg());
    let mut obs = two_party_obs();
    obs.code_ids = Err("release manifest unavailable".to_string());
    let mut ctx = CovenantValidationContext::new();
    assert_eq!(covenant.validate(&mut ctx, &obs), Err(FatalError::ManifestUnavailable));
    assert!(ctx.checks().is_empty());
    assert!(!ctx.has_errors());
}

#[test]
fn unusable_party_data_stops_before_any_record() {
    let mut msg = two_party_msg();
    msg.party_b_config = CovenantPartyConfig::Interchain(InterchainCovenantParty {
        party_receiver_addr: ADDR.to_string(),
        party_chain_connection_id: "connection-0".to_string(),
        party_to_host_chain_channel_id: "channel-569".to_string(),
        host_to_party_chain_channel_id: "channel-1".to_string(),
        remote_chain_denom: "uatom".to_string(),
        addr: ADDR.to_string(),
        native_denom: "ibc/X".to_string(),
        contribution: Coin { denom: "uatom".to_string(), amount: 1 },
    });
    let covenant = TwoPartyPolCovenantInstMsg::new(msg);
    let mut ctx = CovenantValidationContext::new();
    assert_eq!(covenant.validate(&mut ctx, &two_party_obs()), Err(FatalError::PathUnresolved));
    assert!(ctx.checks().is_empty());
    assert!(!ctx.has_errors());
}

#[test]
fn split_with_extra_receiver_is_refused() {
    let mut msg = two_party_msg();
    msg.splits[0].receivers.push(SplitReceiver { addr: "neutron1other".to_string(), share: 0 });
    let covenant = TwoPartyPolCovenantInstMsg::new(msg);
    let mut ctx = CovenantValidationContext::new();
    assert_eq!(covenant.validate(&mut ctx, &two_party_obs()), Ok(()));
    assert_eq!(
        messages(ctx.errors(), "splits"),
        vec![": invalid splits: receivers should be exactly the two parties, with shares summing to 1.0".to_string()]
    );
}

#[test]
fn split_between_both_receivers_passes() {
    let mut msg = two_party_msg();
    let b = "cosmos1ayw8xtxkty5cfzx44z6vxpevmtudg2n3f4etcq";
    if let CovenantPartyConfig::Native(p) = &mut msg.party_b_config {
        p.party_receiver_addr = b.to_string();
    }
    for split in msg.splits.iter_mut() {
        split.receivers = vec![
            SplitReceiver { addr: ADDR.to_string(), share: FIXED_ONE / 4 },
            SplitReceiver { addr: b.to_string(), share: FIXED_ONE - FIXED_ONE / 4 },
        ];
    }
    let covenant = TwoPartyPolCovenantInstMsg::new(msg);
    let mut ctx = CovenantValidationContext::new();
    assert_eq!(covenant.validate(&mut ctx, &two_party_obs()), Ok(()));
    assert_eq!(messages(ctx.checks(), "splits"), vec![": verified".to_string()]);
}

#[test]
fn contribution_must_be_in_base_denom() {
    let mut msg = two_party_msg();
    if let CovenantPartyConfig::Native(p) = &mut msg.party_a_config {
        p.contribution.denom = "uatom".to_string();
    }
    let covenant = TwoPartyPolCovenantInstMsg::new(msg);
    let mut ctx = CovenantValidationContext::new();
    assert_eq!(covenant.validate(&mut ctx, &two_party_obs()), Ok(()));
    assert_eq!(
        messages(ctx.errors(), "party_a_config"),
        vec!["contribution: invalid denom: expected untrn | actual uatom".to_string()]
    );
}

#[test]
fn interchain_contribution_follows_resolved_base() {
    let party = CovenantPartyConfig::Interchain(InterchainCovenantParty {
        party_receiver_addr: ADDR.to_string(),
        party_chain_connection_id: "connection-0".to_string(),
        party_to_host_chain_channel_id: "channel-569".to_string(),
        host_to_party_chain_channel_id: "channel-1".to_string(),
        remote_chain_denom: "ATOM".to_string(),
        addr: ADDR.to_string(),
        native_denom: derive_voucher_denom("channel-1", "uatom"),
        contribution: Coin { denom: "ATOM".to_string(), amount: 5_000_000 },
    });
    let data = PartyChainData {
        chain: ChainDenomInfo { denom: "uosmo".to_string(), decimals: 6, display: "osmo".to_string() },
        assets: vec![AssetInfo {
            name: "Atom".to_string(),
            symbol: "ATOM".to_string(),
            denom: "uatom".to_string(),
            base: "uatom".to_string(),
            decimals: 6,
            ..Default::default()
        }],
        path: Some(interchain_path()),
    };
    let mut ctx = CovenantValidationContext::new();
    assert_eq!(verify_party_config(&mut ctx, "party_b_config", &party, &data, &vec![], false), Ok(()));
    let errors = messages(ctx.errors(), "party_b_config");
    assert!(errors.contains(&"contribution: invalid denom: expected uatom | actual ATOM".to_string()));
    assert!(messages(ctx.checks(), "party_b_config").contains(&"native_denom: verified".to_string()));
}

#[test]
fn spread_is_rounded_to_whole_percent() {
    let ctx = run_pool_with_spread(3, 2);
    assert!(messages(ctx.checks(), "pool_price_config").contains(&"acceptable_price_spread: 67%".to_string()));
    let ctx = run_pool_with_spread(100, 5);
    assert!(messages(ctx.checks(), "pool_price_config").contains(&"acceptable_price_spread: 5%".to_string()));
    let ctx = run_pool_with_spread(3, 1);
    assert!(messages(ctx.checks(), "pool_price_config").contains(&"acceptable_price_spread: 33%".to_string()));
}

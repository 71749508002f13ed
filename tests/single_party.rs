use covenant_validator::assets::{AssetInfo, ChainDenomInfo};
use covenant_validator::astroport::{PairInfo, PoolInfo, PoolPriceConfig};
use covenant_validator::contracts::CodeIdEntry;
use covenant_validator::denom::derive_voucher_denom;
use covenant_validator::numeric::FIXED_ONE;
use covenant_validator::party::{Coin, CovenantPartyConfig, InterchainCovenantParty, PartyChainData};
use covenant_validator::path::{ChainInfo, ChannelInfo, ChannelPort, Tags};
use covenant_validator::single_party::{
    LsInfo, RemoteChainSplitterConfig, SinglePartyCodeIds, SinglePartyInstantiateMsg, SinglePartyObservations,
};
use covenant_validator::two_party::LiquidPoolerConfig;
use covenant_validator::{CovenantValidationContext, IBCPath, ReportEntry, SinglePartyPolCovenantInstMsg};

const HUB_ADDR: &str = "neutron1ayw8xtxkty5cfzx44z6vxpevmtudg2n3d2sfz8";
const PARTY_ADDR: &str = "cosmos1ayw8xtxkty5cfzx44z6vxpevmtudg2n3f4etcq";

fn messages(entries: &[ReportEntry], key: &str) -> Vec<String> {
    entries.iter().filter(|e| e.key == key).flat_map(|e| e.messages.clone()).collect()
}

fn path(n1: &str, conn1: &str, ch1: &str, n2: &str, conn2: &str, ch2: &str) -> IBCPath {
    IBCPath {
        chain_1: ChainInfo { chain_name: n1.to_string(), client_id: "c".to_string(), connection_id: conn1.to_string() },
        chain_2: ChainInfo { chain_name: n2.to_string(), client_id: "c".to_string(), connection_id: conn2.to_string() },
        channels: vec![ChannelInfo {
            chain_1: ChannelPort { channel_id: ch1.to_string(), port_id: "transfer".to_string() },
            chain_2: ChannelPort { channel_id: ch2.to_string(), port_id: "transfer".to_string() },
            ordering: "unordered".to_string(),
            version: "ics20-1".to_string(),
            tags: Tags::default(),
        }],
    }
}

fn forwarder(amount: u128, conn: &str, p2h: &str) -> CovenantPartyConfig {
    CovenantPartyConfig::Interchain(InterchainCovenantParty {
        party_receiver_addr: PARTY_ADDR.to_string(),
        party_chain_connection_id: conn.to_string(),
        party_to_host_chain_channel_id: p2h.to_string(),
        host_to_party_chain_channel_id: "channel-1".to_string(),
        remote_chain_denom: "uatom".to_string(),
        addr: HUB_ADDR.to_string(),
        native_denom: "ibc/ANY".to_string(),
        contribution: Coin { denom: "uatom".to_string(), amount },
    })
}

fn msg() -> SinglePartyInstantiateMsg {
    SinglePartyInstantiateMsg {
        label: "atom-pol".to_string(),
        contract_codes: SinglePartyCodeIds {
            ibc_forwarder_code: 1,
            holder_code: 2,
            clock_code: 3,
            remote_chain_splitter_code: 4,
            liquid_pooler_code: 5,
            liquid_staker_code: 6,
            interchain_router_code: 7,
        },
        covenant_party_config: InterchainCovenantParty {
            party_receiver_addr: PARTY_ADDR.to_string(),
            party_chain_connection_id: "connection-0".to_string(),
            party_to_host_chain_channel_id: "channel-569".to_string(),
            host_to_party_chain_channel_id: "channel-1".to_string(),
            remote_chain_denom: "uatom".to_string(),
            addr: HUB_ADDR.to_string(),
            native_denom: derive_voucher_denom("channel-1", "uatom"),
            contribution: Coin { denom: "uatom".to_string(), amount: 10_000_000 },
        },
        ls_info: LsInfo {
            ls_neutron_connection_id: "connection-8".to_string(),
            ls_chain_to_neutron_channel_id: "channel-123".to_string(),
            ls_denom: "stuatom".to_string(),
            ls_denom_on_neutron: derive_voucher_denom("channel-8", "stuatom"),
        },
        remote_chain_splitter_config: RemoteChainSplitterConfig {
            channel_id: "channel-1".to_string(),
            connection_id: "connection-0".to_string(),
            denom: "uatom".to_string(),
            amount: 10_000_000,
            ls_share: 400_000_000_000_000_000,
            native_share: 600_000_000_000_000_000,
        },
        lp_forwarder_config: forwarder(6_000_000, "connection-0", "channel-569"),
        ls_forwarder_config: forwarder(4_000_000, "connection-stride", "channel-391"),
        liquid_pooler_config: LiquidPoolerConfig::Osmosis,
        pool_price_config: PoolPriceConfig { expected_spot_price: FIXED_ONE, acceptable_price_spread: 0 },
    }
}

fn obs() -> SinglePartyObservations {
    let names = ["ibc_forwarder", "single_party_pol_holder", "clock", "remote_chain_splitter", "astroport_liquid_pooler", "stride_liquid_staker", "interchain_router"];
    SinglePartyObservations {
        code_ids: Ok(names.iter().enumerate().map(|(i, n)| CodeIdEntry { name: n.to_string(), code_id: i as u64 + 1 }).collect()),
        party: PartyChainData {
            chain: ChainDenomInfo { denom: "uatom".to_string(), decimals: 6, display: "atom".to_string() },
            assets: vec![],
            path: Some(path("cosmoshub", "connection-809", "channel-569", "neutron", "connection-0", "channel-1")),
        },
        ls_path: path("neutron", "connection-8", "channel-8", "stride", "connection-123", "channel-123"),
        party_ls_path: path("cosmoshub", "connection-hub", "channel-391", "stride", "connection-stride", "channel-0"),
        ls_chain_assets: vec![AssetInfo { name: "stATOM".to_string(), base: "stuatom".to_string(), ..Default::default() }],
        pair_info: PairInfo::default(),
        pool_info: PoolInfo::default(),
    }
}

#[test]
fn single_party_consistent_message() {
    let covenant = SinglePartyPolCovenantInstMsg::new(msg());
    let mut ctx = CovenantValidationContext::new();
    assert_eq!(covenant.validate(&mut ctx, &obs()), Ok(()));
    assert_eq!(messages(ctx.errors(), "covenant_party_config"), Vec::<String>::new());
    assert_eq!(messages(ctx.errors(), "ls_info"), Vec::<String>::new());
    assert_eq!(messages(ctx.errors(), "remote_chain_splitter_config"), Vec::<String>::new());
    assert_eq!(messages(ctx.errors(), "lp_forwarder_config"), Vec::<String>::new());
    assert_eq!(messages(ctx.errors(), "ls_forwarder_config"), Vec::<String>::new());
    assert_eq!(messages(ctx.errors(), "contract_codes"), Vec::<String>::new());
    assert_eq!(messages(ctx.checks(), "contract_codes").len(), 7);
    assert!(messages(ctx.checks(), "lp_forwarder_config").contains(&"contribution: 6.00 atom".to_string()));
    assert!(messages(ctx.checks(), "ls_forwarder_config").contains(&"contribution: 4.00 atom".to_string()));
    assert!(messages(ctx.checks(), "ls_info").contains(&"ls_denom_on_neutron: verified".to_string()));
    assert!(messages(ctx.checks(), "remote_chain_splitter_config").contains(&"ls_share + native_share: verified".to_string()));
    assert_eq!(messages(ctx.errors(), "liquid_pooler_config").len(), 1);
    assert_eq!(messages(ctx.errors(), "pool_price_config").len(), 1);
}

#[test]
fn single_party_leg_mismatch_and_bad_shares() {
    let mut m = msg();
    m.ls_forwarder_config = forwarder(4_000_001, "connection-stride", "channel-391");
    m.remote_chain_splitter_config.native_share = 599_999_999_999_999_999;
    let covenant = SinglePartyPolCovenantInstMsg::new(m);
    let mut ctx = CovenantValidationContext::new();
    assert_eq!(covenant.validate(&mut ctx, &obs()), Ok(()));
    assert_eq!(
        messages(ctx.errors(), "ls_forwarder_config"),
        vec!["contribution: invalid amount: should be equal to ls_share * contribution amount".to_string()]
    );
    assert_eq!(
        messages(ctx.errors(), "remote_chain_splitter_config"),
        vec!["ls_share + native_share: invalid share: should sum up to 1".to_string()]
    );
    assert_eq!(
        messages(ctx.errors(), "lp_forwarder_config"),
        vec!["contribution: invalid amount: should be equal to native_share * contribution amount".to_string()]
    );
}

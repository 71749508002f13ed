use covenant_validator::path::{
    registry_file, resolve_path_channels, ChainInfo, ChannelInfo, ChannelPort, PathError, Tags,
};
use covenant_validator::{get_path_connection_and_channels, CovenantValidationContext, IBCPath, LsProvider};

fn chain(name: &str, conn: &str) -> ChainInfo {
    ChainInfo { chain_name: name.to_string(), client_id: "07-tendermint-0".to_string(), connection_id: conn.to_string() }
}

fn channel(c1: &str, p1: &str, c2: &str, p2: &str) -> ChannelInfo {
    ChannelInfo {
        chain_1: ChannelPort { channel_id: c1.to_string(), port_id: p1.to_string() },
        chain_2: ChannelPort { channel_id: c2.to_string(), port_id: p2.to_string() },
        ordering: "unordered".to_string(),
        version: "ics20-1".to_string(),
        tags: Tags::default(),
    }
}

fn neutron_osmosis() -> IBCPath {
    IBCPath {
        chain_1: chain("neutron", "connection-18"),
        chain_2: chain("osmosis", "connection-2338"),
        channels: vec![
            channel("channel-9", "wasm.neutron1abc", "channel-40", "icahost"),
            channel("channel-10", "transfer", "channel-874", "transfer"),
        ],
    }
}

fn s(a: &str, b: &str, c: &str) -> (String, String, String) {
    (a.to_string(), b.to_string(), c.to_string())
}

#[test]
fn resolution_from_either_side_is_mirrored() {
    let p = neutron_osmosis();
    assert_eq!(resolve_path_channels(&p, "neutron", false), Ok(s("connection-18", "channel-10", "channel-874")));
    assert_eq!(resolve_path_channels(&p, "osmosis", false), Ok(s("connection-2338", "channel-874", "channel-10")));
    assert_eq!(get_path_connection_and_channels(&p, false), Ok(s("connection-18", "channel-10", "channel-874")));
}

#[test]
fn resolution_with_hub_on_second_side() {
    let p = IBCPath {
        chain_1: chain("cosmoshub", "connection-809"),
        chain_2: chain("neutron", "connection-0"),
        channels: vec![channel("channel-569", "transfer", "channel-1", "transfer")],
    };
    assert_eq!(get_path_connection_and_channels(&p, false), Ok(s("connection-0", "channel-1", "channel-569")));
}

#[test]
fn resolution_with_contract_port() {
    let p = IBCPath {
        chain_1: chain("neutron", "connection-5"),
        chain_2: chain("juno", "connection-6"),
        channels: vec![
            channel("channel-1", "transfer", "channel-2", "transfer"),
            channel("channel-3", "transfer", "channel-4", "wasm.juno1contract"),
        ],
    };
    assert_eq!(get_path_connection_and_channels(&p, true), Ok(s("connection-5", "channel-3", "channel-4")));
    assert_eq!(get_path_connection_and_channels(&p, false), Ok(s("connection-5", "channel-1", "channel-2")));
}

#[test]
fn resolution_errors() {
    let mut p = neutron_osmosis();
    assert_eq!(resolve_path_channels(&p, "juno", false), Err(PathError::HubNotInPath));
    p.channels.remove(1);
    assert_eq!(resolve_path_channels(&p, "neutron", false), Err(PathError::ChannelNotFound));
    p.channels.push(channel("channel-10", "transfer", "channel-874", "transfer"));
    p.channels.push(channel("channel-11", "transfer", "channel-875", "transfer"));
    assert_eq!(resolve_path_channels(&p, "neutron", false), Err(PathError::AmbiguousChannels));
}

#[test]
fn registry_file_is_order_free() {
    assert_eq!(registry_file("osmosis", "neutron"), "_IBC/neutron-osmosis.json");
    assert_eq!(registry_file("neutron", "osmosis"), "_IBC/neutron-osmosis.json");
    assert_eq!(registry_file("neutron", "neutron-test"), "_IBC/neutron-neutron-test.json");
    assert_eq!(registry_file("stride", "neutron"), "_IBC/neutron-stride.json");
}

#[test]
fn report_keeps_order_and_keys() {
    let mut ctx = CovenantValidationContext::new();
    assert!(!ctx.has_errors());
    ctx.valid_field("b", "f1", "verified".to_string());
    ctx.valid("a", "plain".to_string());
    ctx.valid_field("b", "f2", "ok".to_string());
    ctx.invalid("c", "broken".to_string());
    ctx.invalid_field("c", "f3", "required".to_string());
    let checks = ctx.checks();
    assert_eq!(checks.len(), 2);
    assert_eq!(checks[0].key, "b");
    assert_eq!(checks[0].messages, vec!["f1: verified".to_string(), "f2: ok".to_string()]);
    assert_eq!(checks[1].key, "a");
    assert_eq!(checks[1].messages, vec!["plain".to_string()]);
    assert_eq!(ctx.errors().len(), 1);
    assert_eq!(ctx.errors()[0].messages, vec!["broken".to_string(), "f3: required".to_string()]);
    assert!(ctx.has_errors());
}

#[test]
fn context_settings() {
    let mut ctx = CovenantValidationContext::new();
    assert_eq!(ctx.single_side_lp_limit_pct(), 10);
    assert_eq!(ctx.ls_provider(), LsProvider::Stride);
    ctx.set_party_a_chain_name("cosmoshub".to_string());
    ctx.set_party_b_chain_name("osmosis".to_string());
    ctx.set_party_a_channel_uses_wasm_port(true);
    ctx.set_ls_provider(LsProvider::Persistence);
    ctx.set_single_side_lp_limit_pct(25);
    assert_eq!(ctx.party_a_chain_name(), "cosmoshub");
    assert_eq!(ctx.party_b_chain_name(), "osmosis");
    assert!(ctx.party_a_channel_uses_wasm_port());
    assert_eq!(ctx.ls_provider(), LsProvider::Persistence);
    assert_eq!(ctx.single_side_lp_limit_pct(), 25);
    assert_eq!(LsProvider::from_name("stride"), Some(LsProvider::Stride));
    assert_eq!(LsProvider::from_name("persistence"), Some(LsProvider::Persistence));
    assert_eq!(LsProvider::from_name("quicksilver"), None);
}

#[test]
fn default_context_is_fresh() {
    let ctx = CovenantValidationContext::default();
    assert_eq!(ctx.single_side_lp_limit_pct(), 10);
    assert_eq!(ctx.ls_provider(), LsProvider::Stride);
    assert!(ctx.checks().is_empty());
    assert!(!ctx.has_errors());
}

use covenant_validator::assets::{find_asset, transfer_base_denom_of, AssetInfo, DenomUnit};
use covenant_validator::contracts::{lookup_code_id, verify_code_id, verify_code_ids, CodeIdEntry, CodeIdExpectation};
use covenant_validator::expiration::{block_height, expiration_not_after, verify_expiration, BlockHeader, Expiration};
use covenant_validator::metadata::{configure_context, covenant_kind, CovenantKind, CovenantMetadata, MetadataError};
use covenant_validator::{CovenantValidationContext, LsProvider};

fn asset(name: &str, symbol: &str, base: &str) -> AssetInfo {
    AssetInfo { name: name.to_string(), symbol: symbol.to_string(), base: base.to_string(), ..Default::default() }
}

#[test]
fn asset_lookup_skips_retired() {
    let assets = vec![asset("Atom (old)", "ATOM", "uatom"), asset("Atom", "ATOM", "uatom"), asset("Osmo", "OSMO", "uosmo")];
    assert_eq!(find_asset(&assets, "ATOM"), Some(1));
    assert_eq!(find_asset(&assets, "uosmo"), Some(2));
    assert_eq!(find_asset(&assets, "juno"), None);
}

#[test]
fn transfer_base_prefers_micro_alias() {
    let mut a = asset("Atom", "ATOM", "ibc/ABC");
    assert_eq!(transfer_base_denom_of(&a), "ibc/ABC");
    a.denom_units = vec![
        DenomUnit { denom: "atom".to_string(), exponent: 6, aliases: Some(vec!["uatom".to_string()]) },
        DenomUnit { denom: "ibc/ABC".to_string(), exponent: 0, aliases: Some(vec!["umicro".to_string(), "uatom".to_string()]) },
    ];
    assert_eq!(transfer_base_denom_of(&a), "umicro");
    a.denom_units[1].aliases = Some(vec!["atom-micro".to_string(), "uatom".to_string()]);
    assert_eq!(transfer_base_denom_of(&a), "uatom");
    a.denom_units[1].aliases = None;
    assert_eq!(transfer_base_denom_of(&a), "ibc/ABC");
}

fn entry(name: &str, id: u64) -> CodeIdEntry {
    CodeIdEntry { name: name.to_string(), code_id: id }
}

#[test]
fn code_id_checks() {
    let manifest = vec![entry("clock", 1), entry("holder", 2), entry("clock", 3)];
    assert_eq!(lookup_code_id(&manifest, "clock"), Some(3));
    assert_eq!(lookup_code_id(&manifest, "router"), None);
    let mut ctx = CovenantValidationContext::new();
    verify_code_id(&mut ctx, "clock_code", &manifest, "clock", 3);
    verify_code_id(&mut ctx, "holder_code", &manifest, "holder", 9);
    verify_code_id(&mut ctx, "router_code", &manifest, "router", 4);
    assert_eq!(ctx.checks()[0].key, "contract_codes");
    assert_eq!(ctx.checks()[0].messages, vec!["clock_code: verified".to_string()]);
    assert_eq!(
        ctx.errors()[0].messages,
        vec!["holder_code: invalid code id".to_string(), "unknown contract name router".to_string()]
    );
}

#[test]
fn code_ids_checked_in_order() {
    let manifest = vec![entry("clock", 1), entry("holder", 2)];
    let expected = vec![
        CodeIdExpectation { field: "clock_code".to_string(), contract: "clock".to_string(), code_id: 1 },
        CodeIdExpectation { field: "holder_code".to_string(), contract: "holder".to_string(), code_id: 3 },
    ];
    let mut ctx = CovenantValidationContext::new();
    verify_code_ids(&mut ctx, &manifest, &expected);
    assert_eq!(ctx.checks()[0].messages, vec!["clock_code: verified".to_string()]);
    assert_eq!(ctx.errors()[0].messages, vec!["holder_code: invalid code id".to_string()]);
}

#[test]
fn expirations() {
    let mut ctx = CovenantValidationContext::new();
    verify_expiration(&mut ctx, "covenant", "a", Expiration::AtHeight(101), 100, 0);
    verify_expiration(&mut ctx, "covenant", "b", Expiration::AtHeight(100), 100, 0);
    verify_expiration(&mut ctx, "covenant", "c", Expiration::AtTime(1_001_000_000_000), 0, 1000);
    verify_expiration(&mut ctx, "covenant", "d", Expiration::AtTime(1_000_999_999_999), 0, 1000);
    verify_expiration(&mut ctx, "covenant", "e", Expiration::Never, 0, 0);
    assert_eq!(
        ctx.checks()[0].messages,
        vec!["a: verified".to_string(), "c: verified".to_string(), "e: verified (note: never expires)".to_string()]
    );
    assert_eq!(
        ctx.errors()[0].messages,
        vec![
            "b: invalid block height: should be in the future".to_string(),
            "d: invalid timestamp: should be in the future".to_string()
        ]
    );
}

#[test]
fn expiration_order() {
    assert!(expiration_not_after(Expiration::AtHeight(5), Expiration::AtHeight(5)));
    assert!(!expiration_not_after(Expiration::AtHeight(6), Expiration::AtHeight(5)));
    assert!(!expiration_not_after(Expiration::AtHeight(1), Expiration::AtTime(5)));
    assert!(expiration_not_after(Expiration::AtTime(1), Expiration::Never));
    assert!(!expiration_not_after(Expiration::Never, Expiration::AtTime(1)));
    assert!(expiration_not_after(Expiration::Never, Expiration::Never));
}

fn metadata(contract: &str) -> CovenantMetadata {
    CovenantMetadata {
        contract: contract.to_string(),
        party_a_chain_name: "cosmoshub".to_string(),
        party_b_chain_name: None,
        party_a_channel_uses_wasm_port: None,
        ls_provider: None,
        single_side_lp_limit_pct: None,
    }
}

#[test]
fn metadata_configures_context() {
    assert_eq!(covenant_kind("valence-covenant-swap"), Some(CovenantKind::Swap));
    assert_eq!(covenant_kind("valence-covenant-single-party-pol"), Some(CovenantKind::SinglePartyPol));
    let mut ctx = CovenantValidationContext::new();
    let mut m = metadata("valence-covenant-two-party-pol");
    m.party_b_chain_name = Some("osmosis".to_string());
    m.party_a_channel_uses_wasm_port = Some(true);
    m.ls_provider = Some("persistence".to_string());
    m.single_side_lp_limit_pct = Some(15);
    assert_eq!(configure_context(&m, &mut ctx), Ok(CovenantKind::TwoPartyPol));
    assert_eq!(ctx.party_a_chain_name(), "cosmoshub");
    assert_eq!(ctx.party_b_chain_name(), "osmosis");
    assert!(ctx.party_a_channel_uses_wasm_port());
    assert_eq!(ctx.ls_provider(), LsProvider::Persistence);
    assert_eq!(ctx.single_side_lp_limit_pct(), 15);

    let mut ctx = CovenantValidationContext::new();
    assert_eq!(configure_context(&metadata("valence-covenant-single-party-pol"), &mut ctx), Ok(CovenantKind::SinglePartyPol));
    assert_eq!(ctx.party_b_chain_name(), "");
    assert_eq!(ctx.single_side_lp_limit_pct(), 10);
}

#[test]
fn metadata_errors() {
    let mut ctx = CovenantValidationContext::new();
    assert_eq!(configure_context(&metadata("valence-covenant-lottery"), &mut ctx), Err(MetadataError::UnsupportedContract));
    assert_eq!(configure_context(&metadata("valence-covenant-swap"), &mut ctx), Err(MetadataError::MissingPartyBChain));
    let mut m = metadata("valence-covenant-single-party-pol");
    m.ls_provider = Some("quicksilver".to_string());
    assert_eq!(configure_context(&m, &mut ctx), Err(MetadataError::InvalidLsProvider));
    let mut m = metadata("valence-covenant-single-party-pol");
    m.single_side_lp_limit_pct = Some(-1);
    assert_eq!(configure_context(&m, &mut ctx), Err(MetadataError::InvalidLimitPct));
    m.single_side_lp_limit_pct = Some(1 << 40);
    assert_eq!(configure_context(&m, &mut ctx), Err(MetadataError::InvalidLimitPct));
    assert_eq!(ctx.party_a_chain_name(), "");
}

#[test]
fn block_height_is_read() {
    let mut h = BlockHeader { chain_id: "neutron-1".to_string(), height: "12345".to_string(), time: String::new() };
    assert_eq!(block_height(&h), Some(12345));
    h.height = "tall".to_string();
    assert_eq!(block_height(&h), None);
}

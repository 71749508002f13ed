use covenant_validator::address::{validate_bech32_address, AddressError};
use covenant_validator::denom::{denom_trace_text, derive_voucher_denom, voucher_denom_from_digest};
use covenant_validator::CovenantValidationContext;
use sha2::Digest;

#[test]
fn test_validate_bech32_address() {
    validate_bech32_address("cosmos1ayw8xtxkty5cfzx44z6vxpevmtudg2n3f4etcq").unwrap();
    validate_bech32_address("neutron1ayw8xtxkty5cfzx44z6vxpevmtudg2n3d2sfz8").unwrap();
}

#[test]
fn address_with_bad_checksum_is_refused() {
    assert_eq!(
        validate_bech32_address("cosmos1ayw8xtxkty5cfzx44z6vxpevmtudg2n3f4etcp"),
        Err(AddressError::InvalidBech32)
    );
    assert_eq!(validate_bech32_address("not-an-address"), Err(AddressError::InvalidBech32));
}

#[test]
fn upper_case_address_is_refused() {
    assert_eq!(
        validate_bech32_address("COSMOS1AYW8XTXKTY5CFZX44Z6VXPEVMTUDG2N3F4ETCQ"),
        Err(AddressError::NotLowerCase)
    );
}

#[test]
fn party_address_records() {
    let mut ctx = CovenantValidationContext::new();
    covenant_validator::validate_party_address(
        &mut ctx,
        "party_a_config",
        "addr",
        "neutron1ayw8xtxkty5cfzx44z6vxpevmtudg2n3d2sfz8",
    );
    covenant_validator::validate_party_address(&mut ctx, "party_a_config", "party_receiver_addr", "bogus");
    assert_eq!(ctx.checks().len(), 1);
    assert_eq!(ctx.checks()[0].key, "party_a_config");
    assert_eq!(ctx.checks()[0].messages, vec!["addr: valid Bech32 address".to_string()]);
    assert_eq!(ctx.errors()[0].messages, vec!["party_receiver_addr: Invalid Bech32 address".to_string()]);
    assert!(ctx.has_errors());
}

#[test]
fn voucher_denom_known_reference_vector() {
    // ATOM on Osmosis arrives over channel-0.
    assert_eq!(
        derive_voucher_denom("channel-0", "uatom"),
        "ibc/27394FB092D2ECCD56123C74F36E4C1F926001CEADA9CA97EA622B25F41E5EB2"
    );
}

#[test]
fn voucher_denom_is_upper_hex_of_trace_digest() {
    let digest = sha2::Sha256::digest(b"transfer/channel-1/uatom");
    let mut hex = String::new();
    for b in digest.iter() {
        hex.push_str(&format!("{:02X}", b));
    }
    let expected = format!("ibc/{}", hex);
    assert_eq!(derive_voucher_denom("channel-1", "uatom"), expected);
    assert_ne!(derive_voucher_denom("channel-1", "uatom"), expected.to_lowercase());
    assert_ne!(derive_voucher_denom("channel-2", "uatom"), expected);
}

#[test]
fn voucher_denom_from_digest_encodes_each_byte() {
    assert_eq!(voucher_denom_from_digest(&[0x00, 0xab, 0x1f, 0xff]), "ibc/00AB1FFF");
    assert_eq!(voucher_denom_from_digest(&[]), "ibc/");
}

#[test]
fn denom_trace_layout() {
    assert_eq!(denom_trace_text("channel-7", "uosmo"), "transfer/channel-7/uosmo");
}

use covenant_validator::numeric::{
    decimals_divisor, leg_matches_share, mul_wide, price_within_band, ratio_text, rounded_quotient, share_within_unit,
    shares_sum_to_one, single_side_limit_matches, single_side_lp_limit, FIXED_ONE,
};
use covenant_validator::text::{parse_u128, u128_text};

#[test]
fn share_sum_is_exact() {
    assert!(shares_sum_to_one(350_000_000_000_000_000, 650_000_000_000_000_000));
    assert!(!shares_sum_to_one(350_000_000_000_000_000, 649_999_999_999_999_999));
    assert!(!shares_sum_to_one(400_000_000_000_000_000, 600_000_000_000_000_001));
    assert!(shares_sum_to_one(0, FIXED_ONE));
    assert!(!shares_sum_to_one(u128::MAX, 1));
}

#[test]
fn share_within_unit_bounds() {
    assert!(share_within_unit(0));
    assert!(share_within_unit(FIXED_ONE));
    assert!(!share_within_unit(FIXED_ONE + 1));
}

#[test]
fn single_side_limit_examples() {
    assert_eq!(single_side_lp_limit(1000, 10), Some(900));
    assert_eq!(single_side_lp_limit(333, 10), Some(300));
    assert_eq!(single_side_lp_limit(0, 10), Some(0));
    assert_eq!(single_side_lp_limit(1000, 0), Some(1000));
    assert_eq!(single_side_lp_limit(1000, 100), Some(0));
    assert_eq!(single_side_lp_limit(1000, 150), None);
    assert_eq!(single_side_lp_limit(0, 150), Some(0));
    assert_eq!(single_side_lp_limit(u128::MAX, 10), Some(u128::MAX - u128::MAX / 10));
}

#[test]
fn single_side_limit_match() {
    assert!(single_side_limit_matches(333, 10, 300));
    assert!(!single_side_limit_matches(333, 10, 299));
    assert!(!single_side_limit_matches(1000, 150, 0));
}

#[test]
fn price_band_edges() {
    let e = |p: u128| p * FIXED_ONE;
    assert!(price_within_band(100, 1, e(103)));
    assert!(!price_within_band(100, 1, e(120)));
    assert!(price_within_band(100, 1, e(95)));
    assert!(!price_within_band(100, 1, e(105)));
    assert!(!price_within_band(100, 1, e(94)));
    assert!(!price_within_band(100, 0, e(1)));
    // large reserves stay exact
    assert!(price_within_band(u128::MAX / 2, u128::MAX / 2, FIXED_ONE));
}

#[test]
fn rounded_quotients() {
    assert_eq!(rounded_quotient(200, 3), 67);
    assert_eq!(rounded_quotient(100, 3), 33);
    assert_eq!(rounded_quotient(5, 2), 3);
    assert_eq!(rounded_quotient(500, 103), 5);
    assert_eq!(rounded_quotient(0, 7), 0);
    assert_eq!(rounded_quotient(u128::MAX, u128::MAX / 2), 2);
}

#[test]
fn leg_share() {
    assert!(leg_matches_share(650, 1000, 650_000_000_000_000_000));
    assert!(!leg_matches_share(651, 1000, 650_000_000_000_000_000));
    assert!(leg_matches_share(0, 0, 0));
    assert!(leg_matches_share(u128::MAX, u128::MAX, FIXED_ONE));
}

#[test]
fn wide_product() {
    assert_eq!(mul_wide(u128::MAX, u128::MAX), (u128::MAX - 1, 1));
    assert_eq!(mul_wide(1 << 64, 1 << 64), (1, 0));
    assert_eq!(mul_wide(3, 5), (0, 15));
}

#[test]
fn ratio_text_truncates() {
    assert_eq!(ratio_text(1, 3, 4), "0.3333");
    assert_eq!(ratio_text(2, 3, 2), "0.66");
    assert_eq!(ratio_text(7, 2, 0), "3");
    assert_eq!(ratio_text(1_500_000, 1_000_000, 2), "1.50");
    assert_eq!(ratio_text(120 * FIXED_ONE, FIXED_ONE, 4), "120.0000");
}

#[test]
fn decimals_divisor_values() {
    assert_eq!(decimals_divisor(0), Some(1));
    assert_eq!(decimals_divisor(6), Some(1_000_000));
    assert_eq!(decimals_divisor(37), Some(10u128.pow(37)));
    assert_eq!(decimals_divisor(38), None);
    assert_eq!(decimals_divisor(255), None);
}

#[test]
fn integer_text_and_parse() {
    assert_eq!(u128_text(0), "0");
    assert_eq!(u128_text(9050), "9050");
    assert_eq!(u128_text(u128::MAX), u128::MAX.to_string());
    assert_eq!(parse_u128("12"), Some(12));
    assert_eq!(parse_u128("+12"), Some(12));
    assert_eq!(parse_u128(""), None);
    assert_eq!(parse_u128("+"), None);
    assert_eq!(parse_u128("12a"), None);
    assert_eq!(parse_u128("-1"), None);
    assert_eq!(parse_u128("340282366920938463463374607431768211455"), Some(u128::MAX));
    assert_eq!(parse_u128("340282366920938463463374607431768211456"), None);
}

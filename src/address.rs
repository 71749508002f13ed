//! Address well-formedness: a party address is a lower-case Bech32 string
//! with a valid checksum. Its human-readable part is not checked.
use vstd::prelude::*;

use crate::report::{appended, field_message, CovenantValidationContext};

verus! {

/// The text parses as a Bech32 string (not Bech32m) with a valid checksum.
pub uninterp spec fn bech32_checksum_valid(s: Seq<char>) -> bool;

/// Relies on bech32's `CheckedHrpstring::new::<Bech32>`: whether the text
/// parses as an HRP string whose Bech32 checksum is valid.
#[verifier::external_body]
fn bech32_parses(s: &str) -> (r: bool)
    ensures
        r == bech32_checksum_valid(s@),
{
    bech32::primitives::decode::CheckedHrpstring::new::<bech32::Bech32>(s).is_ok()
}

/// No ASCII upper-case letter in the text.
pub open spec fn has_no_upper(s: Seq<char>) -> bool {
    forall|i: int| 0 <= i < s.len() ==> !('A' <= #[trigger] s[i] && s[i] <= 'Z')
}

/// Why an address was refused.
#[derive(Clone, Copy, Debug, PartialEq, Eq, Structural)]
pub enum AddressError {
    /// The address holds an upper-case letter.
    NotLowerCase,
    /// The address does not parse as Bech32 with a valid checksum.
    InvalidBech32,
}

/// An address is accepted where it is lower-case and checksum-valid Bech32.
pub open spec fn address_result(s: Seq<char>) -> Result<(), AddressError> {
    if !has_no_upper(s) {
        Err(AddressError::NotLowerCase)
    } else if !bech32_checksum_valid(s) {
        Err(AddressError::InvalidBech32)
    } else {
        Ok(())
    }
}

fn no_upper(s: &str) -> (r: bool)
    ensures
        r == has_no_upper(s@),
{
    let n = s.unicode_len();
    let mut i: usize = 0;
    while i < n
        invariant
            n == s@.len(),
            i <= n,
            forall|j: int| 0 <= j < i ==> !('A' <= #[trigger] s@[j] && s@[j] <= 'Z'),
        decreases n - i,
    {
        let c = s.get_char(i);
        if 'A' <= c && c <= 'Z' {
            return false;
        }
        i = i + 1;
    }
    true
}

/// Checks that `address` is a lower-case Bech32 string with a valid checksum.
pub fn validate_bech32_address(address: &str) -> (r: Result<(), AddressError>)
    ensures
        r == address_result(address@),
{
    if !no_upper(address) {
        Err(AddressError::NotLowerCase)
    } else if !bech32_parses(address) {
        Err(AddressError::InvalidBech32)
    } else {
        Ok(())
    }
}

/// Records whether a party address is well-formed.
pub fn validate_party_address(ctx: &mut CovenantValidationContext, key: &str, field: &str, address: &str)
    requires
        old(ctx).wf(),
    ensures
        final(ctx).wf(),
        final(ctx).same_settings(old(ctx)),
        address_result(address@) is Ok ==> {
            &&& final(ctx).checks_log() == appended(old(ctx).checks_log(), key@, field_message(field@, "valid Bech32 address"@))
            &&& final(ctx).errors_log() == old(ctx).errors_log()
        },
        address_result(address@) is Err ==> {
            &&& final(ctx).errors_log() == appended(old(ctx).errors_log(), key@, field_message(field@, "Invalid Bech32 address"@))
            &&& final(ctx).checks_log() == old(ctx).checks_log()
        },
{
    match validate_bech32_address(address) {
        Ok(()) => ctx.valid_field(key, field, String::from_str("valid Bech32 address")),
        Err(_) => ctx.invalid_field(key, field, String::from_str("Invalid Bech32 address")),
    }
}

} // verus!

//! Deployment metadata: which covenant is deployed, and the settings of
//! the run.
use vstd::prelude::*;

use crate::report::{ls_provider_of, CovenantValidationContext, LsProvider, DEFAULT_SINGLE_SIDE_LP_LIMIT_PCT};
use crate::text::str_eq;

verus! {

/// The three covenants that can be checked.
#[derive(Clone, Copy, Debug, PartialEq, Eq, Structural)]
pub enum CovenantKind {
    SinglePartyPol,
    TwoPartyPol,
    Swap,
}

/// The contract type names of the three covenants.
pub const SINGLE_PARTY_POL_CONTRACT: &'static str = "valence-covenant-single-party-pol";
pub const TWO_PARTY_POL_CONTRACT: &'static str = "valence-covenant-two-party-pol";
pub const SWAP_CONTRACT: &'static str = "valence-covenant-swap";

/// The covenant that a contract type name selects.
pub open spec fn covenant_kind_of(s: Seq<char>) -> Option<CovenantKind> {
    if s == SINGLE_PARTY_POL_CONTRACT@ {
        Some(CovenantKind::SinglePartyPol)
    } else if s == TWO_PARTY_POL_CONTRACT@ {
        Some(CovenantKind::TwoPartyPol)
    } else if s == SWAP_CONTRACT@ {
        Some(CovenantKind::Swap)
    } else {
        None
    }
}

/// Reads a contract type name.
pub fn covenant_kind(contract: &str) -> (r: Option<CovenantKind>)
    ensures
        r == covenant_kind_of(contract@),
{
    if str_eq(contract, SINGLE_PARTY_POL_CONTRACT) {
        Some(CovenantKind::SinglePartyPol)
    } else if str_eq(contract, TWO_PARTY_POL_CONTRACT) {
        Some(CovenantKind::TwoPartyPol)
    } else if str_eq(contract, SWAP_CONTRACT) {
        Some(CovenantKind::Swap)
    } else {
        None
    }
}

/// The `[covenant]` table of the metadata, as plain values.
#[derive(Clone, Debug, PartialEq, Eq)]
pub struct CovenantMetadata {
    pub contract: String,
    pub party_a_chain_name: String,
    pub party_b_chain_name: Option<String>,
    pub party_a_channel_uses_wasm_port: Option<bool>,
    pub ls_provider: Option<String>,
    pub single_side_lp_limit_pct: Option<i64>,
}

/// Why metadata was refused.
#[derive(Clone, Copy, Debug, PartialEq, Eq, Structural)]
pub enum MetadataError {
    /// The contract type is none of the three known ones.
    UnsupportedContract,
    /// A two-party or swap covenant names no second chain.
    MissingPartyBChain,
    /// The liquid staking provider is neither `stride` nor `persistence`.
    InvalidLsProvider,
    /// The limit percentage is not a 32-bit unsigned number.
    InvalidLimitPct,
}

/// Whether a covenant has a second party.
pub open spec fn has_party_b(k: CovenantKind) -> bool {
    k is TwoPartyPol || k is Swap
}

/// What configuring a context from metadata gives: the covenant kind, or
/// the first problem found.
pub open spec fn configure_result(m: CovenantMetadata) -> Result<CovenantKind, MetadataError> {
    match covenant_kind_of(m.contract@) {
        None => Err(MetadataError::UnsupportedContract),
        Some(k) => if has_party_b(k) && m.party_b_chain_name is None {
            Err(MetadataError::MissingPartyBChain)
        } else if m.ls_provider is Some && ls_provider_of(m.ls_provider->0@) is None {
            Err(MetadataError::InvalidLsProvider)
        } else if m.single_side_lp_limit_pct is Some
            && !(0 <= m.single_side_lp_limit_pct->0 <= u32::MAX as i64) {
            Err(MetadataError::InvalidLimitPct)
        } else {
            Ok(k)
        },
    }
}

/// Reads the metadata into the run's settings and returns the covenant
/// kind. Settings that the metadata leaves out keep their defaults (the
/// limit percentage is set to 10). Nothing is recorded in the report.
pub fn configure_context(metadata: &CovenantMetadata, ctx: &mut CovenantValidationContext) -> (r: Result<CovenantKind, MetadataError>)
    requires
        old(ctx).wf(),
    ensures
        r == configure_result(*metadata),
        final(ctx).wf(),
        final(ctx).logs() == old(ctx).logs(),
        r is Ok ==> {
            &&& final(ctx).spec_party_a_chain_name() == metadata.party_a_chain_name@
            &&& final(ctx).spec_party_b_chain_name() == (if has_party_b(r->Ok_0) {
                metadata.party_b_chain_name->0@
            } else {
                old(ctx).spec_party_b_chain_name()
            })
            &&& final(ctx).spec_party_a_channel_uses_wasm_port() == (
                old(ctx).spec_party_a_channel_uses_wasm_port() || metadata.party_a_channel_uses_wasm_port == Some(true))
            &&& final(ctx).spec_ls_provider() == (match metadata.ls_provider {
                Some(p) => ls_provider_of(p@)->0,
                None => old(ctx).spec_ls_provider(),
            })
            &&& final(ctx).spec_single_side_lp_limit_pct() == (match metadata.single_side_lp_limit_pct {
                Some(p) => p as u32,
                None => DEFAULT_SINGLE_SIDE_LP_LIMIT_PCT,
            })
        },
{
    // Everything is checked before any setting changes.
    let kind = match covenant_kind(metadata.contract.as_str()) {
        Some(k) => k,
        None => {
            return Err(MetadataError::UnsupportedContract);
        },
    };
    let needs_b = match kind {
        CovenantKind::TwoPartyPol => true,
        CovenantKind::Swap => true,
        CovenantKind::SinglePartyPol => false,
    };
    if needs_b && metadata.party_b_chain_name.is_none() {
        return Err(MetadataError::MissingPartyBChain);
    }
    let provider = match &metadata.ls_provider {
        Some(p) => match LsProvider::from_name(p.as_str()) {
            Some(x) => Some(x),
            None => {
                return Err(MetadataError::InvalidLsProvider);
            },
        },
        None => None,
    };
    let pct: u32 = match metadata.single_side_lp_limit_pct {
        Some(p) => {
            if p < 0 || p > u32::MAX as i64 {
                return Err(MetadataError::InvalidLimitPct);
            }
            p as u32
        },
        None => DEFAULT_SINGLE_SIDE_LP_LIMIT_PCT,
    };

    ctx.set_party_a_chain_name(metadata.party_a_chain_name.clone());
    if needs_b {
        match &metadata.party_b_chain_name {
            Some(b) => ctx.set_party_b_chain_name(b.clone()),
            None => {},
        }
    }
    match metadata.party_a_channel_uses_wasm_port {
        Some(true) => ctx.set_party_a_channel_uses_wasm_port(true),
        _ => {},
    }
    match provider {
        Some(x) => ctx.set_ls_provider(x),
        None => {},
    }
    ctx.set_single_side_lp_limit_pct(pct);
    Ok(kind)
}

} // verus!

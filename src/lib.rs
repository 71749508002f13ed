//! Cross-source consistency checks for liquidity covenant deployments.
//!
//! Every check writes into a [`CovenantValidationContext`], an append-only
//! report that keeps going after a failed check so that one run lists every
//! problem. The values that other systems hold (chain registries, IBC path
//! tables, pool reserves, release manifests, the current height) are handed
//! to the checks as plain values.
pub mod address;
pub mod assets;
pub mod astroport;
pub mod contracts;
pub mod denom;
pub mod expiration;
pub mod manifest;
pub mod metadata;
pub mod numeric;
pub mod party;
pub mod path;
pub mod report;
pub mod single_party;
pub mod splits;
pub mod swap;
pub mod text;
pub mod two_party;

pub use address::{validate_bech32_address, validate_party_address};
pub use path::{get_path_connection_and_channels, IBCPath};
pub use report::{CovenantValidationContext, LsProvider, ReportEntry};
pub use single_party::SinglePartyPolCovenantInstMsg;
pub use swap::SwapCovenantInstMsg;
pub use two_party::TwoPartyPolCovenantInstMsg;

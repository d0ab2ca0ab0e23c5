//! A verified token-custody vault.
//!
//! The vault holds fungible-token balances on behalf of many depositors.
//! Its control addresses are derived deterministically from public inputs
//! (`derivation`), its per-depositor ledger and pooled balances live in a
//! keyed store (`state`), and the lifecycle, deposit and withdrawal rules are
//! verified operations on that store (`vault`). The laws the design promises
//! are stated and proved in `laws`.

pub mod derivation;
pub mod state;
pub mod vault;
pub mod laws;

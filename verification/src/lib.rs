//! Batched liquid-staking accounting.
//!
//! Users commit staking-asset value into the currently open batch, an issuer
//! closes each batch by snapshotting the total issuance of both currencies,
//! and users then redeem their commitment for the liquid asset at the exchange
//! rate fixed by that snapshot.

pub mod homa;
pub mod ledger;
pub mod rate;
pub mod types;

//! A ledger of client accounts driven by a stream of deposit, withdrawal,
//! dispute, resolve and chargeback events. Each event kind is a pure,
//! verified transition on snapshots; a store holds the snapshots and a
//! driver applies the events in order.

pub mod amount;
pub mod invariants;
pub mod logger;
pub mod processor;
pub mod runner;
pub mod store;

//! A verified core for a music-school instrument rental service.
//!
//! The library models the transaction-scoped command executor: it owns at
//! most one open transaction, admits rentals subject to a per-user cap,
//! resolves ambiguous termination requests, and lists instruments annotated
//! with availability. Command parsing and the numeric conversions are
//! verified as well. The surrounding program (database access, terminal
//! input and output) lives outside the library and feeds it plain values.

pub mod controller;
pub mod laws;
pub mod numeric;
pub mod parser;
pub mod store;

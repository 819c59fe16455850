//! Read-only resolution of transactions and blocks of a ring-signature ledger.
//!
//! The library holds every decision of a query: validating the request,
//! decoding key offsets, choosing the output table, mapping an output back to
//! the transaction that created it, and assembling the views. It never touches
//! the store itself: the store is handed in, as a function from lookups to
//! answers.
//!
//! - [`resolve`] runs a query to its end against such a function.
//! - [`transaction`], [`block`], [`mixin`] and [`provenance`] hold the
//!   resolvers, each a small machine that asks one lookup at a time, for
//!   callers that make the lookups themselves, side by side where they like.
//! - [`ledger`] says what a query has to answer, for every content of the
//!   store; [`laws`] holds what follows from that.
//! - [`offsets`], [`encoding`] and [`height`] read what arrives as numbers and
//!   text; [`types`], [`views`], [`lookup`] and [`error`] are the values that
//!   pass in and out.

pub mod block;
pub mod encoding;
pub mod error;
pub mod height;
pub mod laws;
pub mod ledger;
pub mod lookup;
pub mod mixin;
pub mod offsets;
pub mod provenance;
pub mod resolve;
pub mod transaction;
pub mod types;
pub mod views;

//! Self-tuning forwarding-fee controller for payment-routing channels.
//!
//! The library contains the decision core: an epoch check that decides when a
//! channel is due for re-evaluation, a trend classifier that splits a window
//! of (fee, revenue) observations into present/overall/past averages, a
//! decision table that maps the two trend classifications to a fee
//! adjustment, and an append-only sample store keyed by channel and
//! timestamp. Everything here is pure computation over plain integers and
//! strings; the RPC and database plumbing around it lives in the
//! accompanying application crate.

pub mod decision;
pub mod fees;
pub mod gate;
pub mod store;
pub mod trend;
pub mod window;

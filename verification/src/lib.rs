//! A per-account aggregation ledger.
//!
//! Callers submit a value tied to an account identifier; the ledger keeps one
//! aggregate record per account, derived from the previous record and the
//! incoming value by a fixed combination policy, and answers queries with the
//! current record or a policy-defined default when no submission has occurred.
//!
//! The pieces:
//! - [`store`]: the durable mapping from account identifier to record,
//!   modelled as a `Map<Seq<char>, T>`;
//! - [`last_write`]: the policy that keeps only the most recent text;
//! - [`pairwise_average`]: the policy that averages the incoming integer with
//!   a positive existing record, truncating toward zero;
//! - [`cumulative`]: the decision rule of the running-sum policy, whose
//!   64-bit floating point arithmetic itself lives with the hosting layer.

pub mod cumulative;
pub mod last_write;
pub mod pairwise_average;
pub mod store;

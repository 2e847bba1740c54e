//! A verified backend for a small single-admin inventory and sales
//! manager: a product ledger, an append-mostly sales ledger, an atomic
//! order processor, period-scoped reporting aggregates, and an
//! authentication gate. The store is an explicitly owned value; every
//! operation is a function of that value with a proved contract.
pub mod auth;
pub mod domain;
pub mod orders;
pub mod reports;
pub mod store;
pub mod textfmt;

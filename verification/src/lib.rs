//! Bookkeeping of informal debts between a fixed set of known users.
//!
//! One user "shafts" another for an amount. The ledger of such
//! transactions is append-only, every balance is derived from it, and
//! opaque session tokens decide who may post to it.

pub mod db;
pub mod error;
pub mod github;
pub mod rest;
pub mod settings;
pub mod text;

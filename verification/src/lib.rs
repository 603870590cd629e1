//! Reconciliation of cash-register Z-reports against a bookkeeping journal.
//!
//! The library holds the verified core: exact money arithmetic, the date-range
//! resolver, the canonical report title, matching of reports against journal
//! entries, construction of journal postings, the selection-input parser and
//! the per-batch import state machine.  Network transport, JSON wiring and
//! file output live outside the library and hand it plain values.

pub mod avstamning;
pub mod belopp;
pub mod datum;
pub mod easycashier;
pub mod journal;
pub mod maskin;
mod term;
pub mod text;
pub mod urval;
pub mod utils;

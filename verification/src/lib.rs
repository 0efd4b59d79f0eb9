//! A single-process, append-only chain of mined blocks over a value-transfer ledger.
//!
//! Every block carries a batch of transfers and is sealed by a SHA-256 digest that
//! must fall below a proof-of-work target. Admission into the chain validates the
//! candidate against the tip and applies its transfers to the ledger all-or-nothing.

pub mod backend;

//! Live feed reconciliation and filtering engine for a stream of short,
//! timestamped text records decoded from transaction payloads.
//!
//! The crate owns the ordered record collection, merges newly polled batches,
//! tracks transient "new item" animation state, prunes records outside the
//! retention window, evaluates free-text and structured include/exclude
//! filters, and computes the slice of the filtered feed that a fixed-height
//! viewport should materialize.

pub mod extract;
pub mod feed;
pub mod filter;
pub mod model;
pub mod text;
pub mod timefmt;
pub mod transaction;

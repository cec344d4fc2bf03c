//! A set-associative cache simulator: addresses are replayed against a
//! packed-line cache model, and hit/miss statistics can be read back.
//!
//! The simulator is split into the cache geometry (address decomposition),
//! the packed per-line state, the set-associative cache state with its
//! replacement scan, a channel holding the configure/report/finish
//! lifecycle, and a wrapper type that reports reads of a held value as
//! address touches.

pub mod cache;
pub mod geometry;
pub mod line;
pub mod provider;
pub mod thrashe;

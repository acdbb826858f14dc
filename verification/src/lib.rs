//! Core logic of a BS.1770 loudness normalizer: histogram statistics over
//! gated block powers, the sliding-block schedule, the pre-filter's ring
//! indices, the iTunNORM comment formatter, the batch driver's grouping
//! decisions, and the tag logic of the two supported containers.
//!
//! Floating-point signal processing (the K-weighting filter, power/loudness
//! conversions) and all I/O live outside this crate; this crate holds the
//! discrete logic those parts feed, with contracts checked by Verus.

pub mod blocks;
pub mod driver;
pub mod filter;
pub mod norm;
pub mod stats;
pub mod tags;

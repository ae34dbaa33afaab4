//! A workload-synthesis and trace-replay engine for comparing editable
//! text-buffer ("rope") implementations.
//!
//! The crate defines a uniform capability contract ([`rope::Rope`]) that every
//! candidate buffer satisfies, a deterministic shrinking-window sampler
//! ([`sampler::PercentRanges`]) that spreads edit positions over a buffer's
//! extent, a trace replay engine ([`replay`]) that feeds a recorded editing
//! session through a candidate and validates the outcome, and synthetic
//! workloads ([`workload`]) built from sampled ranges.

pub mod crop_rope;
pub mod jumprope_rope;
pub mod replay;
pub mod rope;
pub mod ropey_rope;
pub mod sampler;
pub mod string_rope;
pub mod text;
pub mod vecrope;
pub mod workload;
pub mod xi_rope_rope;

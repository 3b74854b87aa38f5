//! Material pipeline specialization and render-phase assignment.
//!
//! For every view and every visible drawable the library derives a
//! specialization key, resolves it to a pipeline variant through a
//! per-family cache, remembers the result per (view, entity) pair with a
//! change tick, and sorts drawables into the opaque, alpha-mask,
//! transmissive and transparent phases.
pub mod allocator;
pub mod key;
pub mod laws;
pub mod material;
pub mod phase;
pub mod pipeline;
pub mod queue;
pub mod specialize;
pub mod tick;

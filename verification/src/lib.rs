//! An early-boot region allocator for a flat physical memory range.
//!
//! One contiguous region is served from both ends: variable-size byte
//! allocations bump a low boundary upward, fixed-granularity page
//! allocations pull a high boundary downward, and the two never overlap.
//! The region can be registered once and later grown by ranges that are
//! forward-contiguous with the high boundary.
//!
//! `model` holds the mathematical state and its transitions, `region` the
//! executable allocator proved against that model, and `laws` the proofs
//! of the allocator's global guarantees.

pub mod laws;
pub mod model;
pub mod region;

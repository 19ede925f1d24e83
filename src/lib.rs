//! Ownership-tagged handles to reference-counted objects, the copy
//! contracts and release pools that keep them sound, mutable string and set
//! wrappers built on them, and platform availability of declarations.
//!
//! The objects live in `rc::Runtime`, an in-process model of a
//! reference-counted foreign object runtime (retain counts, release pools,
//! string and set storage), not a binding to one.
pub mod availability;
pub mod rc;
pub mod string;
pub mod mutable_string;
pub mod copying;
pub mod mutable_set;

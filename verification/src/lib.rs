//! A growable, contiguous sequence container built from first principles:
//! an owned buffer of slots with doubling growth, a container that tracks how
//! many leading slots are initialized, and owning iterators that consume the
//! elements from either end.

pub mod buffer;
pub mod container;
pub mod iter;
pub mod laws;

//! Duplicate suppression for keyed work: a registry of in-flight cells and a
//! write-once slot through which one result reaches every waiter.
pub mod registry;
pub mod slot;

//! A minimal file tool service: four named operations (store, fetch, delete,
//! update) that manipulate resources in a byte-addressable store and report
//! every result, success or failure, as data rather than as a fault.
//!
//! The store itself is an in-memory map from resource identifiers to byte
//! contents, so the whole contract layer can be exercised and verified without
//! touching an operating system. A host process that wants the operations to
//! act on real files performs the I/O itself and reuses the pure pieces
//! (content decoding, fixed confirmation messages) from this crate.

pub mod outcome;
pub mod store;
pub mod tools;

//! Derives, from one record description with some fields marked as keys, the
//! companion shapes that let the record live in a keyed set: a key-only shape,
//! a read-only full shape, and the field orders that hashing, key construction
//! and conversion between the shapes follow.

pub mod analyze;
pub mod diagnostics;
pub mod expand;
pub mod fields;
pub mod layout;
pub mod schema;
pub mod text;
pub mod types;
pub mod values;

pub use expand::{readonly, Generated};

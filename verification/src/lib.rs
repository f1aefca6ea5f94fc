//! Convenience methods for property-list dictionaries and byte serialization
//! of property-list values, built on the `plist` crate, with contracts that
//! the verifier checks.
//!
//! - `dictionary`: `add`, `append` and `with` for `plist::Dictionary`, and
//!   the laws that relate them.
//! - `to_bytes`: a value as an XML or a binary document.
//! - `date_range`: which dates of a binary document the XML form can print.
//! - `plist_api`: what is taken on trust about `plist`.

pub mod date_range;
pub mod dictionary;
pub mod plist_api;
pub mod to_bytes;

pub use dictionary::{DictionaryExt, DictionaryModel};
pub use to_bytes::{
    outcome_of, serialize, serialize_with, write_to, PlistFormat, SerializationError,
    SerializerOptions, ToBytes,
};

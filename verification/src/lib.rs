//! An RFC 4122 UUID value type.
//!
//! The identifier is an immutable 128-bit value stored as 16 bytes in
//! big-endian network order. The crate offers construction from canonical
//! text, raw bytes, a 128-bit integer or a pair of 64-bit integers, random
//! (version 4) generation, rendering to the canonical lowercase hyphenated
//! form, variant and version introspection, a total order, hashing, and the
//! well-known constant identifiers (nil, max and the RFC 4122 namespaces).

pub mod bytes_be;
pub mod error;
pub mod laws;
pub mod rand_v4;
pub mod text;
pub mod value;

pub use bytes_be::nat_of_bytes;
pub use bytes_be::pow256;
pub use error::UuidError;
pub use text::is_valid;
pub use text::parse_str;
pub use value::Uuid;
pub use value::Variant;

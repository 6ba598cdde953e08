//! RFC 4122 universally unique identifiers: a verified 128-bit value type
//! with multi-format construction and formatting, field decomposition,
//! variant/version classification, ordering, hashing, and the standard
//! generation algorithms.

pub mod construct;
pub mod generate;
pub mod laws;
pub mod model;
pub mod node;
pub mod text;
pub mod value;

pub use construct::UuidError;
pub use construct::UuidInput;
pub use generate::namespace_dns;
pub use generate::namespace_oid;
pub use generate::namespace_url;
pub use generate::namespace_x500;
pub use generate::uuid1;
pub use generate::uuid3;
pub use generate::uuid4;
pub use generate::uuid5;
pub use value::SafeUUID;
pub use value::Variant;
pub use value::UUID;

//! Schema-driven structural model builder for block entities.
//!
//! Given an ordered schema of named blocks, each with an optional ordered set
//! of properties (a property being an ordered, non-empty list of permitted
//! value strings), this library derives:
//!
//! - a closed type classification for every property's value domain,
//! - a packed mixed-radix integer encoding for every combination of a block's
//!   property values, a bijection onto a dense range,
//! - bidirectional conversion between typed property values and a
//!   string-keyed string map used as a serialization boundary, and
//! - identifier-naming transforms that keep synthesized type names
//!   collision-free and property values round-trippable.

pub mod codec;
pub mod encode;
pub mod infer;
pub mod model;
pub mod names;
pub mod serial;

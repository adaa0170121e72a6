//! Synthesis of Avro schemas from structural type descriptions.
//!
//! Given the shape of a host-language type (a record with named, typed
//! fields, or an enum with variants) together with per-type and per-field
//! override annotations, this crate computes the canonical Avro schema
//! tree for that type and renders it as Avro schema JSON.
//!
//! The crate is organised bottom-up:
//! - [`attributes`] holds the typed model of the recognised override
//!   annotations (`rename`, `namespace`, `aliases`, `default`, `doc`,
//!   `skip`) and the build errors;
//! - [`names`] computes the canonical `(namespace, name)` pair of a
//!   record or enum from its declaration path and its overrides;
//! - [`shape`] is the structural description of a host type that an
//!   external extractor hands in: a graph of record and enum definitions
//!   whose fields refer to primitives, containers, or other definitions
//!   by index;
//! - [`builder`] maps a shape to a schema tree, turning optional
//!   containers into null-first unions and terminating self- and
//!   mutually-referential type graphs by emitting a named reference for
//!   every definition already inlined earlier in the same document;
//! - [`render`] serialises a schema tree to its canonical JSON text.

pub mod attributes;
pub mod builder;
pub mod names;
pub mod render;
pub mod schema;
pub mod shape;

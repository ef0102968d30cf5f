//! A universal meta-interface for data structures: a type's manifest (fields,
//! layout, schema evolution), the model the `Ix` derive builds it from, and the
//! drivers that read it.
pub mod driver;
pub mod foreign;
pub mod jsonschema;
pub mod manifest;
pub mod migrate;
pub mod model;
pub mod postcard_driver;
pub mod serde_driver;
pub mod text;
pub mod toml_driver;

//! Generates Go boilerplate for Prometheus metrics from a schema of Rust
//! struct declarations: the schema is extracted from the declarations,
//! linked from a root struct to its metric groups, lowered to four lists of
//! Go statements, and rendered into a fixed Go source template.
pub mod text;
pub mod schema;
pub mod lower;
pub mod render;

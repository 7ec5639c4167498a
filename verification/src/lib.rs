//! Generator core for turning an OData conceptual schema (CSDL/EDM metadata)
//! into statically typed record declarations: primitive-type mapping,
//! navigation resolution, reflection descriptors, and a namespace module tree.

pub mod generate;
pub mod laws;
pub mod model;
pub mod output;
pub mod resolve;
pub mod synth;
pub mod text;
pub mod typemap;

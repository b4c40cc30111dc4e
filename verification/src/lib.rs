//! A dynamic, schema-less value model: a tagged union over null, booleans,
//! numbers, text, arrays and keyed objects, together with a verified
//! conversion protocol between it and statically typed host values, and
//! contracts for rendering it as JSON, YAML and XML text.

pub mod convert;
pub mod number;
pub mod render;
pub mod value;

//! A verified model of the value layer that PHP extensions written in Rust
//! work with: zval type tags, binary strings, symbol-table arrays, objects,
//! errors, and the builders that describe functions, classes and modules.

pub mod arrays;
pub mod boxes;
pub mod builder;
pub mod classes;
pub mod cmd;
pub mod constants;
pub mod context;
pub mod enums;
pub mod errors;
pub mod functions;
pub mod ini;
pub mod modules;
pub mod numeric;
pub mod objects;
pub mod output;
pub mod references;
pub mod resources;
pub mod strings;
pub mod types;
pub mod utils;
pub mod values;

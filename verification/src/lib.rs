//! Generates the Rust code by which a plugin talks to its host: definitions of the types that
//! cross the boundary between them, functions that call the host, and a macro that exports
//! functions to it.

pub mod bindings;
pub mod files;
pub mod formatting;
pub mod function_bindings;
pub mod function_laws;
pub mod functions;
pub mod keys;
pub mod laws;
pub mod order;
pub mod order_laws;
pub mod text;
pub mod text_laws;
pub mod type_bindings;
pub mod type_laws;
pub mod types;

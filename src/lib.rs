//! Accumulation of an OpenAPI v2 document from the routing elements that an
//! application registers: each element contributes its path, its operations
//! and the schema and security definitions it refers to, and the document
//! merges them in the order of registration.

pub mod assoc;
pub mod models;
pub mod document;
pub mod laws;
pub mod mountable;
pub mod builder;

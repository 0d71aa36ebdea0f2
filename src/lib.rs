//! Compiles a packet-protocol schema into resolved packet definitions:
//! wire ids, resolved field types and the imports each file needs.
pub mod document;
pub mod emit;
pub mod ir;
pub mod laws;
pub mod mappings;
pub mod naming;
pub mod schema;
pub mod transformer;

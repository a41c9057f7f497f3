//! The mapping store: the sole authority for persisted records, its error
//! taxonomy, and the document format records are persisted in.

pub mod codec;
pub mod error;
pub mod url;

//! The decision cores of the service's request handlers. The HTTP layer
//! around the library turns requests into the plain values these functions
//! take and maps their results onto responses.

pub mod healthz;
pub mod url;

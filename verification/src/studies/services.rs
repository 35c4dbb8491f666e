//! The studies services: search, ingest and retrieval logic composed from
//! the metadata store and the transport codec.

pub mod search;
pub mod store;
pub mod utils;

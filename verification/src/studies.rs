//! The studies service: models for the three entity levels, the metadata
//! store with its search and ingest logic, and the error taxonomy.

pub mod error;
pub mod models;
pub mod services;

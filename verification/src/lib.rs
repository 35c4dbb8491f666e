//! Core of a DICOMweb archive: search-query compilation, the
//! multipart/related transport codec, the metadata store with its ingest
//! pipeline, and frame extraction from encapsulated pixel data.

pub mod config;
pub mod frames;
pub mod sql;
pub mod studies;
pub mod utils;

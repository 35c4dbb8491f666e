//! Data-transfer objects for studies, series and instances: typed filter
//! structs, row shapes, and their compilation to parameterized SQL.

pub mod instance;
pub mod metadata;
pub mod query;
pub mod series;
pub mod study;

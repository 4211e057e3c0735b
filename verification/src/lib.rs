//! Column headers and cell text for CSV extracts of tabular game data.

pub mod driver;
pub mod error;
pub mod export;
pub mod formatter;
pub mod header_laws;
pub mod headers;
pub mod schema;
pub mod text;

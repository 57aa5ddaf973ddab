//! Ingestion core of a geocoding index builder: tile features are filtered,
//! located in a hierarchy of spatial cells and turned into searchable tokens.

pub mod cell;
pub mod error;
pub mod extract;
pub mod geometry;
pub mod ingest;
pub mod poi;
pub mod schema;
pub mod tags;
pub mod text;

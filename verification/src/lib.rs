//! Verified core of the GeoJSON sink of a CityGML conversion pipeline:
//! a flat, non-jagged geometry representation, its conversion into nested
//! GeoJSON coordinate lists, the assembly of GeoJSON features from a city
//! object, and the byte framing of a GeoJSON FeatureCollection.

pub mod geometry;

pub mod conversion;
pub mod sink;
pub mod pipeline;

//! Typed GeoJSON geometries and their mapping to and from generic JSON objects.
//!
//! A [`Geometry`] is one of seven shapes with an optional bounding box and an
//! optional coordinate reference system. [`Geometry::to_json_object`] writes
//! it as a JSON object and [`Geometry::from_object`] reads it back, refusing
//! any object that is not a geometry with a structured [`Error`].

pub mod coords;
pub mod error;
pub mod extract;
pub mod geometry;
pub mod json;
pub mod laws;
pub mod number;
pub mod text;

pub use coords::Position;
pub use error::Error;
pub use geometry::{Bbox, Crs, Geometry, LineStringType, PointType, PolygonType, Value};
pub use json::{Json, JsonObject};
pub use number::Number;

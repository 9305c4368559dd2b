//! Client-side model of a release-manifest mirror: typed release records and a
//! verified parser for the JSON manifest the mirror serves.

pub mod json;
pub mod mirror;
pub mod render;
pub mod text;

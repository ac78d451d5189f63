//! Recognition of marks on scanned answer sheets: fiducial geometry, page
//! matching, template-to-photograph coordinate mapping and fill classification.
pub mod numeric;
pub mod geometry;
pub mod config;
pub mod validate;
pub mod mapping;
pub mod raster;
pub mod matching;
pub mod fill;
pub mod refine;
pub mod models;
pub mod detect;
pub mod assist;
pub mod engine;
pub mod session;

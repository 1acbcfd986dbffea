//! Recognition of text in distorted images.
//!
//! The library holds the deterministic core of a captcha service: a raster
//! image with its pixel transforms, the greedy decoding of a score matrix
//! into text, the two solver variants, the registry that dispatches between
//! them, and the rules by which the service judges its requests. Contracts
//! are stated over mathematical models of the data and proved by Verus; the
//! pixel operations and encodings of outside crates stand behind contracts
//! that are believed.

pub mod api;
pub mod codec;
pub mod config;
pub mod error;
pub mod imaging;
pub mod models;
pub mod raster;
pub mod solvers;
pub mod text;

//! Core of a geospatial query-execution engine.
//!
//! The library models the value types and the algorithms of a streaming
//! raster/vector processing pipeline: spatio-temporal query rectangles,
//! raster tiles, columnar feature collections, the raster-vector join with
//! per-feature aggregation, chunk merging, statistics instrumentation and
//! query cancellation.  Spatial coordinates and pixel values are integers:
//! coordinates are positions in a fixed global grid, and pixel values are
//! raw integral samples.  Aggregated means are kept as exact fractions.
//! Features carry multi-point geometry; line and polygon geometry, and the
//! geometry-tagged dispatch over them, are outside this library's model.
//!
//! Everything that talks to the outside world (asynchronous sources, thread
//! pools, image encoding, the expression JIT, databases) stays outside; the
//! library receives plain values and returns plain values.

pub mod adapters;
pub mod aggregator;
pub mod collections;
pub mod compose;
pub mod context;
pub mod engine;
pub mod error;
pub mod expression;
pub mod join;
pub mod migrations;
pub mod primitives;
pub mod processor;
pub mod raster;
pub mod resolve;
pub mod search;
pub mod statistics;

//! Anonymising and normalising geotagged event paths.
//!
//! Every quantity is a fixed-point integer: angles count tenth-microdegrees,
//! lengths count millimetres (see [`units`]).

pub mod api;
pub mod args;
pub mod csv_utils;
pub mod densify;
pub mod error;
pub mod geometry;
pub mod pipeline;
pub mod save_strategy;
pub mod text;
pub mod units;

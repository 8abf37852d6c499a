//! Converts a race-waypoint spreadsheet, with a dataset file of waypoint-type defaults,
//! into the configuration document of a race-navigation application.
//!
//! The modules, leaves first: `text` (character helpers), `point_types` (the type
//! catalog and dataset parser), `coords` (coordinate cells), `sheet` (rows to
//! waypoints), `config` (the assembled document), `dialect` (the target text dialect)
//! and `pipeline` (the whole conversion).
pub mod config;
pub mod coords;
pub mod dialect;
pub mod error;
pub mod pipeline;
pub mod point_types;
pub mod sheet;
pub mod text;

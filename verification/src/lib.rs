//! Parsing of university timetables laid out as rectangular spreadsheet
//! grids into a strongly typed schedule tree.
//!
//! A workbook of exactly four named sheets is turned into four [`model::Course`]
//! values: course -> group -> (optionally) subgroup -> week of seven days ->
//! seven lesson slots per half-day.  The grid encodes all structure through
//! cell position, cell emptiness and a small textual grammar inside single
//! cells; the modules below recover it and report malformed sheets as typed
//! errors.

pub mod alisa;
pub mod cell;
pub mod doc;
pub mod errors;
pub mod grammar;
pub mod header;
pub mod model;
pub mod scan;
pub mod sheet;
pub mod text;

//! An in-memory viewer core for tabular spreadsheet data: a store of named
//! string grids, a single active sheet, a wrapping row-selection cursor, and
//! a pure table-layout function that turns the active sheet into a render
//! description with per-row display heights and a highlighted row.

pub mod app;
pub mod store;
pub mod text;
pub mod ui;

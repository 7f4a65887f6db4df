//! Verified extraction of a spreadsheet workbook's cell contents into an
//! in-memory structured representation: per-cell value text, inferred data
//! type and optional formula text, grouped by worksheet, with aggregate
//! statistics over the whole workbook.

pub mod cell;
pub mod numfmt;
pub mod reader;
pub mod sheet;
pub mod wb;

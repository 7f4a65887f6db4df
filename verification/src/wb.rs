//! The workbook-container capability: the narrow, trusted boundary to the
//! outside decoding and parallelism crates. Everything here either declares
//! an outside type or wraps one outside operation behind a contract; all
//! decisions about the decoded values are made by the verified code that
//! calls in.

use crate::cell::RawCell;
use crate::sheet::{sheet_wf, Sheet};
use calamine::{Data, Reader};
use rayon::iter::{IntoParallelRefIterator, ParallelIterator};
use vstd::prelude::*;

verus! {

#[verifier::external_type_specification]
#[verifier::external_body]
pub struct ExData(calamine::Data);

#[verifier::external_type_specification]
#[verifier::external_body]
#[verifier::reject_recursive_types(T)]
pub struct ExRange<T>(calamine::Range<T>);

/// The height of a decoded cell range's bounding box.
pub uninterp spec fn range_height(r: calamine::Range<calamine::Data>) -> nat;

/// The width of a decoded cell range's bounding box.
pub uninterp spec fn range_width(r: calamine::Range<calamine::Data>) -> nat;

/// The raw value a decoded cell range holds at a position of its bounding
/// box, in the library's raw-cell form.
pub uninterp spec fn range_raw_at(r: calamine::Range<calamine::Data>, row: int, col: int) -> RawCell;

/// Relies on calamine::Range::get_size: the (height, width) of the range's
/// bounding box.
#[verifier::external_body]
pub(crate) fn range_size(r: &calamine::Range<calamine::Data>) -> (s: (usize, usize))
    ensures
        s.0 as nat == range_height(*r),
        s.1 as nat == range_width(*r),
{
    r.get_size()
}

/// Relies on calamine::Range::get: the raw value at a position of the
/// bounding box, relative to the range's start. A position the backing
/// vector does not cover decodes as an empty cell. The match only converts,
/// one arm per variant: integers, text and booleans move as they are;
/// floating-point numbers, serial date-times and error markers are rendered
/// to text by their standard Display or Debug forms.
#[verifier::external_body]
pub(crate) fn range_cell(r: &calamine::Range<calamine::Data>, row: usize, col: usize) -> (c:
    RawCell)
    requires
        (row as nat) < range_height(*r),
        (col as nat) < range_width(*r),
    ensures
        c == range_raw_at(*r, row as int, col as int),
{
    match r.get((row, col)) {
        Some(Data::Int(i)) => RawCell::Int(*i),
        Some(Data::Float(f)) => RawCell::Float(f.to_string()),
        Some(Data::String(s)) => RawCell::Text(s.clone()),
        Some(Data::Bool(b)) => RawCell::Bool(*b),
        Some(Data::DateTime(dt)) => RawCell::DateTime(format!("{:?}", dt)),
        Some(Data::DateTimeIso(s)) => RawCell::DateTimeIso(s.clone()),
        Some(Data::DurationIso(s)) => RawCell::DurationIso(s.clone()),
        Some(Data::Error(e)) => RawCell::Error(format!("{:?}", e)),
        _ => RawCell::Empty,
    }
}

/// Relies on calamine::open_workbook and Reader::sheet_names: opens the
/// workbook container at the path and lists its sheet names in the
/// container's own order, or the open error rendered to text by its
/// Display form. The open and the listing stand in one body because the
/// opened handle's type cannot be named here; the handle never leaves it.
#[verifier::external_body]
pub(crate) fn list_sheet_names(path: &str) -> (r: Result<Vec<String>, String>) {
    let wb: Result<calamine::Xlsx<_>, _> = calamine::open_workbook(path);
    match wb {
        Ok(w) => Ok(w.sheet_names()),
        Err(e) => Err(e.to_string()),
    }
}

/// Relies on calamine::open_workbook and Reader::worksheet_range: re-opens
/// the workbook container at the path and decodes the named sheet's cell
/// range; `None` when the container cannot be opened or the range cannot be
/// decoded. The open and the decode stand in one body because the opened
/// handle's type cannot be named here; the handle never leaves it.
#[verifier::external_body]
pub(crate) fn open_sheet_range(path: &str, name: &str) -> (r: Option<
    calamine::Range<calamine::Data>,
>) {
    let wb: Result<calamine::Xlsx<_>, _> = calamine::open_workbook(path);
    match wb {
        Ok(mut w) => w.worksheet_range(name).ok(),
        Err(_) => None,
    }
}

/// Relies on rayon's par_iter, filter_map and collect: applies
/// `parse_one_sheet` to every name, one parallel task each, and collects
/// the successful results. Collecting into a vector keeps the input's
/// order: rayon concatenates each split's results in split order, whatever
/// order the tasks finished in. The closure only calls `parse_one_sheet`,
/// so each clause below restates rayon's collection behaviour over that
/// function's own verified contract.
#[verifier::external_body]
pub(crate) fn parse_sheets_parallel(path: &String, names: &Vec<String>) -> (r: Vec<Sheet>)
    ensures
        r@.len() <= names@.len(),
        forall|i: int| 0 <= i < r@.len() ==> sheet_wf((#[trigger] r@[i])@),
        crate::reader::names_in_order(
            r@.map_values(|s: Sheet| s@),
            names@.map_values(|n: String| n@),
        ),
{
    names.par_iter().filter_map(|n| crate::reader::parse_one_sheet(path, n)).collect()
}

} // verus!

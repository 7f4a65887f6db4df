//! The workbook reader: parses every worksheet of a workbook container into
//! the in-memory sheet collection and answers lookup and statistics queries
//! over it.

use crate::cell::{classify, Cell};
use crate::sheet::{formula_count, row_major_cells, sheet_wf, Sheet, SheetModel};
use crate::wb;
use vstd::arithmetic::div_mod::lemma_fundamental_div_mod_converse;
use vstd::prelude::*;

verus! {

/// The error `parse` surfaces: the workbook container could not be opened
/// or is not a recognized workbook format.
pub enum ParseError {
    /// An I/O-class open failure, with the underlying error's text.
    Io(String),
}

impl ParseError {
    /// The underlying error text.
    pub fn message(&self) -> (m: &str)
        ensures
            match self {
                ParseError::Io(s) => m@ == s@,
            },
    {
        match self {
            ParseError::Io(s) => s.as_str(),
        }
    }
}

/// Aggregate statistics over a parsed workbook.
pub struct WorkbookStats {
    /// How many sheets were parsed.
    pub sheet_count: usize,
    /// How many cells carry formula text, over all sheets.
    pub formula_count: usize,
    /// How many cells there are, over all sheets.
    pub total_cells: usize,
    /// The sheet names, mirroring the sheet collection's order.
    pub sheet_names: Vec<String>,
}

/// The cell count summed over a sheet collection.
pub open spec fn total_cells(sheets: Seq<SheetModel>) -> int
    decreases sheets.len(),
{
    if sheets.len() == 0 {
        0
    } else {
        total_cells(sheets.drop_last()) + sheets.last().cells.len()
    }
}

/// The formula-cell count summed over a sheet collection.
pub open spec fn total_formulas(sheets: Seq<SheetModel>) -> int
    decreases sheets.len(),
{
    if sheets.len() == 0 {
        0
    } else {
        total_formulas(sheets.drop_last()) + formula_count(sheets.last().cells)
    }
}

/// The first sheet of a collection carrying a given name, scanning in order.
pub open spec fn found_sheet(sheets: Seq<SheetModel>, name: Seq<char>) -> Option<SheetModel>
    decreases sheets.len(),
{
    if sheets.len() == 0 {
        None
    } else if sheets[0].name == name {
        Some(sheets[0])
    } else {
        found_sheet(sheets.drop_first(), name)
    }
}

/// A sheet found by name is an element of the scanned collection, so
/// whatever holds of every sheet — such as well-formedness after a
/// successful parse — holds of it.
pub proof fn lemma_found_sheet_is_element(sheets: Seq<SheetModel>, name: Seq<char>)
    requires
        found_sheet(sheets, name) is Some,
    ensures
        exists|i: int|
            0 <= i < sheets.len() && #[trigger] sheets[i] == found_sheet(sheets, name).unwrap(),
    decreases sheets.len(),
{
    if sheets.len() > 0 {
        if sheets[0].name == name {
            assert(sheets[0] == found_sheet(sheets, name).unwrap());
        } else {
            lemma_found_sheet_is_element(sheets.drop_first(), name);
            let j = choose|j: int|
                0 <= j < sheets.drop_first().len() && #[trigger] sheets.drop_first()[j]
                    == found_sheet(sheets.drop_first(), name).unwrap();
            assert(sheets[j + 1] == found_sheet(sheets, name).unwrap());
        }
    }
}

/// Whether a sheet collection's names are a subsequence of a name listing:
/// every sheet's name occurs in the listing, in the listing's order.
pub open spec fn names_in_order(sheets: Seq<SheetModel>, listing: Seq<Seq<char>>) -> bool
    decreases listing.len(),
{
    if sheets.len() == 0 {
        true
    } else if listing.len() == 0 {
        false
    } else if sheets[0].name == listing[0] {
        names_in_order(sheets.drop_first(), listing.drop_first())
    } else {
        names_in_order(sheets, listing.drop_first())
    }
}

/// Parses one decoded cell range into a sheet: iterates the bounding grid
/// row-major — rows in index order, then columns in index order — and
/// classifies the raw value at each position. Cannot fail: classification
/// is total over every raw value the range presents.
pub fn parse_sheet_range(name: String, range: &calamine::Range<calamine::Data>) -> (s: Sheet)
    ensures
        s@.name == name@,
        s@.row_count == wb::range_height(*range),
        s@.col_count == wb::range_width(*range),
        s@.cells == row_major_cells(
            wb::range_height(*range),
            wb::range_width(*range),
            (|r: int, c: int| wb::range_raw_at(*range, r, c)),
        ),
        sheet_wf(s@),
{
    let (h, w) = wb::range_size(range);
    let ghost target = row_major_cells(
        h as nat,
        w as nat,
        (|r: int, c: int| wb::range_raw_at(*range, r, c)),
    );
    proof {
        assert(forall|k: int|
            0 <= k < target.len() ==> #[trigger] target[k] == crate::cell::classified(
                (k / (w as int)) as nat,
                (k % (w as int)) as nat,
                wb::range_raw_at(*range, k / (w as int), k % (w as int)),
            ));
    }
    let mut cells: Vec<Cell> = Vec::new();
    let mut i: usize = 0;
    proof {
        assert(cells@.map_values(|c: Cell| c@) =~= target.take(0));
    }
    while i < h
        invariant
            i <= h,
            h as nat == wb::range_height(*range),
            w as nat == wb::range_width(*range),
            target.len() == (h as nat) * (w as nat),
            forall|k: int|
                0 <= k < target.len() ==> #[trigger] target[k] == crate::cell::classified(
                    (k / (w as int)) as nat,
                    (k % (w as int)) as nat,
                    wb::range_raw_at(*range, k / (w as int), k % (w as int)),
                ),
            cells@.map_values(|c: Cell| c@) == target.take((i as int) * (w as int)),
        decreases h - i,
    {
        let mut j: usize = 0;
        while j < w
            invariant
                i < h,
                j <= w,
                h as nat == wb::range_height(*range),
                w as nat == wb::range_width(*range),
                target.len() == (h as nat) * (w as nat),
                forall|k: int|
                    0 <= k < target.len() ==> #[trigger] target[k] == crate::cell::classified(
                        (k / (w as int)) as nat,
                        (k % (w as int)) as nat,
                        wb::range_raw_at(*range, k / (w as int), k % (w as int)),
                    ),
                cells@.map_values(|c: Cell| c@) == target.take(
                    (i as int) * (w as int) + (j as int),
                ),
            decreases w - j,
        {
            let ghost pre = cells@.map_values(|c: Cell| c@);
            let ghost k = (i as int) * (w as int) + (j as int);
            let raw = wb::range_cell(range, i, j);
            let cell = classify(i, j, &raw);
            cells.push(cell);
            proof {
                assert(0 <= k < (h as int) * (w as int)) by (nonlinear_arith)
                    requires
                        0 <= i < h,
                        0 <= j < w,
                        k == (i as int) * (w as int) + (j as int),
                ;
                lemma_fundamental_div_mod_converse(k, w as int, i as int, j as int);
                assert(target[k] == cell@);
                assert(target.take(k + 1) =~= target.take(k).push(target[k]));
                assert(cells@.map_values(|c: Cell| c@) =~= pre.push(cell@));
            }
            j += 1;
        }
        proof {
            assert((i as int) * (w as int) + (w as int) == ((i as int) + 1) * (w as int))
                by (nonlinear_arith);
        }
        i += 1;
    }
    proof {
        assert((i as int) * (w as int) == target.len());
        assert(target.take(target.len() as int) =~= target);
    }
    let s = Sheet { name, cells, row_count: h, col_count: w };
    proof {
        crate::sheet::lemma_row_major_wf(
            s@.name,
            h as nat,
            w as nat,
            (|r: int, c: int| wb::range_raw_at(*range, r, c)),
        );
    }
    s
}

/// Parses one named sheet of the workbook at a path: re-opens the container
/// independently, decodes the named sheet's range and parses it. `None`
/// exactly when the container or the range could not be decoded; a `Some`
/// result is a well-formed sheet carrying the given name.
pub fn parse_one_sheet(path: &String, name: &String) -> (r: Option<Sheet>)
    ensures
        r matches Some(s) ==> s@.name == name@ && sheet_wf(s@),
{
    match wb::open_sheet_range(path.as_str(), name.as_str()) {
        Some(range) => Some(parse_sheet_range(name.clone(), &range)),
        None => None,
    }
}

/// The mathematical model of a reader: its fixed path and the models of
/// its parsed sheets.
pub ghost struct ReaderModel {
    pub path: Seq<char>,
    pub sheets: Seq<SheetModel>,
}

/// Reads a workbook container into memory: parses every sheet on request
/// and answers queries over the parsed collection.
pub struct ExcelReader {
    path: String,
    sheets: Vec<Sheet>,
}

impl View for ExcelReader {
    type V = ReaderModel;

    closed spec fn view(&self) -> ReaderModel {
        ReaderModel { path: self.path@, sheets: self.sheets@.map_values(|s: Sheet| s@) }
    }
}

impl ExcelReader {
    /// Stores the path; touches no file. The sheet collection starts empty.
    pub fn new(path: String) -> (r: ExcelReader)
        ensures
            r@.path == path@,
            r@.sheets.len() == 0,
    {
        let r = ExcelReader { path, sheets: Vec::new() };
        proof {
            assert(r@.sheets =~= Seq::<SheetModel>::empty());
        }
        r
    }

    /// Parses the whole workbook: opens the container once to list the
    /// sheet names, parses each named sheet independently and in parallel,
    /// and replaces the stored collection with the results in name-listing
    /// order. Fails with an I/O-class error exactly when the container
    /// cannot be opened or is not a recognized workbook format; the stored
    /// collection is then left untouched. A sheet whose own decode fails is
    /// dropped silently. Every stored sheet is well-formed.
    pub fn parse(&mut self) -> (r: Result<(), ParseError>)
        ensures
            final(self)@.path == old(self)@.path,
            r is Err ==> final(self)@.sheets == old(self)@.sheets,
            r is Ok ==> forall|i: int|
                0 <= i < final(self)@.sheets.len() ==> sheet_wf(#[trigger] final(self)@.sheets[i]),
    {
        let names = match wb::list_sheet_names(self.path.as_str()) {
            Ok(names) => names,
            Err(message) => {
                return Err(ParseError::Io(message));
            },
        };
        let sheets = wb::parse_sheets_parallel(&self.path, &names);
        self.sheets = sheets;
        Ok(())
    }

    /// Returns a copy of the full ordered sheet collection; safe before
    /// `parse`, when it is empty.
    pub fn get_sheets(&self) -> (r: Vec<Sheet>)
        ensures
            r@.map_values(|s: Sheet| s@) == self@.sheets,
    {
        let n = self.sheets.len();
        let mut r: Vec<Sheet> = Vec::new();
        let mut i: usize = 0;
        while i < n
            invariant
                i <= n,
                n == self.sheets.len(),
                r@.map_values(|s: Sheet| s@) =~= self@.sheets.take(i as int),
            decreases n - i,
        {
            let ghost pre = r@.map_values(|s: Sheet| s@);
            r.push(self.sheets[i].clone());
            proof {
                assert(r@.map_values(|s: Sheet| s@) =~= pre.push(self.sheets@[i as int]@));
                assert(self@.sheets.take(i + 1) =~= self@.sheets.take(i as int).push(
                    self@.sheets[i as int],
                ));
            }
            i += 1;
        }
        proof {
            assert(self@.sheets.take(n as int) =~= self@.sheets);
        }
        r
    }

    /// Returns the first sheet with the given name, or `None` when no
    /// sheet carries it.
    pub fn get_sheet(&self, name: &str) -> (r: Option<Sheet>)
        ensures
            match r {
                Some(s) => found_sheet(self@.sheets, name@) == Some(s@),
                None => found_sheet(self@.sheets, name@) is None,
            },
    {
        let key = String::from_str(name);
        let n = self.sheets.len();
        let mut i: usize = 0;
        proof {
            assert(self@.sheets.skip(0) =~= self@.sheets);
        }
        while i < n
            invariant
                i <= n,
                n == self.sheets.len(),
                key@ == name@,
                found_sheet(self@.sheets, name@) == found_sheet(
                    self@.sheets.skip(i as int),
                    name@,
                ),
            decreases n - i,
        {
            proof {
                assert(self@.sheets.skip(i as int)[0] == self@.sheets[i as int]);
                assert(self@.sheets.skip(i as int).drop_first() =~= self@.sheets.skip(i + 1));
            }
            if self.sheets[i].name == key {
                return Some(self.sheets[i].clone());
            }
            i += 1;
        }
        None
    }

    /// The total number of formula-carrying cells across all sheets.
    pub fn get_formula_count(&self) -> (n: usize)
        requires
            total_formulas(self@.sheets) <= usize::MAX,
        ensures
            n as int == total_formulas(self@.sheets),
    {
        let len = self.sheets.len();
        let mut n: usize = 0;
        let mut i: usize = 0;
        proof {
            assert(self@.sheets.take(0) =~= Seq::<SheetModel>::empty());
        }
        while i < len
            invariant
                i <= len,
                len == self.sheets.len(),
                total_formulas(self@.sheets) <= usize::MAX,
                n as int == total_formulas(self@.sheets.take(i as int)),
            decreases len - i,
        {
            let cnt = self.sheets[i].get_formula_cells().len();
            proof {
                lemma_total_formulas_take_succ(self@.sheets, i as int);
                lemma_total_formulas_prefix_le(self@.sheets, i + 1);
                lemma_formula_count_nonneg_all(self@.sheets, i + 1);
            }
            n = n + cnt;
            i += 1;
        }
        proof {
            assert(self@.sheets.take(len as int) =~= self@.sheets);
        }
        n
    }

    /// A structured summary of the parsed workbook: sheet count, formula
    /// count, total cell count, and the sheet names in collection order.
    pub fn get_stats(&self) -> (st: WorkbookStats)
        requires
            total_cells(self@.sheets) <= usize::MAX,
        ensures
            st.sheet_count == self@.sheets.len(),
            st.formula_count as int == total_formulas(self@.sheets),
            st.total_cells as int == total_cells(self@.sheets),
            st.sheet_names@.map_values(|s: String| s@) == self@.sheets.map_values(
                |s: SheetModel| s.name,
            ),
    {
        proof {
            lemma_total_formulas_le_total_cells(self@.sheets);
        }
        let len = self.sheets.len();
        let formula_total = self.get_formula_count();
        let mut cell_total: usize = 0;
        let mut names: Vec<String> = Vec::new();
        let mut i: usize = 0;
        proof {
            assert(self@.sheets.take(0) =~= Seq::<SheetModel>::empty());
            assert(names@.map_values(|s: String| s@) =~= self@.sheets.take(0).map_values(
                |s: SheetModel| s.name,
            ));
        }
        while i < len
            invariant
                i <= len,
                len == self.sheets.len(),
                total_cells(self@.sheets) <= usize::MAX,
                cell_total as int == total_cells(self@.sheets.take(i as int)),
                names@.map_values(|s: String| s@) == self@.sheets.take(i as int).map_values(
                    |s: SheetModel| s.name,
                ),
            decreases len - i,
        {
            let ghost pre = names@.map_values(|s: String| s@);
            let cnt = self.sheets[i].cells.len();
            names.push(self.sheets[i].name.clone());
            proof {
                lemma_total_cells_take_succ(self@.sheets, i as int);
                lemma_total_cells_prefix_le(self@.sheets, i + 1);
                lemma_cells_len_nonneg_all(self@.sheets, i + 1);
                assert(names@.map_values(|s: String| s@) =~= pre.push(
                    self@.sheets[i as int].name,
                ));
                assert(self@.sheets.take(i + 1).map_values(|s: SheetModel| s.name)
                    =~= self@.sheets.take(i as int).map_values(|s: SheetModel| s.name).push(
                    self@.sheets[i as int].name,
                ));
            }
            cell_total = cell_total + cnt;
            i += 1;
        }
        proof {
            assert(self@.sheets.take(len as int) =~= self@.sheets);
            assert(names@.map_values(|s: String| s@) =~= self@.sheets.map_values(
                |s: SheetModel| s.name,
            ));
        }
        WorkbookStats {
            sheet_count: len,
            formula_count: formula_total,
            total_cells: cell_total,
            sheet_names: names,
        }
    }
}

/// Extending a prefix by one sheet adds that sheet's formula count.
proof fn lemma_total_formulas_take_succ(sheets: Seq<SheetModel>, i: int)
    requires
        0 <= i < sheets.len(),
    ensures
        total_formulas(sheets.take(i + 1)) == total_formulas(sheets.take(i)) + formula_count(
            sheets[i].cells,
        ),
{
    assert(sheets.take(i + 1).drop_last() =~= sheets.take(i));
    assert(sheets.take(i + 1).last() == sheets[i]);
}

/// Extending a prefix by one sheet adds that sheet's cell count.
proof fn lemma_total_cells_take_succ(sheets: Seq<SheetModel>, i: int)
    requires
        0 <= i < sheets.len(),
    ensures
        total_cells(sheets.take(i + 1)) == total_cells(sheets.take(i)) + sheets[i].cells.len(),
{
    assert(sheets.take(i + 1).drop_last() =~= sheets.take(i));
    assert(sheets.take(i + 1).last() == sheets[i]);
}

/// Needed only to keep prefix sums within range: nothing is negative.
proof fn lemma_formula_count_nonneg_all(sheets: Seq<SheetModel>, i: int)
    requires
        0 <= i <= sheets.len(),
    ensures
        total_formulas(sheets.take(i)) >= 0,
    decreases i,
{
    if i > 0 {
        lemma_total_formulas_take_succ(sheets, i - 1);
        lemma_formula_count_nonneg_all(sheets, i - 1);
    } else {
        assert(sheets.take(0) =~= Seq::<SheetModel>::empty());
    }
}

/// Needed only to keep prefix sums within range: nothing is negative.
proof fn lemma_cells_len_nonneg_all(sheets: Seq<SheetModel>, i: int)
    requires
        0 <= i <= sheets.len(),
    ensures
        total_cells(sheets.take(i)) >= 0,
    decreases i,
{
    if i > 0 {
        lemma_total_cells_take_succ(sheets, i - 1);
        lemma_cells_len_nonneg_all(sheets, i - 1);
    } else {
        assert(sheets.take(0) =~= Seq::<SheetModel>::empty());
    }
}

/// A prefix's formula total never exceeds the whole collection's.
proof fn lemma_total_formulas_prefix_le(sheets: Seq<SheetModel>, i: int)
    requires
        0 <= i <= sheets.len(),
    ensures
        total_formulas(sheets.take(i)) <= total_formulas(sheets),
    decreases sheets.len() - i,
{
    if i == sheets.len() {
        assert(sheets.take(i) =~= sheets);
    } else {
        lemma_total_formulas_take_succ(sheets, i);
        lemma_total_formulas_prefix_le(sheets, i + 1);
    }
}

/// A prefix's cell total never exceeds the whole collection's.
proof fn lemma_total_cells_prefix_le(sheets: Seq<SheetModel>, i: int)
    requires
        0 <= i <= sheets.len(),
    ensures
        total_cells(sheets.take(i)) <= total_cells(sheets),
    decreases sheets.len() - i,
{
    if i == sheets.len() {
        assert(sheets.take(i) =~= sheets);
    } else {
        lemma_total_cells_take_succ(sheets, i);
        lemma_total_cells_prefix_le(sheets, i + 1);
    }
}

/// A sheet cannot carry more formula cells than cells.
proof fn lemma_formula_count_le_len(cells: Seq<crate::cell::CellModel>)
    ensures
        0 <= formula_count(cells) <= cells.len(),
    decreases cells.len(),
{
    if cells.len() > 0 {
        lemma_formula_count_le_len(cells.drop_last());
    }
}

/// The formula total never exceeds the cell total.
pub proof fn lemma_total_formulas_le_total_cells(sheets: Seq<SheetModel>)
    ensures
        0 <= total_formulas(sheets) <= total_cells(sheets),
    decreases sheets.len(),
{
    if sheets.len() > 0 {
        lemma_total_formulas_le_total_cells(sheets.drop_last());
        lemma_formula_count_le_len(sheets.last().cells);
    }
}

} // verus!

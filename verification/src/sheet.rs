//! The sheet model: one worksheet's name, bounding dimensions and cells in
//! row-major order, with the well-formedness a parsed sheet satisfies and
//! verified lookup and formula-filter operations over it.

use crate::cell::{is_formula_text, Cell, CellModel, RawCell};
use vstd::arithmetic::div_mod::lemma_fundamental_div_mod_converse;
use vstd::prelude::*;

verus! {

/// One worksheet: its name, its cells in row-major order (outer iteration by
/// row, inner by column), and the bounding dimensions the container format
/// reports, which may exceed the count of non-empty cells.
pub struct Sheet {
    /// The worksheet's name, unique within a workbook.
    pub name: String,
    /// All cells of the bounding grid, row-major.
    pub cells: Vec<Cell>,
    /// Number of rows of the bounding grid.
    pub row_count: usize,
    /// Number of columns of the bounding grid.
    pub col_count: usize,
}

/// The mathematical model of a sheet.
pub ghost struct SheetModel {
    pub name: Seq<char>,
    pub cells: Seq<CellModel>,
    pub row_count: nat,
    pub col_count: nat,
}

impl View for Sheet {
    type V = SheetModel;

    open spec fn view(&self) -> SheetModel {
        SheetModel {
            name: self.name@,
            cells: self.cells@.map_values(|c: Cell| c@),
            row_count: self.row_count as nat,
            col_count: self.col_count as nat,
        }
    }
}

/// The cell sequence a grid of raw values classifies to: one cell per
/// position of the bounding grid, row-major, so position (r, c) stands at
/// index r * w + c.
pub open spec fn row_major_cells(h: nat, w: nat, raw_at: spec_fn(int, int) -> RawCell) -> Seq<
    CellModel,
> {
    Seq::new(
        h * w,
        |k: int|
            crate::cell::classified(
                (k / (w as int)) as nat,
                (k % (w as int)) as nat,
                raw_at(k / (w as int), k % (w as int)),
            ),
    )
}

/// What holds of every sheet the parser produces: the cell sequence covers
/// the bounding grid exactly, row-major, and every cell obeys the formula
/// rule — formula text is present exactly when the value begins with '='
/// and is then the value itself.
pub open spec fn sheet_wf(s: SheetModel) -> bool {
    &&& s.cells.len() == s.row_count * s.col_count
    &&& forall|k: int|
        0 <= k < s.cells.len() ==> {
            let c = #[trigger] s.cells[k];
            &&& c.row == k / (s.col_count as int)
            &&& c.col == k % (s.col_count as int)
            &&& (c.formula is Some <==> is_formula_text(c.value))
            &&& (c.formula matches Some(f) ==> f == c.value)
        }
}

/// A row-major classified grid is a well-formed sheet under any name and
/// the grid's own dimensions.
pub proof fn lemma_row_major_wf(name: Seq<char>, h: nat, w: nat, raw_at: spec_fn(int, int) -> RawCell)
    ensures
        sheet_wf(
            SheetModel {
                name,
                cells: row_major_cells(h, w, raw_at),
                row_count: h,
                col_count: w,
            },
        ),
{
    let cells = row_major_cells(h, w, raw_at);
    assert forall|k: int| 0 <= k < cells.len() implies {
        let c = #[trigger] cells[k];
        &&& c.row == k / (w as int)
        &&& c.col == k % (w as int)
        &&& (c.formula is Some <==> is_formula_text(c.value))
        &&& (c.formula matches Some(f) ==> f == c.value)
    } by {
        crate::cell::lemma_formula_iff_eq_prefix(
            (k / (w as int)) as nat,
            (k % (w as int)) as nat,
            raw_at(k / (w as int), k % (w as int)),
        );
        assert(w > 0) by (nonlinear_arith)
            requires
                0 <= k < h * w,
        ;
        assert(0 <= k / (w as int) && 0 <= k % (w as int)) by (nonlinear_arith)
            requires
                0 <= k,
                w > 0,
        ;
    }
}

/// Every position of the bounding grid appears in a well-formed sheet:
/// position (r, c) is held by the cell at index r * col_count + c.
pub proof fn lemma_grid_position_present(s: SheetModel, r: int, c: int)
    requires
        sheet_wf(s),
        0 <= r < s.row_count,
        0 <= c < s.col_count,
    ensures
        0 <= r * (s.col_count as int) + c < s.cells.len(),
        s.cells[r * (s.col_count as int) + c].row == r,
        s.cells[r * (s.col_count as int) + c].col == c,
{
    let w = s.col_count as int;
    let k = r * w + c;
    assert(0 <= k < s.row_count * s.col_count) by (nonlinear_arith)
        requires
            0 <= r < s.row_count,
            0 <= c < s.col_count,
            w == s.col_count,
            k == r * w + c,
    ;
    lemma_fundamental_div_mod_converse(k, w, r, c);
}

/// No position of the bounding grid appears twice in a well-formed sheet:
/// two distinct cell indices hold distinct positions.
pub proof fn lemma_grid_position_unique(s: SheetModel, k1: int, k2: int)
    requires
        sheet_wf(s),
        0 <= k1 < s.cells.len(),
        0 <= k2 < s.cells.len(),
        k1 != k2,
    ensures
        s.cells[k1].row != s.cells[k2].row || s.cells[k1].col != s.cells[k2].col,
{
    let w = s.col_count as int;
    if s.cells[k1].row == s.cells[k2].row && s.cells[k1].col == s.cells[k2].col {
        assert(w > 0) by (nonlinear_arith)
            requires
                0 <= k1 < s.row_count * s.col_count,
                w == s.col_count,
        ;
        assert(k1 == w * (k1 / w) + (k1 % w)) by {
            vstd::arithmetic::div_mod::lemma_fundamental_div_mod(k1, w);
        }
        assert(k2 == w * (k2 / w) + (k2 % w)) by {
            vstd::arithmetic::div_mod::lemma_fundamental_div_mod(k2, w);
        }
    }
}

/// The first cell holding a given grid position, scanning in sequence order.
pub open spec fn found_cell(cells: Seq<CellModel>, row: nat, col: nat) -> Option<CellModel>
    decreases cells.len(),
{
    if cells.len() == 0 {
        None
    } else if cells[0].row == row && cells[0].col == col {
        Some(cells[0])
    } else {
        found_cell(cells.drop_first(), row, col)
    }
}

/// A cell found by position is an element of the scanned sequence, so
/// whatever holds of every cell — such as the formula rule of a
/// well-formed sheet — holds of it.
pub proof fn lemma_found_cell_is_element(cells: Seq<CellModel>, row: nat, col: nat)
    requires
        found_cell(cells, row, col) is Some,
    ensures
        exists|i: int|
            0 <= i < cells.len() && #[trigger] cells[i] == found_cell(cells, row, col).unwrap(),
    decreases cells.len(),
{
    if cells.len() > 0 {
        if cells[0].row == row && cells[0].col == col {
            assert(cells[0] == found_cell(cells, row, col).unwrap());
        } else {
            lemma_found_cell_is_element(cells.drop_first(), row, col);
            let j = choose|j: int|
                0 <= j < cells.drop_first().len() && #[trigger] cells.drop_first()[j] == found_cell(
                    cells.drop_first(),
                    row,
                    col,
                ).unwrap();
            assert(cells[j + 1] == found_cell(cells, row, col).unwrap());
        }
    }
}

/// The cells that carry formula text, in sequence order.
pub open spec fn formula_cells(cells: Seq<CellModel>) -> Seq<CellModel>
    decreases cells.len(),
{
    if cells.len() == 0 {
        Seq::empty()
    } else {
        formula_cells(cells.drop_last()) + (if cells.last().formula is Some {
            seq![cells.last()]
        } else {
            Seq::empty()
        })
    }
}

/// How many cells carry formula text.
pub open spec fn formula_count(cells: Seq<CellModel>) -> int {
    formula_cells(cells).len() as int
}

impl Sheet {
    /// Returns the first cell at the given position, or `None` when the
    /// position lies outside every cell of the sheet.
    pub fn get_cell(&self, row: usize, col: usize) -> (r: Option<Cell>)
        ensures
            match r {
                Some(c) => found_cell(self@.cells, row as nat, col as nat) == Some(c@),
                None => found_cell(self@.cells, row as nat, col as nat) is None,
            },
    {
        let n = self.cells.len();
        let mut i: usize = 0;
        proof {
            assert(self@.cells.skip(0) =~= self@.cells);
        }
        while i < n
            invariant
                i <= n,
                n == self.cells.len(),
                found_cell(self@.cells, row as nat, col as nat) == found_cell(
                    self@.cells.skip(i as int),
                    row as nat,
                    col as nat,
                ),
            decreases n - i,
        {
            let c = &self.cells[i];
            if c.row == row && c.col == col {
                assert(self@.cells.skip(i as int)[0] == self@.cells[i as int]);
                return Some(c.clone());
            }
            proof {
                assert(self@.cells.skip(i as int)[0] == self@.cells[i as int]);
                assert(self@.cells.skip(i as int).drop_first() =~= self@.cells.skip(i + 1));
            }
            i += 1;
        }
        None
    }

    /// Returns copies of all cells that carry formula text, in order.
    pub fn get_formula_cells(&self) -> (r: Vec<Cell>)
        ensures
            r@.map_values(|c: Cell| c@) == formula_cells(self@.cells),
            r@.len() as int == formula_count(self@.cells),
    {
        let n = self.cells.len();
        let mut out: Vec<Cell> = Vec::new();
        let mut i: usize = 0;
        while i < n
            invariant
                i <= n,
                n == self.cells.len(),
                out@.map_values(|c: Cell| c@) == formula_cells(self@.cells.take(i as int)),
            decreases n - i,
        {
            let ghost pre = out@.map_values(|c: Cell| c@);
            let c = &self.cells[i];
            if c.formula.is_some() {
                out.push(c.clone());
            }
            proof {
                assert(self@.cells.take(i + 1).drop_last() =~= self@.cells.take(i as int));
                assert(self@.cells.take(i + 1).last() == self@.cells[i as int]);
                if self@.cells[i as int].formula is Some {
                    assert(out@.map_values(|c: Cell| c@) =~= pre + seq![self@.cells[i as int]]);
                } else {
                    assert(out@.map_values(|c: Cell| c@) =~= pre);
                    assert(formula_cells(self@.cells.take(i + 1)) =~= formula_cells(
                        self@.cells.take(i as int),
                    ));
                }
            }
            i += 1;
        }
        proof {
            assert(self@.cells.take(n as int) =~= self@.cells);
        }
        out
    }
}

impl Clone for Sheet {
    /// A cloned sheet has the same model as the original.
    fn clone(&self) -> (s: Self)
        ensures
            s@ == self@,
    {
        let n = self.cells.len();
        let mut cells: Vec<Cell> = Vec::new();
        let mut i: usize = 0;
        while i < n
            invariant
                i <= n,
                n == self.cells.len(),
                cells@ =~= self.cells@.take(i as int),
            decreases n - i,
        {
            cells.push(self.cells[i].clone());
            i += 1;
        }
        proof {
            assert(cells@ =~= self.cells@);
        }
        Sheet {
            name: self.name.clone(),
            cells,
            row_count: self.row_count,
            col_count: self.col_count,
        }
    }
}

} // verus!

//! The cell model: the raw decoded value a worksheet position holds, and the
//! classified cell built from it — position, rendered value text, inferred
//! data-type tag, and formula text when the value begins with '='.

use crate::numfmt::{i64_str, int_str};
use vstd::prelude::*;

verus! {

/// A raw worksheet cell value, one variant per value kind the container
/// format distinguishes. Values that only the decoding layer can render
/// (floating-point numbers, serial date-times, error markers) arrive here
/// already turned into their textual form; the classification logic below
/// never changes that text, it only chooses what to do with it.
pub enum RawCell {
    /// A signed integer.
    Int(i64),
    /// A floating-point number, as its standard decimal rendering.
    Float(String),
    /// A text cell.
    Text(String),
    /// A boolean.
    Bool(bool),
    /// A serial date or time, as its structural (debug) rendering.
    DateTime(String),
    /// A date, time or date-time in ISO 8601 form, verbatim.
    DateTimeIso(String),
    /// A duration in ISO 8601 form, verbatim.
    DurationIso(String),
    /// An error marker, as its debug text without the leading '#'.
    Error(String),
    /// An empty cell.
    Empty,
}

/// The canonical string rendering of a raw value: integers in decimal,
/// booleans as "true"/"false", error markers prefixed with '#', empty cells
/// as the empty string, everything else passed through verbatim.
pub open spec fn rendered(raw: RawCell) -> Seq<char> {
    match raw {
        RawCell::Int(i) => int_str(i as int),
        RawCell::Float(s) => s@,
        RawCell::Text(s) => s@,
        RawCell::Bool(b) => if b {
            "true"@
        } else {
            "false"@
        },
        RawCell::DateTime(s) => s@,
        RawCell::DateTimeIso(s) => s@,
        RawCell::DurationIso(s) => s@,
        RawCell::Error(s) => seq!['#'] + s@,
        RawCell::Empty => Seq::empty(),
    }
}

/// The data-type tag of a raw value: the name of its variant.
pub open spec fn type_tag(raw: RawCell) -> Seq<char> {
    match raw {
        RawCell::Int(_) => "int"@,
        RawCell::Float(_) => "float"@,
        RawCell::Text(_) => "string"@,
        RawCell::Bool(_) => "bool"@,
        RawCell::DateTime(_) => "datetime"@,
        RawCell::DateTimeIso(_) => "datetime_iso"@,
        RawCell::DurationIso(_) => "duration_iso"@,
        RawCell::Error(_) => "error"@,
        RawCell::Empty => "empty"@,
    }
}

/// Whether a rendered value counts as formula text: it begins with '='.
/// Detection is purely textual, so a text cell whose content happens to
/// start with '=' is indistinguishable from a true formula cell.
pub open spec fn is_formula_text(v: Seq<char>) -> bool {
    v.len() > 0 && v[0] == '='
}

/// One classified cell: its grid position, the string rendering of its
/// decoded value, the formula text when that rendering begins with '=',
/// and the data-type tag of the decoded value's variant.
pub struct Cell {
    /// 0-based row of the cell within its sheet's bounding grid.
    pub row: usize,
    /// 0-based column of the cell within its sheet's bounding grid.
    pub col: usize,
    /// The canonical string rendering of the decoded value.
    pub value: String,
    /// `Some(value)` exactly when `value` begins with '='.
    pub formula: Option<String>,
    /// The data-type tag: one of "int", "float", "string", "bool",
    /// "datetime", "datetime_iso", "duration_iso", "error", "empty".
    pub data_type: String,
}

/// The mathematical model of a cell.
pub ghost struct CellModel {
    pub row: nat,
    pub col: nat,
    pub value: Seq<char>,
    pub formula: Option<Seq<char>>,
    pub data_type: Seq<char>,
}

impl View for Cell {
    type V = CellModel;

    open spec fn view(&self) -> CellModel {
        CellModel {
            row: self.row as nat,
            col: self.col as nat,
            value: self.value@,
            formula: match self.formula {
                Some(f) => Some(f@),
                None => None,
            },
            data_type: self.data_type@,
        }
    }
}

/// The cell that classification yields for a raw value at a position.
pub open spec fn classified(row: nat, col: nat, raw: RawCell) -> CellModel {
    CellModel {
        row,
        col,
        value: rendered(raw),
        formula: if is_formula_text(rendered(raw)) {
            Some(rendered(raw))
        } else {
            None
        },
        data_type: type_tag(raw),
    }
}

/// A classified cell carries formula text exactly when its rendered value
/// begins with '=', the formula text is the value itself, and the data-type
/// tag depends on the raw variant alone, never on the formula test.
pub proof fn lemma_formula_iff_eq_prefix(row: nat, col: nat, raw: RawCell)
    ensures
        classified(row, col, raw).formula is Some <==> is_formula_text(
            classified(row, col, raw).value,
        ),
        classified(row, col, raw).formula matches Some(f) ==> f == classified(
            row,
            col,
            raw,
        ).value,
        classified(row, col, raw).data_type == type_tag(raw),
{
}

/// Renders a raw value to its canonical string form.
pub fn render_value(raw: &RawCell) -> (v: String)
    ensures
        v@ == rendered(*raw),
{
    match raw {
        RawCell::Int(i) => i64_str(*i),
        RawCell::Float(s) => s.clone(),
        RawCell::Text(s) => s.clone(),
        RawCell::Bool(b) => if *b {
            String::from_str("true")
        } else {
            String::from_str("false")
        },
        RawCell::DateTime(s) => s.clone(),
        RawCell::DateTimeIso(s) => s.clone(),
        RawCell::DurationIso(s) => s.clone(),
        RawCell::Error(s) => {
            let mut v = String::from_str("#");
            v.append(s.as_str());
            proof {
                reveal_strlit("#");
                assert(v@ =~= seq!['#'] + s@);
            }
            v
        },
        RawCell::Empty => String::new(),
    }
}

/// The data-type tag of a raw value, as a string.
pub fn type_tag_str(raw: &RawCell) -> (t: String)
    ensures
        t@ == type_tag(*raw),
{
    match raw {
        RawCell::Int(_) => String::from_str("int"),
        RawCell::Float(_) => String::from_str("float"),
        RawCell::Text(_) => String::from_str("string"),
        RawCell::Bool(_) => String::from_str("bool"),
        RawCell::DateTime(_) => String::from_str("datetime"),
        RawCell::DateTimeIso(_) => String::from_str("datetime_iso"),
        RawCell::DurationIso(_) => String::from_str("duration_iso"),
        RawCell::Error(_) => String::from_str("error"),
        RawCell::Empty => String::from_str("empty"),
    }
}

/// Whether a string begins with '='.
fn starts_with_eq(s: &String) -> (r: bool)
    ensures
        r == is_formula_text(s@),
{
    let st = s.as_str();
    if st.unicode_len() == 0 {
        false
    } else {
        let c = st.get_char(0);
        c == '='
    }
}

/// Classifies one raw value at a grid position into a cell: renders the
/// value, detects formula text by the '=' prefix, and tags the data type.
pub fn classify(row: usize, col: usize, raw: &RawCell) -> (c: Cell)
    ensures
        c@ == classified(row as nat, col as nat, *raw),
{
    let value = render_value(raw);
    let formula = if starts_with_eq(&value) {
        Some(value.clone())
    } else {
        None
    };
    let data_type = type_tag_str(raw);
    Cell { row, col, value, formula, data_type }
}

impl Clone for Cell {
    /// A cloned cell is equal to the original.
    fn clone(&self) -> (c: Self)
        ensures
            c == *self,
    {
        Cell {
            row: self.row,
            col: self.col,
            value: self.value.clone(),
            formula: match &self.formula {
                Some(f) => Some(f.clone()),
                None => None,
            },
            data_type: self.data_type.clone(),
        }
    }
}

} // verus!

use excel_reader::cell::{classify, Cell, RawCell};
use excel_reader::sheet::Sheet;

#[test]
fn test_cell_creation() {
    let cell = Cell {
        row: 0,
        col: 0,
        value: "100".to_string(),
        formula: Some("=A1+B1".to_string()),
        data_type: "int".to_string(),
    };
    assert_eq!(cell.row, 0);
    assert_eq!(cell.col, 0);
}

#[test]
fn classify_int() {
    let c = classify(1, 2, &RawCell::Int(100));
    assert_eq!(c.row, 1);
    assert_eq!(c.col, 2);
    assert_eq!(c.value, "100");
    assert_eq!(c.data_type, "int");
    assert!(c.formula.is_none());
}

#[test]
fn classify_negative_int() {
    let c = classify(0, 0, &RawCell::Int(-42));
    assert_eq!(c.value, "-42");
    let c = classify(0, 0, &RawCell::Int(i64::MIN));
    assert_eq!(c.value, "-9223372036854775808");
    let c = classify(0, 0, &RawCell::Int(i64::MAX));
    assert_eq!(c.value, "9223372036854775807");
    let c = classify(0, 0, &RawCell::Int(0));
    assert_eq!(c.value, "0");
}

#[test]
fn classify_float_passthrough() {
    let c = classify(0, 0, &RawCell::Float("3.5".to_string()));
    assert_eq!(c.value, "3.5");
    assert_eq!(c.data_type, "float");
    assert!(c.formula.is_none());
}

#[test]
fn classify_bool() {
    let c = classify(0, 0, &RawCell::Bool(true));
    assert_eq!(c.value, "true");
    assert_eq!(c.data_type, "bool");
    let c = classify(0, 0, &RawCell::Bool(false));
    assert_eq!(c.value, "false");
}

#[test]
fn classify_text() {
    let c = classify(0, 0, &RawCell::Text("hello".to_string()));
    assert_eq!(c.value, "hello");
    assert_eq!(c.data_type, "string");
    assert!(c.formula.is_none());
}

#[test]
fn classify_formula_text() {
    let c = classify(0, 0, &RawCell::Text("=A1+1".to_string()));
    assert_eq!(c.value, "=A1+1");
    assert_eq!(c.formula, Some("=A1+1".to_string()));
    assert_eq!(c.data_type, "string");
}

#[test]
fn classify_temporal_passthrough() {
    let c = classify(0, 0, &RawCell::DateTimeIso("2021-03-04T05:06:07".to_string()));
    assert_eq!(c.value, "2021-03-04T05:06:07");
    assert_eq!(c.data_type, "datetime_iso");
    let c = classify(0, 0, &RawCell::DurationIso("PT1H30M".to_string()));
    assert_eq!(c.value, "PT1H30M");
    assert_eq!(c.data_type, "duration_iso");
    let c = classify(0, 0, &RawCell::DateTime("ExcelDateTime(44256.5)".to_string()));
    assert_eq!(c.data_type, "datetime");
}

#[test]
fn classify_error_marker() {
    let c = classify(0, 0, &RawCell::Error("Div0".to_string()));
    assert_eq!(c.value, "#Div0");
    assert_eq!(c.data_type, "error");
    assert!(c.formula.is_none());
}

#[test]
fn classify_empty() {
    let c = classify(0, 0, &RawCell::Empty);
    assert_eq!(c.value, "");
    assert_eq!(c.data_type, "empty");
    assert!(c.formula.is_none());
}

#[test]
fn formula_iff_value_starts_with_eq() {
    let raws = vec![
        RawCell::Int(7),
        RawCell::Int(-7),
        RawCell::Text("=SUM(A1:A2)".to_string()),
        RawCell::Text("= leading".to_string()),
        RawCell::Text("x=1".to_string()),
        RawCell::Float("=not really a float".to_string()),
        RawCell::Bool(true),
        RawCell::Error("Ref".to_string()),
        RawCell::Empty,
    ];
    for (i, raw) in raws.iter().enumerate() {
        let c = classify(i, 0, raw);
        assert_eq!(c.formula.is_some(), c.value.starts_with('='));
        if let Some(f) = &c.formula {
            assert_eq!(*f, c.value);
        }
    }
}

fn sample_sheet() -> Sheet {
    let cells = vec![
        classify(0, 0, &RawCell::Int(1)),
        classify(0, 1, &RawCell::Text("=A1".to_string())),
        classify(1, 0, &RawCell::Empty),
        classify(1, 1, &RawCell::Text("=B1".to_string())),
    ];
    Sheet { name: "Grid".to_string(), cells, row_count: 2, col_count: 2 }
}

#[test]
fn sheet_get_cell_by_position() {
    let s = sample_sheet();
    let c = s.get_cell(0, 1).unwrap();
    assert_eq!(c.value, "=A1");
    let c = s.get_cell(1, 0).unwrap();
    assert_eq!(c.data_type, "empty");
    assert!(s.get_cell(2, 0).is_none());
    assert!(s.get_cell(0, 2).is_none());
}

#[test]
fn sheet_formula_cells_in_order() {
    let s = sample_sheet();
    let f = s.get_formula_cells();
    assert_eq!(f.len(), 2);
    assert_eq!(f[0].value, "=A1");
    assert_eq!(f[1].value, "=B1");
}

#[test]
fn sheet_clone_preserves_content() {
    let s = sample_sheet();
    let t = s.clone();
    assert_eq!(t.name, s.name);
    assert_eq!(t.row_count, s.row_count);
    assert_eq!(t.col_count, s.col_count);
    assert_eq!(t.cells.len(), s.cells.len());
    for (a, b) in s.cells.iter().zip(t.cells.iter()) {
        assert_eq!(a.row, b.row);
        assert_eq!(a.col, b.col);
        assert_eq!(a.value, b.value);
        assert_eq!(a.formula, b.formula);
        assert_eq!(a.data_type, b.data_type);
    }
}

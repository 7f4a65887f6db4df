use excel_reader::reader::{parse_one_sheet, ExcelReader};
use rust_xlsxwriter::Workbook;
use std::io::Write;

fn write_temp(bytes: &[u8]) -> tempfile::NamedTempFile {
    let mut tf = tempfile::Builder::new().suffix(".xlsx").tempfile().unwrap();
    tf.write_all(bytes).unwrap();
    tf.flush().unwrap();
    tf
}

fn save_to_temp(wb: &mut Workbook) -> tempfile::NamedTempFile {
    let bytes = wb.save_to_buffer().unwrap();
    write_temp(&bytes)
}

/// Two sheets: "Sheet1" with a 2x2 grid (number, text, float, formula-like
/// text) and "Sheet2" left empty.
fn two_sheet_workbook() -> tempfile::NamedTempFile {
    let mut wb = Workbook::new();
    let ws = wb.add_worksheet();
    ws.write_number(0, 0, 10).unwrap();
    ws.write_string(0, 1, "hello").unwrap();
    ws.write_number(1, 0, 3.5).unwrap();
    ws.write_string(1, 1, "=A1+1").unwrap();
    wb.add_worksheet();
    save_to_temp(&mut wb)
}

fn reader_for(tf: &tempfile::NamedTempFile) -> ExcelReader {
    ExcelReader::new(tf.path().to_str().unwrap().to_string())
}

#[test]
fn two_sheet_scenario() {
    let tf = two_sheet_workbook();
    let mut reader = reader_for(&tf);
    assert!(reader.parse().is_ok());

    let sheets = reader.get_sheets();
    assert_eq!(sheets.len(), 2);

    let s1 = reader.get_sheet("Sheet1").unwrap();
    assert_eq!(s1.row_count, 2);
    assert_eq!(s1.col_count, 2);
    assert_eq!(s1.cells.len(), 4);

    let c00 = s1.get_cell(0, 0).unwrap();
    assert_eq!(c00.value, "10");
    assert!(c00.formula.is_none());

    let c01 = s1.get_cell(0, 1).unwrap();
    assert_eq!(c01.value, "hello");
    assert_eq!(c01.data_type, "string");
    assert!(c01.formula.is_none());

    let c10 = s1.get_cell(1, 0).unwrap();
    assert_eq!(c10.value, "3.5");
    assert_eq!(c10.data_type, "float");

    let c11 = s1.get_cell(1, 1).unwrap();
    assert_eq!(c11.value, "=A1+1");
    assert_eq!(c11.formula, Some("=A1+1".to_string()));
    assert_eq!(c11.data_type, "string");

    assert_eq!(reader.get_formula_count(), 1);

    let s2 = reader.get_sheet("Sheet2").unwrap();
    assert_eq!(s2.cells.len(), 0);
    assert_eq!(s2.row_count, 0);
    assert_eq!(s2.col_count, 0);

    assert!(reader.get_sheet("Sheet3").is_none());
}

#[test]
fn grid_positions_each_exactly_once() {
    let mut wb = Workbook::new();
    let ws = wb.add_worksheet();
    for r in 0..3u32 {
        for c in 0..2u16 {
            ws.write_string(r, c, format!("r{}c{}", r, c).as_str()).unwrap();
        }
    }
    let tf = save_to_temp(&mut wb);
    let mut reader = reader_for(&tf);
    assert!(reader.parse().is_ok());

    let s = reader.get_sheet("Sheet1").unwrap();
    assert_eq!(s.row_count, 3);
    assert_eq!(s.col_count, 2);
    assert_eq!(s.cells.len(), 6);
    let mut seen = vec![false; 6];
    for cell in &s.cells {
        assert!(cell.row < 3 && cell.col < 2);
        let idx = cell.row * 2 + cell.col;
        assert!(!seen[idx], "position appeared twice");
        seen[idx] = true;
    }
    assert!(seen.iter().all(|b| *b));
}

#[test]
fn stats_match_sheet_collection() {
    let tf = two_sheet_workbook();
    let mut reader = reader_for(&tf);
    assert!(reader.parse().is_ok());

    let sheets = reader.get_sheets();
    let stats = reader.get_stats();
    assert_eq!(stats.sheet_count, sheets.len());
    let cell_sum: usize = sheets.iter().map(|s| s.cells.len()).sum();
    assert_eq!(stats.total_cells, cell_sum);
    let formula_sum: usize = sheets.iter().map(|s| s.get_formula_cells().len()).sum();
    assert_eq!(stats.formula_count, formula_sum);
    assert_eq!(stats.formula_count, reader.get_formula_count());
    let names: Vec<String> = sheets.iter().map(|s| s.name.clone()).collect();
    assert_eq!(stats.sheet_names, names);
    assert_eq!(stats.sheet_names, vec!["Sheet1".to_string(), "Sheet2".to_string()]);

    // Repeated queries without re-parsing answer the same.
    assert_eq!(reader.get_formula_count(), reader.get_formula_count());
    let again = reader.get_stats();
    assert_eq!(again.total_cells, stats.total_cells);
    assert_eq!(again.formula_count, stats.formula_count);
}

#[test]
fn parse_twice_is_deterministic() {
    let tf = two_sheet_workbook();
    let mut reader = reader_for(&tf);
    assert!(reader.parse().is_ok());
    let first = reader.get_sheets();
    assert!(reader.parse().is_ok());
    let second = reader.get_sheets();

    assert_eq!(first.len(), second.len());
    for (a, b) in first.iter().zip(second.iter()) {
        assert_eq!(a.name, b.name);
        assert_eq!(a.row_count, b.row_count);
        assert_eq!(a.col_count, b.col_count);
        assert_eq!(a.cells.len(), b.cells.len());
        for (x, y) in a.cells.iter().zip(b.cells.iter()) {
            assert_eq!(x.row, y.row);
            assert_eq!(x.col, y.col);
            assert_eq!(x.value, y.value);
            assert_eq!(x.formula, y.formula);
            assert_eq!(x.data_type, y.data_type);
        }
    }
}

#[test]
fn missing_path_fails_and_leaves_no_sheets() {
    let mut reader = ExcelReader::new("no/such/directory/missing.xlsx".to_string());
    let r = reader.parse();
    assert!(r.is_err());
    match r {
        Err(e) => assert!(!e.message().is_empty()),
        Ok(()) => unreachable!(),
    }
    assert!(reader.get_sheets().is_empty());
    assert_eq!(reader.get_formula_count(), 0);
    let stats = reader.get_stats();
    assert_eq!(stats.sheet_count, 0);
    assert_eq!(stats.total_cells, 0);
    assert!(stats.sheet_names.is_empty());
}

/// Rebuilds the workbook archive with one sheet's XML truncated so that its
/// range cannot be decoded.
fn corrupt_entry(bytes: &[u8], victim: &str) -> Vec<u8> {
    let mut archive = zip::ZipArchive::new(std::io::Cursor::new(bytes.to_vec())).unwrap();
    let mut out = std::io::Cursor::new(Vec::new());
    let mut writer = zip::ZipWriter::new(&mut out);
    for i in 0..archive.len() {
        let mut entry = archive.by_index(i).unwrap();
        let name = entry.name().to_string();
        let mut data = Vec::new();
        std::io::Read::read_to_end(&mut entry, &mut data).unwrap();
        if name == victim {
            data = b"<worksheet><sheetData>".to_vec();
        }
        writer.start_file(name, zip::write::SimpleFileOptions::default()).unwrap();
        writer.write_all(&data).unwrap();
    }
    writer.finish().unwrap();
    out.into_inner()
}

#[test]
fn corrupted_sheet_is_dropped_silently() {
    let mut wb = Workbook::new();
    wb.add_worksheet().write_string(0, 0, "a").unwrap();
    wb.add_worksheet().write_string(0, 0, "b").unwrap();
    wb.add_worksheet().write_string(0, 0, "c").unwrap();
    let bytes = wb.save_to_buffer().unwrap();
    let bad = corrupt_entry(&bytes, "xl/worksheets/sheet2.xml");
    let tf = write_temp(&bad);

    let mut reader = reader_for(&tf);
    assert!(reader.parse().is_ok());
    let stats = reader.get_stats();
    assert_eq!(stats.sheet_count, 2);
    assert_eq!(stats.sheet_names, vec!["Sheet1".to_string(), "Sheet3".to_string()]);
    assert!(reader.get_sheet("Sheet2").is_none());
    assert_eq!(reader.get_sheet("Sheet1").unwrap().cells.len(), 1);
    assert_eq!(reader.get_sheet("Sheet3").unwrap().cells.len(), 1);
}

#[test]
fn parse_one_sheet_by_name() {
    let tf = two_sheet_workbook();
    let path = tf.path().to_str().unwrap().to_string();
    let s = parse_one_sheet(&path, &"Sheet1".to_string()).unwrap();
    assert_eq!(s.name, "Sheet1");
    assert_eq!(s.cells.len(), 4);
    assert!(parse_one_sheet(&path, &"NoSuchSheet".to_string()).is_none());
    assert!(parse_one_sheet(&"not-a-real-file.xlsx".to_string(), &"Sheet1".to_string()).is_none());
}

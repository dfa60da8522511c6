use duration_table::cell::{excel_cell_to_string_seconds, Cell};
use duration_table::error::ParseError;
use duration_table::reader::{build_table, parse_csv, parse_excel, table_from_sheet, WorkbookRead};
use duration_table::table::{ParsedFileResult, RowData};

fn texts(fields: &[&str]) -> Vec<String> {
    fields.iter().map(|s| s.to_string()).collect()
}

fn row(fields: &[&str]) -> RowData {
    RowData { fields: texts(fields) }
}

#[test]
fn delimited_text_with_a_duration_column() {
    let table = parse_csv(b"id,elapsed\n1,01:02:03\n2,00:00:00.250\n").unwrap();
    assert_eq!(table.headers, texts(&["id", "elapsed"]));
    assert_eq!(table.rows, vec![row(&["1", "3723.000000"]), row(&["2", "0.250000"])]);
}

#[test]
fn delimited_text_counts_header_columns_and_records() {
    let table = parse_csv(b"a,b,c\n1,2,3\n4,5,6\n7,8,9\n10,11,12\n").unwrap();
    assert_eq!(table.headers.len(), 3);
    assert_eq!(table.rows.len(), 4);
    assert_eq!(table.rows[3], row(&["10", "11", "12"]));
}

#[test]
fn delimited_text_with_quotes() {
    let table = parse_csv(b"name,\"time, elapsed\"\n\"a \"\"b\"\"\",\" 1:00:00 \"\n").unwrap();
    assert_eq!(table.headers, texts(&["name", "time, elapsed"]));
    assert_eq!(table.rows, vec![row(&["a \"b\"", "3600.000000"])]);
}

#[test]
fn delimited_text_with_a_header_only() {
    let table = parse_csv(b"only,header\n").unwrap();
    assert_eq!(table.headers, texts(&["only", "header"]));
    assert!(table.rows.is_empty());
}

#[test]
fn empty_delimited_text() {
    let table = parse_csv(b"").unwrap();
    assert!(table.headers.is_empty());
    assert!(table.rows.is_empty());
}

#[test]
fn record_of_another_length_fails_the_file() {
    let r = parse_csv(b"a,b\n1,2\n3\n");
    assert!(matches!(r, Err(ParseError::Format(_))));
}

#[test]
fn header_that_is_no_text_fails_the_file() {
    let r = parse_csv(b"a,\xff\n1,2\n");
    assert!(matches!(r, Err(ParseError::Format(_))));
}

#[test]
fn record_that_is_no_text_fails_the_file() {
    let r = parse_csv(b"a,b\n1,\xff\n");
    assert!(matches!(r, Err(ParseError::Format(_))));
}

#[test]
fn build_table_infers_and_rewrites() {
    let table = build_table(texts(&["t"]), vec![row(&["0:00:01", "0:00:02"]), row(&["0:00:03"])]);
    assert_eq!(
        table,
        ParsedFileResult {
            headers: texts(&["t"]),
            rows: vec![row(&["1.000000", "0:00:02"]), row(&["3.000000"])],
        }
    );
}

#[test]
fn cell_texts() {
    assert_eq!(excel_cell_to_string_seconds(&Cell::Text("a b".to_string())), "a b");
    assert_eq!(excel_cell_to_string_seconds(&Cell::Int(0)), "0");
    assert_eq!(excel_cell_to_string_seconds(&Cell::Int(42)), "42");
    assert_eq!(excel_cell_to_string_seconds(&Cell::Int(-1705)), "-1705");
    assert_eq!(excel_cell_to_string_seconds(&Cell::Int(i64::MAX)), "9223372036854775807");
    assert_eq!(excel_cell_to_string_seconds(&Cell::Int(i64::MIN)), "-9223372036854775808");
    assert_eq!(excel_cell_to_string_seconds(&Cell::Float("1.5".to_string())), "1.5");
    assert_eq!(excel_cell_to_string_seconds(&Cell::Bool(true)), "true");
    assert_eq!(excel_cell_to_string_seconds(&Cell::Bool(false)), "false");
    assert_eq!(excel_cell_to_string_seconds(&Cell::DateTime("43200.000000".to_string())), "43200.000000");
    assert_eq!(excel_cell_to_string_seconds(&Cell::DateTimeIso("2024-01-01T00:00:00".to_string())), "2024-01-01T00:00:00");
    assert_eq!(excel_cell_to_string_seconds(&Cell::DurationIso("PT1H".to_string())), "PT1H");
    assert_eq!(excel_cell_to_string_seconds(&Cell::Error), "");
    assert_eq!(excel_cell_to_string_seconds(&Cell::Empty), "");
}

#[test]
fn sheet_with_rows() {
    let cells = vec![
        vec![Cell::Text("id".to_string()), Cell::Text("elapsed".to_string()), Cell::Empty],
        vec![Cell::Int(1), Cell::Text("01:02:03".to_string()), Cell::Bool(true)],
        vec![Cell::Int(2), Cell::Text("00:00:00.250".to_string())],
    ];
    let table = table_from_sheet(&cells);
    assert_eq!(table.headers, texts(&["id", "elapsed", ""]));
    assert_eq!(table.rows, vec![row(&["1", "3723.000000", "true"]), row(&["2", "0.250000"])]);
    assert_eq!(parse_excel(WorkbookRead::FirstSheet(cells)), Ok(table));
}

#[test]
fn empty_sheet_gives_an_empty_table() {
    let table = parse_excel(WorkbookRead::FirstSheet(vec![])).unwrap();
    assert!(table.headers.is_empty());
    assert!(table.rows.is_empty());
}

#[test]
fn workbook_failures() {
    assert_eq!(
        parse_excel(WorkbookRead::OpenFailed("no such file".to_string())),
        Err(ParseError::Io("Failed to open file: no such file".to_string()))
    );
    assert_eq!(
        parse_excel(WorkbookRead::NoSheets),
        Err(ParseError::Format("No sheets found.".to_string()))
    );
    assert_eq!(
        parse_excel(WorkbookRead::RangeFailed("bad range".to_string())),
        Err(ParseError::Format("Failed to read sheet: bad range".to_string()))
    );
}

fn reader_failure(bytes: &[u8]) -> String {
    let mut reader = csv::ReaderBuilder::new().has_headers(true).from_reader(bytes);
    if let Err(e) = reader.headers() {
        return e.to_string();
    }
    for record in reader.records() {
        if let Err(e) = record {
            return e.to_string();
        }
    }
    panic!("the bytes are read without failure");
}

#[test]
fn a_failure_carries_the_text_of_the_reader() {
    for bytes in [&b"a,b\n1,2\n3\n"[..], &b"a,\xff\n1,2\n"[..], &b"a,b\n1,\xff\n"[..]] {
        let text = reader_failure(bytes);
        assert!(!text.is_empty());
        assert_eq!(parse_csv(bytes), Err(ParseError::Format(text)));
    }
}

use duration_table::error::ParseError;
use duration_table::reader::{parse_csv, parse_excel, WorkbookRead};
use duration_table::stream::{
    delivery_error, delivery_plan, format_of_extension, next_step, parse_file_stream, row_batches,
    validate, validate_path, FileContents, FileFormat, Message, Step, BATCH_SIZE,
};
use duration_table::table::{ParsedFileResult, RowData};

fn numbered_rows(n: usize) -> Vec<RowData> {
    (0..n).map(|i| RowData { fields: vec![i.to_string()] }).collect()
}

fn batch_lengths(n: usize) -> Vec<usize> {
    row_batches(&numbered_rows(n)).iter().map(|b| b.len()).collect()
}

#[test]
fn thousand_rows_make_two_batches() {
    assert_eq!(batch_lengths(1000), vec![500, 500]);
}

#[test]
fn thousand_and_one_rows_make_three_batches() {
    assert_eq!(batch_lengths(1001), vec![500, 500, 1]);
}

#[test]
fn no_rows_make_no_batch() {
    assert_eq!(batch_lengths(0), Vec::<usize>::new());
    let table = ParsedFileResult { headers: vec!["h".to_string()], rows: vec![] };
    assert_eq!(
        delivery_plan(&table),
        vec![Message::Headers(vec!["h".to_string()]), Message::TotalRows(0)]
    );
}

#[test]
fn batch_sizes_at_the_edges() {
    assert_eq!(BATCH_SIZE, 500);
    assert_eq!(batch_lengths(1), vec![1]);
    assert_eq!(batch_lengths(499), vec![499]);
    assert_eq!(batch_lengths(500), vec![500]);
    assert_eq!(batch_lengths(501), vec![500, 1]);
}

#[test]
fn batches_keep_the_order_of_rows() {
    let rows = numbered_rows(1203);
    let batches = row_batches(&rows);
    let joined: Vec<RowData> = batches.into_iter().flatten().collect();
    assert_eq!(joined, rows);
}

#[test]
fn plan_sends_headers_then_total_then_batches() {
    let table = ParsedFileResult { headers: vec!["n".to_string()], rows: numbered_rows(1001) };
    let plan = delivery_plan(&table);
    assert_eq!(plan.len(), 5);
    assert_eq!(plan[0], Message::Headers(vec!["n".to_string()]));
    assert_eq!(plan[1], Message::TotalRows(1001));
    assert_eq!(plan[2], Message::RowsBatch(table.rows[0..500].to_vec()));
    assert_eq!(plan[3], Message::RowsBatch(table.rows[500..1000].to_vec()));
    assert_eq!(plan[4], Message::RowsBatch(table.rows[1000..].to_vec()));
    let names: Vec<&str> = plan.iter().map(|m| m.event_name()).collect();
    assert_eq!(
        names,
        vec!["parsed_headers", "parsed_total_rows", "parsed_rows_batch", "parsed_rows_batch", "parsed_rows_batch"]
    );
}

#[test]
fn delimited_text_from_bytes_to_messages() {
    let table = parse_csv(b"id,elapsed\n1,01:02:03\n2,00:00:00.250\n").unwrap();
    let plan = delivery_plan(&table);
    assert_eq!(
        plan,
        vec![
            Message::Headers(vec!["id".to_string(), "elapsed".to_string()]),
            Message::TotalRows(2),
            Message::RowsBatch(vec![
                RowData { fields: vec!["1".to_string(), "3723.000000".to_string()] },
                RowData { fields: vec!["2".to_string(), "0.250000".to_string()] },
            ]),
        ]
    );
}

#[test]
fn empty_sheet_sends_no_headers_and_a_total_of_zero() {
    let table = parse_excel(WorkbookRead::FirstSheet(vec![])).unwrap();
    assert_eq!(delivery_plan(&table), vec![Message::Headers(vec![]), Message::TotalRows(0)]);
}

#[test]
fn extensions_select_the_format() {
    assert_eq!(format_of_extension("csv"), Some(FileFormat::DelimitedText));
    assert_eq!(format_of_extension("CSV"), Some(FileFormat::DelimitedText));
    assert_eq!(format_of_extension("Csv"), Some(FileFormat::DelimitedText));
    assert_eq!(format_of_extension("xlsx"), Some(FileFormat::Spreadsheet));
    assert_eq!(format_of_extension("XLSX"), Some(FileFormat::Spreadsheet));
    assert_eq!(format_of_extension("xLs"), Some(FileFormat::Spreadsheet));
    for ext in ["", "txt", "xlsm", "cs", "csvx", "xl", "ods", "c\u{13}v", "CSv "] {
        assert_eq!(format_of_extension(ext), None, "{:?}", ext);
    }
}

#[test]
fn validation() {
    assert_eq!(validate(false, "csv"), Err(ParseError::NotFound));
    assert_eq!(validate(false, "txt"), Err(ParseError::NotFound));
    assert_eq!(validate(true, "txt"), Err(ParseError::UnsupportedFormat));
    assert_eq!(validate(true, ""), Err(ParseError::UnsupportedFormat));
    assert_eq!(validate(true, "csv"), Ok(FileFormat::DelimitedText));
    assert_eq!(validate(true, "XLS"), Ok(FileFormat::Spreadsheet));
}

#[test]
fn failure_texts() {
    assert_eq!(ParseError::NotFound.message(), "File does not exist.");
    assert_eq!(ParseError::UnsupportedFormat.message(), "Unsupported file format.");
    assert_eq!(ParseError::Io("denied".to_string()).message(), "denied");
    assert_eq!(ParseError::Format("bad".to_string()).message(), "bad");
    assert_eq!(
        delivery_error(&Message::Headers(vec![]), "closed"),
        ParseError::Delivery("Failed to emit headers: closed".to_string())
    );
    assert_eq!(
        delivery_error(&Message::TotalRows(3), "closed").message(),
        "Failed to emit total rows: closed"
    );
    assert_eq!(
        delivery_error(&Message::RowsBatch(vec![]), "closed").message(),
        "Failed to emit batch: closed"
    );
}

#[test]
fn paths_select_the_format_by_their_extension() {
    assert_eq!(validate_path(true, "data/run.CSV"), Ok(FileFormat::DelimitedText));
    assert_eq!(validate_path(true, "archive.tar.xlsx"), Ok(FileFormat::Spreadsheet));
    assert_eq!(validate_path(true, "old.Xls"), Ok(FileFormat::Spreadsheet));
    assert_eq!(validate_path(true, "notes"), Err(ParseError::UnsupportedFormat));
    assert_eq!(validate_path(true, "notes.txt"), Err(ParseError::UnsupportedFormat));
    assert_eq!(validate_path(true, ".csv"), Err(ParseError::UnsupportedFormat));
    assert_eq!(validate_path(false, "run.csv"), Err(ParseError::NotFound));
    assert_eq!(validate_path(false, "notes"), Err(ParseError::NotFound));
}

#[test]
fn contents_become_a_plan_or_a_failure() {
    let plan = parse_file_stream(FileContents::DelimitedText(b"t\n0:00:01\n".to_vec())).unwrap();
    assert_eq!(
        plan,
        vec![
            Message::Headers(vec!["t".to_string()]),
            Message::TotalRows(1),
            Message::RowsBatch(vec![RowData { fields: vec!["1.000000".to_string()] }]),
        ]
    );
    assert_eq!(
        parse_file_stream(FileContents::DelimitedText(b"a,b\n1\n".to_vec())),
        parse_csv(b"a,b\n1\n").map(|table| delivery_plan(&table))
    );
    assert!(matches!(
        parse_file_stream(FileContents::DelimitedText(b"a,b\n1\n".to_vec())),
        Err(ParseError::Format(text)) if !text.is_empty()
    ));
    assert_eq!(
        parse_file_stream(FileContents::Workbook(WorkbookRead::NoSheets)),
        Err(ParseError::Format("No sheets found.".to_string()))
    );
    assert_eq!(
        parse_file_stream(FileContents::Workbook(WorkbookRead::FirstSheet(vec![]))),
        Ok(vec![Message::Headers(vec![]), Message::TotalRows(0)])
    );
}

#[test]
fn steps_follow_the_plan_and_stop_at_a_failure() {
    let table = ParsedFileResult { headers: vec!["n".to_string()], rows: numbered_rows(2) };
    let plan = delivery_plan(&table);
    assert_eq!(next_step(&plan, 0, None), Step::Send(0));
    assert_eq!(next_step(&plan, 1, None), Step::Send(1));
    assert_eq!(next_step(&plan, 2, None), Step::Send(2));
    assert_eq!(next_step(&plan, 3, None), Step::Done);
    assert_eq!(
        next_step(&plan, 0, Some("gone")),
        Step::Failed(ParseError::Delivery("Failed to emit headers: gone".to_string()))
    );
    assert_eq!(
        next_step(&plan, 1, Some("gone")),
        Step::Failed(ParseError::Delivery("Failed to emit total rows: gone".to_string()))
    );
    assert_eq!(
        next_step(&plan, 2, Some("gone")),
        Step::Failed(ParseError::Delivery("Failed to emit batch: gone".to_string()))
    );
}

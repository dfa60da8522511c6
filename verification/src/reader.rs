//! The two readers: delimited text, and the cells of a worksheet.

use vstd::prelude::*;
use vstd::string::*;
use crate::cell::{cells_text, row_to_strings, sheet_texts, Cell};
use crate::error::{ErrorView, ParseError};
use crate::infer::{classification, detect_duration_columns};
use crate::rewrite::{convert_duration_columns, rewritten_rows};
use crate::table::{rows_view, texts_view, ParsedFileResult, RowData, TableView};

verus! {

/// What reading the header record of the delimited text `bytes` gives: the
/// fields of the first record, or the text of the failure to read it.
pub uninterp spec fn csv_header_record(bytes: Seq<u8>) -> Result<Seq<Seq<char>>, Seq<char>>;

/// What reading the records of the delimited text `bytes` after the header
/// record gives: the records, each with its fields, or the text of the
/// failure at the first record that is malformed.
pub uninterp spec fn csv_data_records(bytes: Seq<u8>) -> Result<Seq<Seq<Seq<char>>>, Seq<char>>;

/// `csv::Reader::headers`, on a reader over `bytes` in which the first
/// record is the header; a failure is given as the text that `csv::Error`
/// displays. Not proved: that the fields returned, or the text of the
/// failure, are what `csv_header_record` names for these bytes.
#[verifier::external_body]
fn read_csv_headers(bytes: &[u8]) -> (r: Result<Vec<String>, String>)
    ensures
        match r {
            Ok(headers) => csv_header_record(bytes@) == Ok::<Seq<Seq<char>>, Seq<char>>(
                texts_view(headers@),
            ),
            Err(text) => csv_header_record(bytes@) == Err::<Seq<Seq<char>>, Seq<char>>(text@),
        },
{
    let mut reader = csv::ReaderBuilder::new().has_headers(true).from_reader(bytes);
    match reader.headers() {
        Ok(headers) => Ok(headers.iter().map(|s| s.to_string()).collect()),
        Err(e) => Err(e.to_string()),
    }
}

/// `csv::Reader::records`, on a reader over `bytes` in which the first
/// record is the header and has been read, so that a failure tells its
/// place counted from the start of the text; a failure is given as the
/// text that `csv::Error` displays. Not proved: that the records returned,
/// or the text of the failure at the first malformed one, are what
/// `csv_data_records` names for these bytes.
#[verifier::external_body]
fn read_csv_records(bytes: &[u8]) -> (r: Result<Vec<RowData>, String>)
    ensures
        match r {
            Ok(rows) => csv_data_records(bytes@) == Ok::<Seq<Seq<Seq<char>>>, Seq<char>>(
                rows_view(rows@),
            ),
            Err(text) => csv_data_records(bytes@) == Err::<Seq<Seq<Seq<char>>>, Seq<char>>(
                text@,
            ),
        },
{
    let mut reader = csv::ReaderBuilder::new().has_headers(true).from_reader(bytes);
    let _ = reader.headers();
    reader.records().map(
        |record|
            match record {
                Ok(r) => Ok(RowData { fields: r.iter().map(|s| s.to_string()).collect() }),
                Err(e) => Err(e.to_string()),
            },
    ).collect()
}

/// The table that headers and rows make: the headers as they are, and the
/// rows after inference over the header's columns and the rewrite of the
/// columns it marks.
pub open spec fn table_of(headers: Seq<Seq<char>>, rows: Seq<Seq<Seq<char>>>) -> TableView {
    TableView { headers, rows: rewritten_rows(rows, classification(headers.len(), rows)) }
}

/// Makes the table of a header row and the rows under it: infers the
/// duration columns and rewrites them.
pub fn build_table(headers: Vec<String>, rows: Vec<RowData>) -> (table: ParsedFileResult)
    ensures
        table@ == table_of(texts_view(headers@), rows_view(rows@)),
{
    let flags = detect_duration_columns(headers.len(), rows.as_slice());
    let rows = convert_duration_columns(rows, flags.as_slice());
    ParsedFileResult { headers, rows }
}

/// The table of the delimited text `bytes`: the header record gives the
/// headers, every later record one row. Where the header or any record
/// cannot be read there is no table, but the failure with the reader's
/// text; the header is read first.
pub open spec fn csv_table(bytes: Seq<u8>) -> Result<TableView, ErrorView> {
    match csv_header_record(bytes) {
        Err(text) => Err(ErrorView::Format(text)),
        Ok(headers) => match csv_data_records(bytes) {
            Err(text) => Err(ErrorView::Format(text)),
            Ok(records) => Ok(table_of(headers, records)),
        },
    }
}

/// Reads a table from delimited text. The first record is the header row,
/// every later record is one row, each with the fields that the record
/// holds. Fails as a whole where the header or any record cannot be read.
pub fn parse_csv(bytes: &[u8]) -> (r: Result<ParsedFileResult, ParseError>)
    ensures
        match r {
            Ok(table) => {
                &&& csv_table(bytes@) == Ok::<TableView, ErrorView>(table@)
                &&& csv_header_record(bytes@) matches Ok(headers) && table@.headers == headers
                &&& csv_data_records(bytes@) matches Ok(records) && table@.rows.len()
                    == records.len()
            },
            Err(e) => csv_table(bytes@) == Err::<TableView, ErrorView>(e@),
        },
{
    let headers = match read_csv_headers(bytes) {
        Ok(headers) => headers,
        Err(text) => { return Err(ParseError::Format(text)); },
    };
    let rows = match read_csv_records(bytes) {
        Ok(rows) => rows,
        Err(text) => { return Err(ParseError::Format(text)); },
    };
    Ok(build_table(headers, rows))
}

/// What came of opening a workbook and reading its first sheet.
#[derive(Clone, Debug, PartialEq, Eq)]
pub enum WorkbookRead {
    /// The workbook could not be opened; with the cause.
    OpenFailed(String),
    /// The workbook holds no sheet.
    NoSheets,
    /// The rows of the first sheet could not be read; with the cause.
    RangeFailed(String),
    /// The rows of the first sheet, each with its cells.
    FirstSheet(Vec<Vec<Cell>>),
}

/// The table of a sheet: its first row gives the headers, each later row
/// one row; a sheet without rows gives a table without headers and rows.
pub open spec fn sheet_table(cells: Seq<Vec<Cell>>) -> TableView {
    if cells.len() == 0 {
        TableView { headers: Seq::empty(), rows: Seq::empty() }
    } else {
        table_of(cells_text(cells[0]@), sheet_texts(cells, 1))
    }
}

/// The text of the failure to open a workbook.
pub open spec fn open_failure_text(cause: Seq<char>) -> Seq<char> {
    "Failed to open file: "@ + cause
}

/// The text of the failure to read the rows of a sheet.
pub open spec fn range_failure_text(cause: Seq<char>) -> Seq<char> {
    "Failed to read sheet: "@ + cause
}

/// Makes the table of the rows of a sheet.
pub fn table_from_sheet(cells: &Vec<Vec<Cell>>) -> (table: ParsedFileResult)
    ensures
        table@ == sheet_table(cells@),
{
    if cells.len() == 0 {
        let table = ParsedFileResult { headers: Vec::new(), rows: Vec::new() };
        assert(table@.headers =~= Seq::empty());
        assert(table@.rows =~= Seq::empty());
        return table;
    }
    let headers = row_to_strings(&cells[0]);
    let mut rows: Vec<RowData> = Vec::new();
    let mut i: usize = 1;
    while i < cells.len()
        invariant
            1 <= i <= cells.len(),
            rows.len() == i - 1,
            forall|x: int| 0 <= x < i - 1 ==> (#[trigger] rows@[x])@ == cells_text(cells@[x + 1]@),
        decreases cells.len() - i,
    {
        rows.push(RowData { fields: row_to_strings(&cells[i]) });
        i += 1;
    }
    assert(rows_view(rows@) =~= sheet_texts(cells@, 1));
    build_table(headers, rows)
}

/// What a workbook gives: the table of its first sheet, or the failure to
/// open it, to find a sheet in it or to read the sheet's rows.
pub open spec fn workbook_table(read: WorkbookRead) -> Result<TableView, ErrorView> {
    match read {
        WorkbookRead::OpenFailed(cause) => Err(ErrorView::Io(open_failure_text(cause@))),
        WorkbookRead::NoSheets => Err(ErrorView::Format("No sheets found."@)),
        WorkbookRead::RangeFailed(cause) => Err(ErrorView::Format(range_failure_text(cause@))),
        WorkbookRead::FirstSheet(cells) => Ok(sheet_table(cells@)),
    }
}

/// Reads a table from what came of opening a workbook: the table of the
/// first sheet, or the failure to open the workbook, to find a sheet in it
/// or to read the sheet's rows.
pub fn parse_excel(read: WorkbookRead) -> (r: Result<ParsedFileResult, ParseError>)
    ensures
        match r {
            Ok(table) => workbook_table(read) == Ok::<TableView, ErrorView>(table@),
            Err(e) => workbook_table(read) == Err::<TableView, ErrorView>(e@),
        },
{
    match read {
        WorkbookRead::OpenFailed(cause) => Err(
            ParseError::Io(String::from_str("Failed to open file: ").concat(cause.as_str())),
        ),
        WorkbookRead::NoSheets => Err(ParseError::Format(String::from_str("No sheets found."))),
        WorkbookRead::RangeFailed(cause) => Err(
            ParseError::Format(String::from_str("Failed to read sheet: ").concat(cause.as_str())),
        ),
        WorkbookRead::FirstSheet(cells) => Ok(table_from_sheet(&cells)),
    }
}

/// A table has the headers it was made of, as many rows as it was made
/// of, and in each row as many fields as before.
pub proof fn lemma_table_shape(headers: Seq<Seq<char>>, rows: Seq<Seq<Seq<char>>>)
    ensures
        table_of(headers, rows).headers == headers,
        table_of(headers, rows).rows.len() == rows.len(),
        forall|i: int|
            0 <= i < rows.len() ==> (#[trigger] table_of(headers, rows).rows[i]).len()
                == rows[i].len(),
{
}

/// A sheet without rows gives a table without headers and without rows.
pub proof fn lemma_empty_sheet_table(cells: Seq<Vec<Cell>>)
    requires
        cells.len() == 0,
    ensures
        sheet_table(cells).headers.len() == 0,
        sheet_table(cells).rows.len() == 0,
{
}

} // verus!

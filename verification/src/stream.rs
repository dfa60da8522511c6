//! Delivery: the format of a file by its extension, and the ordered
//! messages that carry a table to its consumer.

use vstd::prelude::*;
use vstd::string::*;
use crate::cell::Cell;
use crate::error::{ErrorView, ParseError};
use crate::reader::{
    csv_table, parse_csv, parse_excel, sheet_table, workbook_table, WorkbookRead,
};
use crate::table::{copy_row, copy_texts, rows_view, ParsedFileResult, RowData, TableView};
use crate::text::chars_of;

verus! {

/// The most rows that one batch holds.
pub const BATCH_SIZE: usize = 500;

/// The kinds of file that can be read.
#[derive(Clone, Copy, Debug, PartialEq, Eq, Structural)]
pub enum FileFormat {
    /// Delimited text: the extension csv.
    DelimitedText,
    /// A workbook: the extensions xlsx and xls.
    Spreadsheet,
}

/// Whether `c` is the lower-case ASCII letter `letter` in either case.
pub open spec fn same_letter(c: char, letter: char) -> bool {
    c == letter || c as u32 + 32 == letter as u32
}

/// Whether `ext` is the lower-case word `word` in any mix of cases.
pub open spec fn is_word(ext: Seq<char>, word: Seq<char>) -> bool {
    ext.len() == word.len() && forall|i: int|
        0 <= i < ext.len() ==> same_letter(#[trigger] ext[i], word[i])
}

/// The format that the extension `ext` selects, if it is a recognised one.
pub open spec fn format_of(ext: Seq<char>) -> Option<FileFormat> {
    if is_word(ext, seq!['c', 's', 'v']) {
        Some(FileFormat::DelimitedText)
    } else if is_word(ext, seq!['x', 'l', 's', 'x']) || is_word(ext, seq!['x', 'l', 's']) {
        Some(FileFormat::Spreadsheet)
    } else {
        None
    }
}

/// The outcome of validation: a path that names no file is not found, and
/// an extension that selects no format is unsupported.
pub open spec fn validated(exists: bool, ext: Seq<char>) -> Result<FileFormat, ErrorView> {
    if !exists {
        Err(ErrorView::NotFound)
    } else {
        match format_of(ext) {
            Some(format) => Ok(format),
            None => Err(ErrorView::UnsupportedFormat),
        }
    }
}

/// Tells whether `c` is the lower-case ASCII letter `letter` in either
/// case.
fn letter_is(c: char, letter: char) -> (r: bool)
    requires
        letter as u32 <= 0x7f,
    ensures
        r == same_letter(c, letter),
{
    c == letter || c as u32 + 32 == letter as u32
}

/// Selects the format of a file by its extension, in any mix of cases.
pub fn format_of_extension(extension: &str) -> (r: Option<FileFormat>)
    ensures
        r == format_of(extension@),
{
    let e = chars_of(extension);
    if e.len() == 3 && letter_is(e[0], 'c') && letter_is(e[1], 's') && letter_is(e[2], 'v') {
        Some(FileFormat::DelimitedText)
    } else if e.len() == 3 && letter_is(e[0], 'x') && letter_is(e[1], 'l') && letter_is(
        e[2],
        's',
    ) {
        Some(FileFormat::Spreadsheet)
    } else if e.len() == 4 && letter_is(e[0], 'x') && letter_is(e[1], 'l') && letter_is(
        e[2],
        's',
    ) && letter_is(e[3], 'x') {
        Some(FileFormat::Spreadsheet)
    } else {
        assert(!is_word(e@, seq!['c', 's', 'v'])) by {
            if is_word(e@, seq!['c', 's', 'v']) {
                assert(same_letter(e@[0], 'c') && same_letter(e@[1], 's') && same_letter(
                    e@[2],
                    'v',
                ));
            }
        }
        assert(!is_word(e@, seq!['x', 'l', 's'])) by {
            if is_word(e@, seq!['x', 'l', 's']) {
                assert(same_letter(e@[0], 'x') && same_letter(e@[1], 'l') && same_letter(
                    e@[2],
                    's',
                ));
            }
        }
        assert(!is_word(e@, seq!['x', 'l', 's', 'x'])) by {
            if is_word(e@, seq!['x', 'l', 's', 'x']) {
                assert(same_letter(e@[0], 'x') && same_letter(e@[1], 'l') && same_letter(
                    e@[2],
                    's',
                ) && same_letter(e@[3], 'x'));
            }
        }
        None
    }
}

/// Validates a request before anything is read: whether the path names a
/// file, and which format its extension selects.
pub fn validate(exists: bool, extension: &str) -> (r: Result<FileFormat, ParseError>)
    ensures
        match r {
            Ok(format) => validated(exists, extension@) == Ok::<FileFormat, ErrorView>(format),
            Err(e) => validated(exists, extension@) == Err::<FileFormat, ErrorView>(e@),
        },
{
    if !exists {
        return Err(ParseError::NotFound);
    }
    match format_of_extension(extension) {
        Some(format) => Ok(format),
        None => Err(ParseError::UnsupportedFormat),
    }
}

/// `std::path::Path::extension` of the path `filepath`, where it is text.
/// Nothing is claimed of the result: what parts a path differs from one
/// system to another.
#[verifier::external_body]
fn path_extension(filepath: &str) -> (r: Option<String>) {
    std::path::Path::new(filepath).extension().and_then(|e| e.to_str()).map(|e| e.to_string())
}

/// Validates a request by its path: whether the path names a file, and
/// which format the extension of the path selects. A path without an
/// extension selects none.
pub fn validate_path(exists: bool, filepath: &str) -> (r: Result<FileFormat, ParseError>)
    ensures
        !exists ==> (r matches Err(e) && e@ == ErrorView::NotFound),
        exists ==> (r matches Err(e) ==> e@ == ErrorView::UnsupportedFormat),
{
    match path_extension(filepath) {
        Some(extension) => validate(exists, extension.as_str()),
        None => validate(exists, ""),
    }
}

/// The number of batches that `total` rows make.
pub open spec fn batch_count(total: nat) -> nat {
    (total + 499) / 500
}

/// Where batch `k` of `total` rows ends.
pub open spec fn batch_end(total: nat, k: int) -> int {
    if 500 * k + 500 <= total {
        500 * k + 500
    } else {
        total as int
    }
}

/// Batch `k` of `rows`: the rows from `500 * k` on, 500 of them or as many
/// as are left.
pub open spec fn batch_of(rows: Seq<Seq<Seq<char>>>, k: int) -> Seq<Seq<Seq<char>>> {
    rows.subrange(500 * k, batch_end(rows.len(), k))
}

/// The batches of `rows`, in order.
pub open spec fn batches_of(rows: Seq<Seq<Seq<char>>>) -> Seq<Seq<Seq<Seq<char>>>> {
    Seq::new(batch_count(rows.len()), |k: int| batch_of(rows, k))
}

/// The batches `batches`, each as the sequence of its rows.
pub open spec fn batches_view(batches: Seq<Vec<RowData>>) -> Seq<Seq<Seq<Seq<char>>>> {
    Seq::new(batches.len(), |k: int| rows_view(batches[k]@))
}

/// The number of batches that `total` rows make.
pub fn count_batches(total: usize) -> (r: usize)
    ensures
        r == batch_count(total as nat),
{
    if total % BATCH_SIZE == 0 {
        total / BATCH_SIZE
    } else {
        total / BATCH_SIZE + 1
    }
}

/// A copy of batch `k` of `rows`.
pub fn batch_at(rows: &[RowData], k: usize) -> (batch: Vec<RowData>)
    requires
        k < batch_count(rows@.len()),
    ensures
        rows_view(batch@) == batch_of(rows_view(rows@), k as int),
{
    let total: usize = rows.len();
    assert(500 * k < total);
    let start: usize = BATCH_SIZE * k;
    let end: usize = if total - start >= BATCH_SIZE {
        start + BATCH_SIZE
    } else {
        total
    };
    let mut batch: Vec<RowData> = Vec::new();
    let mut i: usize = start;
    while i < end
        invariant
            start <= i <= end <= rows@.len(),
            batch.len() == i - start,
            forall|x: int| 0 <= x < i - start ==> (#[trigger] batch@[x])@ == rows@[start + x]@,
        decreases end - i,
    {
        batch.push(copy_row(&rows[i]));
        i += 1;
    }
    assert(rows_view(batch@) =~= batch_of(rows_view(rows@), k as int));
    batch
}

/// Parts `rows`, in their order, into batches of 500 rows; the last batch
/// holds what is left, between 1 and 500 rows. No rows, no batch.
pub fn row_batches(rows: &[RowData]) -> (batches: Vec<Vec<RowData>>)
    ensures
        batches_view(batches@) == batches_of(rows_view(rows@)),
{
    let count: usize = count_batches(rows.len());
    let mut batches: Vec<Vec<RowData>> = Vec::new();
    let mut k: usize = 0;
    while k < count
        invariant
            k <= count,
            count == batch_count(rows@.len()),
            batches.len() == k,
            forall|x: int|
                0 <= x < k ==> rows_view((#[trigger] batches@[x])@) == batch_of(
                    rows_view(rows@),
                    x,
                ),
        decreases count - k,
    {
        batches.push(batch_at(rows, k));
        k += 1;
    }
    assert(batches_view(batches@) =~= batches_of(rows_view(rows@)));
    batches
}

/// One message to the consumer.
#[derive(Clone, Debug, PartialEq, Eq)]
pub enum Message {
    /// The headers, in order.
    Headers(Vec<String>),
    /// The number of rows of the table.
    TotalRows(usize),
    /// One batch of rows, in order.
    RowsBatch(Vec<RowData>),
}

/// A message as mathematics.
pub ghost enum MessageView {
    Headers(Seq<Seq<char>>),
    TotalRows(nat),
    RowsBatch(Seq<Seq<Seq<char>>>),
}

impl View for Message {
    type V = MessageView;

    open spec fn view(&self) -> MessageView {
        match *self {
            Message::Headers(headers) => MessageView::Headers(crate::table::texts_view(headers@)),
            Message::TotalRows(total) => MessageView::TotalRows(total as nat),
            Message::RowsBatch(rows) => MessageView::RowsBatch(rows_view(rows@)),
        }
    }
}

/// The messages `messages`, each as mathematics.
pub open spec fn messages_view(messages: Seq<Message>) -> Seq<MessageView> {
    Seq::new(messages.len(), |k: int| messages[k]@)
}

/// The messages that deliver `table`, in the order in which they are sent:
/// the headers, the number of rows, then the batches in order.
pub open spec fn plan_of(table: TableView) -> Seq<MessageView> {
    Seq::new(
        2 + batch_count(table.rows.len()),
        |k: int|
            if k == 0 {
                MessageView::Headers(table.headers)
            } else if k == 1 {
                MessageView::TotalRows(table.rows.len())
            } else {
                MessageView::RowsBatch(batch_of(table.rows, k - 2))
            },
    )
}

/// The name of the event that carries a message.
pub open spec fn event_name_of(message: MessageView) -> Seq<char> {
    match message {
        MessageView::Headers(_) => "parsed_headers"@,
        MessageView::TotalRows(_) => "parsed_total_rows"@,
        MessageView::RowsBatch(_) => "parsed_rows_batch"@,
    }
}

/// The text of the failure to send a message, before the cause.
pub open spec fn failure_prefix(message: MessageView) -> Seq<char> {
    match message {
        MessageView::Headers(_) => "Failed to emit headers: "@,
        MessageView::TotalRows(_) => "Failed to emit total rows: "@,
        MessageView::RowsBatch(_) => "Failed to emit batch: "@,
    }
}

/// The text of the failure to send a message, for the cause `cause`.
pub open spec fn failure_text(message: MessageView, cause: Seq<char>) -> Seq<char> {
    failure_prefix(message) + cause
}

impl Message {
    /// The name of the event that carries this message.
    pub fn event_name(&self) -> (r: &'static str)
        ensures
            r@ == event_name_of(self@),
    {
        match self {
            Message::Headers(_) => "parsed_headers",
            Message::TotalRows(_) => "parsed_total_rows",
            Message::RowsBatch(_) => "parsed_rows_batch",
        }
    }
}

/// The failure to send `message`, for the cause that the channel gave.
pub fn delivery_error(message: &Message, cause: &str) -> (e: ParseError)
    ensures
        e@ == ErrorView::Delivery(failure_text(message@, cause@)),
{
    let prefix = match message {
        Message::Headers(_) => "Failed to emit headers: ",
        Message::TotalRows(_) => "Failed to emit total rows: ",
        Message::RowsBatch(_) => "Failed to emit batch: ",
    };
    ParseError::Delivery(String::from_str(prefix).concat(cause))
}

/// Lays out the delivery of `table`: first the headers, once; then the
/// number of rows, once; then the rows in batches of at most 500, in order.
/// The messages are to be sent in this order, each after the one before it
/// has been sent; the first that cannot be sent ends the delivery.
pub fn delivery_plan(table: &ParsedFileResult) -> (plan: Vec<Message>)
    ensures
        messages_view(plan@) == plan_of(table@),
{
    let rows = table.rows.as_slice();
    let count: usize = count_batches(rows.len());
    let mut plan: Vec<Message> = Vec::new();
    plan.push(Message::Headers(copy_texts(&table.headers)));
    plan.push(Message::TotalRows(rows.len()));
    let mut k: usize = 0;
    while k < count
        invariant
            k <= count,
            count == batch_count(rows@.len()),
            rows@ == table.rows@,
            plan.len() == 2 + k,
            plan@[0]@ == MessageView::Headers(table@.headers),
            plan@[1]@ == MessageView::TotalRows(rows@.len()),
            forall|x: int|
                0 <= x < k ==> (#[trigger] plan@[x + 2])@ == MessageView::RowsBatch(
                    batch_of(table@.rows, x),
                ),
        decreases count - k,
    {
        plan.push(Message::RowsBatch(batch_at(rows, k)));
        k += 1;
    }
    assert forall|x: int| 0 <= x < plan.len() implies #[trigger] messages_view(plan@)[x]
        == plan_of(table@)[x] by {
        if x >= 2 {
            assert(plan@[(x - 2) + 2]@ == MessageView::RowsBatch(batch_of(table@.rows, x - 2)));
        }
    }
    assert(messages_view(plan@) =~= plan_of(table@));
    plan
}

/// What was read of a file, by its format.
#[derive(Clone, Debug, PartialEq, Eq)]
pub enum FileContents {
    /// The bytes of a file of delimited text.
    DelimitedText(Vec<u8>),
    /// What came of opening a workbook.
    Workbook(WorkbookRead),
}

/// The table that the contents of a file give, or the failure to read
/// one from them.
pub open spec fn contents_table(contents: FileContents) -> Result<TableView, ErrorView> {
    match contents {
        FileContents::DelimitedText(bytes) => csv_table(bytes@),
        FileContents::Workbook(read) => workbook_table(read),
    }
}

/// Reads the table from the contents of a file and lays out its delivery.
/// A failure to read gives that very failure and no message at all.
pub fn parse_file_stream(contents: FileContents) -> (r: Result<Vec<Message>, ParseError>)
    ensures
        match r {
            Ok(plan) => contents_table(contents) matches Ok(table) && messages_view(plan@)
                == plan_of(table),
            Err(e) => contents_table(contents) == Err::<TableView, ErrorView>(e@),
        },
{
    let parsed = match contents {
        FileContents::DelimitedText(bytes) => parse_csv(bytes.as_slice()),
        FileContents::Workbook(read) => parse_excel(read),
    };
    match parsed {
        Ok(table) => Ok(delivery_plan(&table)),
        Err(e) => Err(e),
    }
}

/// What the sender does next.
#[derive(Clone, Debug, PartialEq, Eq)]
pub enum Step {
    /// Send the message at this place of the plan.
    Send(usize),
    /// Every message has been sent.
    Done,
    /// A message could not be sent: nothing more is sent.
    Failed(ParseError),
}

/// A step as mathematics.
pub ghost enum StepView {
    Send(nat),
    Done,
    Failed(ErrorView),
}

impl View for Step {
    type V = StepView;

    open spec fn view(&self) -> StepView {
        match *self {
            Step::Send(at) => StepView::Send(at as nat),
            Step::Done => StepView::Done,
            Step::Failed(e) => StepView::Failed(e@),
        }
    }
}

/// The step after `sent` messages of `plan` have been sent, where
/// `failure` is the cause for which the message at `sent` could not be
/// sent, if it could not.
pub open spec fn step_of(plan: Seq<MessageView>, sent: nat, failure: Option<Seq<char>>) -> StepView {
    if sent >= plan.len() {
        StepView::Done
    } else {
        match failure {
            Some(cause) => StepView::Failed(
                ErrorView::Delivery(failure_text(plan[sent as int], cause)),
            ),
            None => StepView::Send(sent),
        }
    }
}

/// Decides the next step of a delivery: the messages go out in the order
/// of the plan, one after the other; the first that cannot be sent ends
/// the delivery with its failure; after the last the delivery is done.
pub fn next_step(plan: &Vec<Message>, sent: usize, failure: Option<&str>) -> (step: Step)
    ensures
        step@ == step_of(
            messages_view(plan@),
            sent as nat,
            match failure {
                Some(cause) => Some(cause@),
                None => None,
            },
        ),
{
    if sent >= plan.len() {
        Step::Done
    } else {
        match failure {
            Some(cause) => Step::Failed(delivery_error(&plan[sent], cause)),
            None => Step::Send(sent),
        }
    }
}

/// Every row is in exactly the batch that its index names, at the place
/// that its index names; every batch holds between 1 and 500 rows, and all
/// but the last hold 500.
pub proof fn lemma_batches_cover_rows(rows: Seq<Seq<Seq<char>>>)
    ensures
        forall|i: int|
            0 <= i < rows.len() ==> i / 500 < batches_of(rows).len() && i % 500 < batches_of(
                rows,
            )[i / 500].len() && batches_of(rows)[i / 500][i % 500] == #[trigger] rows[i],
        forall|k: int|
            0 <= k < batches_of(rows).len() ==> 1 <= (#[trigger] batches_of(rows)[k]).len()
                <= 500,
        forall|k: int|
            0 <= k < batches_of(rows).len() - 1 ==> (#[trigger] batches_of(rows)[k]).len()
                == 500,
{
}

/// A table without rows is delivered by two messages: the headers, and a
/// row count of zero. No batch follows.
pub proof fn lemma_plan_of_empty_table(table: TableView)
    requires
        table.rows.len() == 0,
    ensures
        plan_of(table) == seq![
            MessageView::Headers(table.headers),
            MessageView::TotalRows(0),
        ],
{
    assert(plan_of(table) =~= seq![
        MessageView::Headers(table.headers),
        MessageView::TotalRows(0),
    ]);
}

/// A sheet without rows is delivered as no headers and a row count of
/// zero; no batch follows.
pub proof fn lemma_empty_sheet_delivery(cells: Seq<Vec<Cell>>)
    requires
        cells.len() == 0,
    ensures
        plan_of(sheet_table(cells)) == seq![
            MessageView::Headers(Seq::empty()),
            MessageView::TotalRows(0),
        ],
{
    lemma_plan_of_empty_table(sheet_table(cells));
}

} // verus!

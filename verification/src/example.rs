//! A worked table: two rows of an id and an elapsed time, from the records
//! as read to the messages as sent.

use vstd::prelude::*;
use crate::duration::{
    canonical_text, clock_millis, duration_millis, fraction_millis, grammar_millis, millis_text,
};
use crate::infer::{
    classification, counted, is_duration_column, non_empty_count, parsable, parsable_count,
};
use crate::error::ErrorView;
use crate::reader::{csv_data_records, csv_header_record, csv_table, table_of};
use crate::table::TableView;
use crate::rewrite::{rewritten_field, rewritten_row, rewritten_rows};
use crate::stream::{batch_of, plan_of, MessageView};
use crate::text::{
    decimal_text, decimal_value, digit_run, space_run, space_run_back, trimmed,
};

verus! {

/// The text `01:02:03`.
pub open spec fn first_elapsed() -> Seq<char> {
    seq!['0', '1', ':', '0', '2', ':', '0', '3']
}

/// The text `00:00:00.250`.
pub open spec fn second_elapsed() -> Seq<char> {
    seq!['0', '0', ':', '0', '0', ':', '0', '0', '.', '2', '5', '0']
}

/// The text `3723.000000`.
pub open spec fn first_seconds() -> Seq<char> {
    seq!['3', '7', '2', '3', '.', '0', '0', '0', '0', '0', '0']
}

/// The text `0.250000`.
pub open spec fn second_seconds() -> Seq<char> {
    seq!['0', '.', '2', '5', '0', '0', '0', '0']
}

/// The headers `id` and `elapsed`.
pub open spec fn example_headers() -> Seq<Seq<char>> {
    seq![seq!['i', 'd'], seq!['e', 'l', 'a', 'p', 's', 'e', 'd']]
}

/// The two rows as read.
pub open spec fn example_rows() -> Seq<Seq<Seq<char>>> {
    seq![seq![seq!['1'], first_elapsed()], seq![seq!['2'], second_elapsed()]]
}

/// The two rows as delivered.
pub open spec fn example_rewritten() -> Seq<Seq<Seq<char>>> {
    seq![seq![seq!['1'], first_seconds()], seq![seq!['2'], second_seconds()]]
}

/// `01:02:03` states 3723 seconds, `00:00:00.250` a quarter of a second,
/// and the ids state no duration.
pub proof fn lemma_example_durations()
    ensures
        duration_millis(first_elapsed()) == Some(3_723_000nat),
        duration_millis(second_elapsed()) == Some(250nat),
        duration_millis(seq!['1']) is None,
        duration_millis(seq!['2']) is None,
        trimmed(seq!['1']).len() > 0,
        trimmed(seq!['2']).len() > 0,
        trimmed(first_elapsed()).len() > 0,
        trimmed(second_elapsed()).len() > 0,
{
    reveal_with_fuel(space_run, 2);
    reveal_with_fuel(space_run_back, 2);
    reveal_with_fuel(digit_run, 4);
    reveal_with_fuel(decimal_value, 4);
    let a = first_elapsed();
    assert(trimmed(a) =~= a);
    assert(digit_run(a, 0) == 2);
    assert(fraction_millis(a, 8) == Some(0nat));
    assert(clock_millis(a, 0) == Some(3_723_000nat));
    let b = second_elapsed();
    assert(trimmed(b) =~= b);
    assert(digit_run(b, 0) == 2);
    assert(digit_run(b, 9) == 12);
    assert(decimal_value(b, 9, 12) == 250);
    assert(fraction_millis(b, 8) == Some(250nat));
    assert(clock_millis(b, 0) == Some(250nat));
    let one: Seq<char> = seq!['1'];
    assert(trimmed(one) =~= one);
    assert(digit_run(one, 0) == 1);
    assert(grammar_millis(one) is None);
    let two: Seq<char> = seq!['2'];
    assert(trimmed(two) =~= two);
    assert(digit_run(two, 0) == 1);
    assert(grammar_millis(two) is None);
}

/// The canonical texts of the two elapsed times.
pub proof fn lemma_example_canonical()
    ensures
        canonical_text(3_723_000) == first_seconds(),
        canonical_text(250) == second_seconds(),
{
    reveal_with_fuel(decimal_text, 4);
    assert(decimal_text(3723) =~= seq!['3', '7', '2', '3']);
    assert(decimal_text(0) =~= seq!['0']);
    assert(millis_text(3_723_000) =~= seq!['0', '0', '0']);
    assert(millis_text(250) =~= seq!['2', '5', '0']);
    assert(canonical_text(3_723_000) =~= first_seconds());
    assert(canonical_text(250) =~= second_seconds());
}

/// Of the two columns the second is a duration column, and the rows are
/// rewritten to seconds in it.
pub proof fn lemma_example_table()
    ensures
        classification(2, example_rows()) == seq![false, true],
        table_of(example_headers(), example_rows()).headers == example_headers(),
        table_of(example_headers(), example_rows()).rows == example_rewritten(),
{
    lemma_example_durations();
    lemma_example_canonical();
    let rows = example_rows();
    reveal_with_fuel(non_empty_count, 3);
    reveal_with_fuel(parsable_count, 3);
    assert(counted(rows[0], 0) && counted(rows[1], 0));
    assert(counted(rows[0], 1) && counted(rows[1], 1));
    assert(!parsable(rows[0], 0) && !parsable(rows[1], 0));
    assert(parsable(rows[0], 1) && parsable(rows[1], 1));
    assert(non_empty_count(rows, 0, 2) == 2 && parsable_count(rows, 0, 2) == 0);
    assert(non_empty_count(rows, 1, 2) == 2 && parsable_count(rows, 1, 2) == 2);
    assert(!is_duration_column(rows, 0));
    assert(is_duration_column(rows, 1));
    let flags = classification(2, rows);
    assert(flags =~= seq![false, true]);
    let out = rewritten_rows(rows, flags);
    assert(rewritten_field(rows[0][1], true) == first_seconds());
    assert(rewritten_field(rows[1][1], true) == second_seconds());
    assert(rewritten_row(rows[0], flags) =~= example_rewritten()[0]);
    assert(rewritten_row(rows[1], flags) =~= example_rewritten()[1]);
    assert(out =~= example_rewritten());
}

/// The worked table is delivered as its headers, a row count of two and
/// one batch of the two rewritten rows.
pub proof fn lemma_example_delivery()
    ensures
        plan_of(table_of(example_headers(), example_rows())) == seq![
            MessageView::Headers(example_headers()),
            MessageView::TotalRows(2),
            MessageView::RowsBatch(example_rewritten()),
        ],
{
    lemma_example_table();
    let table = table_of(example_headers(), example_rows());
    assert(table.rows.len() == 2);
    assert(batch_of(table.rows, 0) =~= example_rewritten());
    assert(plan_of(table) =~= seq![
        MessageView::Headers(example_headers()),
        MessageView::TotalRows(2),
        MessageView::RowsBatch(example_rewritten()),
    ]);
}

/// Delimited text whose header record and records are those of the worked
/// table is read as that table, and so delivered as above.
pub proof fn lemma_example_from_delimited_text(bytes: Seq<u8>)
    ensures
        csv_header_record(bytes) == Ok::<Seq<Seq<char>>, Seq<char>>(example_headers())
            && csv_data_records(bytes) == Ok::<Seq<Seq<Seq<char>>>, Seq<char>>(example_rows())
            ==> csv_table(bytes) == Ok::<TableView, ErrorView>(
            table_of(example_headers(), example_rows()),
        ) && plan_of(csv_table(bytes)->Ok_0) == seq![
            MessageView::Headers(example_headers()),
            MessageView::TotalRows(2),
            MessageView::RowsBatch(example_rewritten()),
        ],
{
    lemma_example_delivery();
}

} // verus!

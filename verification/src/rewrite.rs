//! The rewrite of duration columns to canonical seconds.

use vstd::prelude::*;
use crate::duration::{
    canonical_text, duration_millis, lemma_canonical_is_no_duration, parse_duration_to_seconds,
};
use crate::infer::{
    classification, counted, is_duration_column, non_empty_count, parsable, parsable_count,
};
use crate::table::{rows_view, RowData};

verus! {

/// Whether `flags` marks column `col`. A column past the end of `flags` is
/// not marked.
pub open spec fn flag_at(flags: Seq<bool>, col: int) -> bool {
    0 <= col < flags.len() && flags[col]
}

/// A field after the rewrite: in a marked column a field that states a
/// duration becomes its canonical text; every other field stays as it is.
pub open spec fn rewritten_field(field: Seq<char>, marked: bool) -> Seq<char> {
    if marked {
        match duration_millis(field) {
            Some(millis) => canonical_text(millis),
            None => field,
        }
    } else {
        field
    }
}

/// A row after the rewrite.
pub open spec fn rewritten_row(row: Seq<Seq<char>>, flags: Seq<bool>) -> Seq<Seq<char>> {
    Seq::new(row.len(), |col: int| rewritten_field(row[col], flag_at(flags, col)))
}

/// The rows after the rewrite: as many rows, in the same order, each with as
/// many fields as before.
pub open spec fn rewritten_rows(rows: Seq<Seq<Seq<char>>>, flags: Seq<bool>) -> Seq<
    Seq<Seq<char>>,
> {
    Seq::new(rows.len(), |i: int| rewritten_row(rows[i], flags))
}

/// Rewrites one row.
pub fn convert_row(row: &RowData, is_duration: &[bool]) -> (out: RowData)
    ensures
        out@ == rewritten_row(row@, is_duration@),
{
    let mut fields: Vec<String> = Vec::new();
    let mut col: usize = 0;
    while col < row.fields.len()
        invariant
            col <= row.fields.len(),
            fields.len() == col,
            forall|x: int|
                0 <= x < col ==> (#[trigger] fields@[x])@ == rewritten_field(
                    row.fields@[x]@,
                    flag_at(is_duration@, x),
                ),
        decreases row.fields.len() - col,
    {
        let marked: bool = col < is_duration.len() && is_duration[col];
        let parsed = if marked {
            parse_duration_to_seconds(row.fields[col].as_str())
        } else {
            None
        };
        let field: String = match parsed {
            Some(d) => d.to_canonical(),
            None => row.fields[col].clone(),
        };
        fields.push(field);
        col += 1;
    }
    let out = RowData { fields };
    assert(out@ =~= rewritten_row(row@, is_duration@));
    out
}

/// Rewrites the marked columns: every field of a marked column that states
/// a duration is replaced by the canonical text of its seconds. All other
/// fields, and the number and order of rows and fields, stay as they are.
pub fn convert_duration_columns(rows: Vec<RowData>, is_duration: &[bool]) -> (out: Vec<RowData>)
    ensures
        rows_view(out@) == rewritten_rows(rows_view(rows@), is_duration@),
{
    let mut out: Vec<RowData> = Vec::new();
    let mut i: usize = 0;
    while i < rows.len()
        invariant
            i <= rows.len(),
            out.len() == i,
            forall|x: int|
                0 <= x < i ==> (#[trigger] out@[x])@ == rewritten_row(rows@[x]@, is_duration@),
        decreases rows.len() - i,
    {
        out.push(convert_row(&rows[i], is_duration));
        i += 1;
    }
    assert(rows_view(out@) =~= rewritten_rows(rows_view(rows@), is_duration@));
    out
}

/// No rewritten field of a marked column states a duration.
pub proof fn lemma_rewritten_field_is_no_duration(field: Seq<char>)
    ensures
        duration_millis(rewritten_field(field, true)) is None,
{
    match duration_millis(field) {
        Some(millis) => {
            lemma_canonical_is_no_duration(millis);
        },
        None => {},
    }
}

/// Rewriting with the same marks a second time changes nothing.
pub proof fn lemma_rewrite_twice_same_flags(rows: Seq<Seq<Seq<char>>>, flags: Seq<bool>)
    ensures
        rewritten_rows(rewritten_rows(rows, flags), flags) == rewritten_rows(rows, flags),
{
    let once = rewritten_rows(rows, flags);
    let twice = rewritten_rows(once, flags);
    assert forall|i: int| 0 <= i < rows.len() implies #[trigger] twice[i] == once[i] by {
        assert forall|c: int| 0 <= c < rows[i].len() implies #[trigger] twice[i][c]
            == once[i][c] by {
            if flag_at(flags, c) {
                lemma_rewritten_field_is_no_duration(rows[i][c]);
            }
        }
        assert(twice[i] =~= once[i]);
    }
    assert(twice =~= once);
}

/// The counts of a column depend on the fields of that column alone.
pub proof fn lemma_counts_of_equal_column(
    a: Seq<Seq<Seq<char>>>,
    b: Seq<Seq<Seq<char>>>,
    col: int,
    upto: int,
)
    requires
        0 <= upto <= a.len(),
        a.len() == b.len(),
        forall|i: int| 0 <= i < a.len() ==> (#[trigger] a[i]).len() == (#[trigger] b[i]).len(),
        forall|i: int| 0 <= i < a.len() && 0 <= col < a[i].len() ==> (#[trigger] a[i])[col] == b[i][col],
    ensures
        non_empty_count(a, col, upto) == non_empty_count(b, col, upto),
        parsable_count(a, col, upto) == parsable_count(b, col, upto),
    decreases upto,
{
    if upto > 0 {
        lemma_counts_of_equal_column(a, b, col, upto - 1);
        assert(a[upto - 1].len() == b[upto - 1].len());
        assert(counted(a[upto - 1], col) == counted(b[upto - 1], col));
        assert(parsable(a[upto - 1], col) == parsable(b[upto - 1], col));
    }
}

/// A column without a field that states a duration has a count of zero.
pub proof fn lemma_no_duration_counts_zero(rows: Seq<Seq<Seq<char>>>, col: int, upto: int)
    requires
        0 <= upto <= rows.len(),
        forall|i: int|
            0 <= i < rows.len() && 0 <= col < rows[i].len() ==> duration_millis(
                (#[trigger] rows[i])[col],
            ) is None,
    ensures
        parsable_count(rows, col, upto) == 0,
    decreases upto,
{
    if upto > 0 {
        lemma_no_duration_counts_zero(rows, col, upto - 1);
        assert(!parsable(rows[upto - 1], col));
    }
}

/// After the rewrite of the columns that inference marks, inference marks
/// no column: a rewritten column holds no duration, and the others are as
/// they were.
pub proof fn lemma_rewritten_table_has_no_duration_column(
    headers_len: nat,
    rows: Seq<Seq<Seq<char>>>,
    col: int,
)
    requires
        0 <= col < headers_len,
    ensures
        !is_duration_column(rewritten_rows(rows, classification(headers_len, rows)), col),
{
    let flags = classification(headers_len, rows);
    let once = rewritten_rows(rows, flags);
    if flags[col] {
        assert forall|i: int| 0 <= i < once.len() && 0 <= col < once[i].len() implies
            duration_millis((#[trigger] once[i])[col]) is None by {
            lemma_rewritten_field_is_no_duration(rows[i][col]);
        }
        lemma_no_duration_counts_zero(once, col, once.len() as int);
    } else {
        lemma_counts_of_equal_column(once, rows, col, rows.len() as int);
    }
}

/// Inference and rewrite, run again on their own result, change nothing:
/// the table after the second run is the table after the first.
pub proof fn lemma_infer_and_rewrite_twice(headers_len: nat, rows: Seq<Seq<Seq<char>>>)
    ensures
        ({
            let once = rewritten_rows(rows, classification(headers_len, rows));
            rewritten_rows(once, classification(headers_len, once)) == once
        }),
{
    let once = rewritten_rows(rows, classification(headers_len, rows));
    let again = classification(headers_len, once);
    let twice = rewritten_rows(once, again);
    assert forall|i: int| 0 <= i < once.len() implies #[trigger] twice[i] == once[i] by {
        assert forall|c: int| 0 <= c < once[i].len() implies #[trigger] twice[i][c]
            == once[i][c] by {
            if 0 <= c < headers_len {
                lemma_rewritten_table_has_no_duration_column(headers_len, rows, c);
            }
        }
        assert(twice[i] =~= once[i]);
    }
    assert(twice =~= once);
}

} // verus!

//! Which columns of a table hold durations.

use vstd::prelude::*;
use crate::duration::{duration_millis, parse_trimmed};
use crate::table::{rows_view, RowData};
use crate::text::{chars_of, trim_chars, trimmed};

verus! {

/// Whether `row` has a field in column `col` that is more than white space.
pub open spec fn counted(row: Seq<Seq<char>>, col: int) -> bool {
    0 <= col < row.len() && trimmed(row[col]).len() > 0
}

/// Whether `row` has a field in column `col` that states a duration.
pub open spec fn parsable(row: Seq<Seq<char>>, col: int) -> bool {
    counted(row, col) && duration_millis(row[col]) is Some
}

/// How many of the first `upto` rows have a field in column `col` that is
/// more than white space.
pub open spec fn non_empty_count(rows: Seq<Seq<Seq<char>>>, col: int, upto: int) -> nat
    decreases upto,
{
    if upto <= 0 {
        0
    } else {
        non_empty_count(rows, col, upto - 1) + if counted(rows[upto - 1], col) {
            1nat
        } else {
            0nat
        }
    }
}

/// How many of the first `upto` rows have a field in column `col` that
/// states a duration.
pub open spec fn parsable_count(rows: Seq<Seq<Seq<char>>>, col: int, upto: int) -> nat
    decreases upto,
{
    if upto <= 0 {
        0
    } else {
        parsable_count(rows, col, upto - 1) + if parsable(rows[upto - 1], col) {
            1nat
        } else {
            0nat
        }
    }
}

/// The threshold: there is a value, and at least four in five of the values
/// state a duration.
pub open spec fn meets_threshold(parsable: nat, non_empty: nat) -> bool {
    non_empty > 0 && 5 * parsable >= 4 * non_empty
}

/// Whether column `col` of `rows` is a duration column.
pub open spec fn is_duration_column(rows: Seq<Seq<Seq<char>>>, col: int) -> bool {
    meets_threshold(
        parsable_count(rows, col, rows.len() as int),
        non_empty_count(rows, col, rows.len() as int),
    )
}

/// The classification of the first `headers_len` columns of `rows`.
pub open spec fn classification(headers_len: nat, rows: Seq<Seq<Seq<char>>>) -> Seq<bool> {
    Seq::new(headers_len, |col: int| is_duration_column(rows, col))
}

/// The counts of column `col` over all of `rows`: the fields that are more
/// than white space, and those among them that state a duration.
pub fn count_column(rows: &[RowData], col: usize) -> (r: (usize, usize))
    ensures
        r.0 == non_empty_count(rows_view(rows@), col as int, rows@.len() as int),
        r.1 == parsable_count(rows_view(rows@), col as int, rows@.len() as int),
        r.1 <= r.0 <= rows@.len(),
{
    let ghost rv = rows_view(rows@);
    let mut non_empty: usize = 0;
    let mut parsed: usize = 0;
    let mut i: usize = 0;
    while i < rows.len()
        invariant
            i <= rows@.len(),
            rv == rows_view(rows@),
            non_empty == non_empty_count(rv, col as int, i as int),
            parsed == parsable_count(rv, col as int, i as int),
            parsed <= non_empty <= i,
        decreases rows@.len() - i,
    {
        let row = &rows[i];
        assert(rv[i as int] == row@);
        if col < row.fields.len() {
            let chars = chars_of(row.fields[col].as_str());
            let t = trim_chars(&chars);
            if t.len() > 0 {
                non_empty += 1;
                if parse_trimmed(&t).is_some() {
                    parsed += 1;
                }
            }
        }
        i += 1;
    }
    (non_empty, parsed)
}

/// Whether the counts of a column make it a duration column.
pub fn threshold_met(parsed: usize, non_empty: usize) -> (r: bool)
    ensures
        r == meets_threshold(parsed as nat, non_empty as nat),
{
    non_empty > 0 && 5 * (parsed as u128) >= 4 * (non_empty as u128)
}

/// Classifies each of the first `headers_len` columns: a column is a
/// duration column where at least one of its fields is more than white
/// space and at least four in five of those state a duration.
pub fn detect_duration_columns(headers_len: usize, rows: &[RowData]) -> (flags: Vec<bool>)
    ensures
        flags@ == classification(headers_len as nat, rows_view(rows@)),
{
    let mut flags: Vec<bool> = Vec::new();
    let mut col: usize = 0;
    while col < headers_len
        invariant
            col <= headers_len,
            flags@ == classification(col as nat, rows_view(rows@)),
        decreases headers_len - col,
    {
        let counts = count_column(rows, col);
        flags.push(threshold_met(counts.1, counts.0));
        col += 1;
        assert(flags@ =~= classification(col as nat, rows_view(rows@)));
    }
    flags
}

/// Three durations among four values are too few for a duration column;
/// four among five are enough.
pub proof fn lemma_threshold_boundary(rows: Seq<Seq<Seq<char>>>, col: int)
    ensures
        non_empty_count(rows, col, rows.len() as int) == 4 && parsable_count(
            rows,
            col,
            rows.len() as int,
        ) == 3 ==> !is_duration_column(rows, col),
        non_empty_count(rows, col, rows.len() as int) == 5 && parsable_count(
            rows,
            col,
            rows.len() as int,
        ) == 4 ==> is_duration_column(rows, col),
        non_empty_count(rows, col, rows.len() as int) == 0 ==> !is_duration_column(rows, col),
{
}

} // verus!

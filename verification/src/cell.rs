//! The cells of a worksheet and their text.

use vstd::prelude::*;
use vstd::string::*;
use crate::table::texts_view;
use crate::text::{append_decimal, decimal_text};

verus! {

/// One cell of a worksheet, by kind. A cell that holds a floating-point
/// number carries that number as its decimal text; a cell that holds a
/// date or a time carries the seconds since the sheet's day zero, the day
/// serial times 86400, as text with six decimal places.
#[derive(Clone, Debug, PartialEq, Eq)]
pub enum Cell {
    /// A string.
    Text(String),
    /// A whole number.
    Int(i64),
    /// A floating-point number, as its decimal text.
    Float(String),
    /// A truth value.
    Bool(bool),
    /// A date or time, as the text of its seconds.
    DateTime(String),
    /// A date or time in ISO 8601.
    DateTimeIso(String),
    /// A duration in ISO 8601.
    DurationIso(String),
    /// A cell that holds an error.
    Error,
    /// A cell that holds nothing.
    Empty,
}

/// A whole number in decimal, with a minus sign where it is negative.
pub open spec fn int_text(i: int) -> Seq<char> {
    if i < 0 {
        seq!['-'] + decimal_text((-i) as nat)
    } else {
        decimal_text(i as nat)
    }
}

/// The text of a truth value.
pub open spec fn bool_text(b: bool) -> Seq<char> {
    if b {
        seq!['t', 'r', 'u', 'e']
    } else {
        seq!['f', 'a', 'l', 's', 'e']
    }
}

/// The text of a cell: strings and the texts that a cell carries pass
/// through, numbers and truth values are written out, and a cell with an
/// error or with nothing gives the empty text.
pub open spec fn cell_text(cell: Cell) -> Seq<char> {
    match cell {
        Cell::Text(s) => s@,
        Cell::Int(i) => int_text(i as int),
        Cell::Float(s) => s@,
        Cell::Bool(b) => bool_text(b),
        Cell::DateTime(s) => s@,
        Cell::DateTimeIso(s) => s@,
        Cell::DurationIso(s) => s@,
        Cell::Error => Seq::empty(),
        Cell::Empty => Seq::empty(),
    }
}

/// The texts of a row of cells.
pub open spec fn cells_text(row: Seq<Cell>) -> Seq<Seq<char>> {
    Seq::new(row.len(), |i: int| cell_text(row[i]))
}

/// The texts of the rows `cells[from..]` of a sheet.
pub open spec fn sheet_texts(cells: Seq<Vec<Cell>>, from: int) -> Seq<Seq<Seq<char>>> {
    Seq::new((cells.len() - from) as nat, |i: int| cells_text(cells[from + i]@))
}

/// Writes a whole number in decimal.
pub fn int_to_string(i: i64) -> (r: String)
    ensures
        r@ == int_text(i as int),
{
    let mut out = String::new();
    if i < 0 {
        let magnitude: u64 = if i == i64::MIN {
            9_223_372_036_854_775_808u64
        } else {
            (-i) as u64
        };
        out.append("-");
        append_decimal(&mut out, magnitude);
        proof {
            reveal_strlit("-");
        }
        assert(out@ =~= int_text(i as int));
    } else {
        append_decimal(&mut out, i as u64);
        assert(out@ =~= int_text(i as int));
    }
    out
}

/// Gives the text of one cell. Every kind of cell has a text: there is no
/// failure.
pub fn excel_cell_to_string_seconds(cell: &Cell) -> (r: String)
    ensures
        r@ == cell_text(*cell),
{
    match cell {
        Cell::Text(s) => s.clone(),
        Cell::Int(i) => int_to_string(*i),
        Cell::Float(s) => s.clone(),
        Cell::Bool(b) => {
            proof {
                reveal_strlit("true");
                reveal_strlit("false");
            }
            let r = if *b {
                String::from_str("true")
            } else {
                String::from_str("false")
            };
            assert(r@ =~= bool_text(*b));
            r
        },
        Cell::DateTime(s) => s.clone(),
        Cell::DateTimeIso(s) => s.clone(),
        Cell::DurationIso(s) => s.clone(),
        Cell::Error => String::new(),
        Cell::Empty => String::new(),
    }
}

/// Gives the texts of a row of cells, in order.
pub fn row_to_strings(row: &Vec<Cell>) -> (out: Vec<String>)
    ensures
        texts_view(out@) == cells_text(row@),
{
    let mut out: Vec<String> = Vec::new();
    let mut i: usize = 0;
    while i < row.len()
        invariant
            i <= row.len(),
            out.len() == i,
            forall|x: int| 0 <= x < i ==> (#[trigger] out@[x])@ == cell_text(row@[x]),
        decreases row.len() - i,
    {
        out.push(excel_cell_to_string_seconds(&row[i]));
        i += 1;
    }
    assert(texts_view(out@) =~= cells_text(row@));
    out
}

} // verus!

//! The table: a row of headers and the rows under it, every cell a text.

use vstd::prelude::*;

verus! {

/// One row of a table. The fields stand in the order of the headers; a row
/// may hold fewer or more fields than there are headers.
#[derive(Clone, Debug, PartialEq, Eq)]
pub struct RowData {
    pub fields: Vec<String>,
}

/// A table as it was read: the headers and the rows.
#[derive(Clone, Debug, PartialEq, Eq)]
pub struct ParsedFileResult {
    pub headers: Vec<String>,
    pub rows: Vec<RowData>,
}

/// A table as mathematics: each text is its sequence of characters.
pub ghost struct TableView {
    pub headers: Seq<Seq<char>>,
    pub rows: Seq<Seq<Seq<char>>>,
}

/// The texts of `v` as sequences of characters.
pub open spec fn texts_view(v: Seq<String>) -> Seq<Seq<char>> {
    Seq::new(v.len(), |i: int| v[i]@)
}

/// The rows of `rows`, each as the sequence of its fields.
pub open spec fn rows_view(rows: Seq<RowData>) -> Seq<Seq<Seq<char>>> {
    Seq::new(rows.len(), |i: int| rows[i]@)
}

impl View for RowData {
    type V = Seq<Seq<char>>;

    open spec fn view(&self) -> Seq<Seq<char>> {
        texts_view(self.fields@)
    }
}

impl View for ParsedFileResult {
    type V = TableView;

    open spec fn view(&self) -> TableView {
        TableView { headers: texts_view(self.headers@), rows: rows_view(self.rows@) }
    }
}

/// A copy of `texts`.
pub fn copy_texts(texts: &Vec<String>) -> (out: Vec<String>)
    ensures
        texts_view(out@) == texts_view(texts@),
{
    let mut out: Vec<String> = Vec::new();
    let mut i: usize = 0;
    while i < texts.len()
        invariant
            i <= texts.len(),
            out.len() == i,
            forall|x: int| 0 <= x < i ==> (#[trigger] out@[x])@ == texts@[x]@,
        decreases texts.len() - i,
    {
        out.push(texts[i].clone());
        i += 1;
    }
    assert(texts_view(out@) =~= texts_view(texts@));
    out
}

/// A copy of `row`.
pub fn copy_row(row: &RowData) -> (out: RowData)
    ensures
        out@ == row@,
{
    RowData { fields: copy_texts(&row.fields) }
}

} // verus!

//! The ways in which reading and delivering a table can fail.

use vstd::prelude::*;
use vstd::string::*;

verus! {

/// Why a file gave no table, or why a table did not reach its consumer.
/// Each failure ends the whole run.
#[derive(Clone, Debug, PartialEq, Eq)]
pub enum ParseError {
    /// The path names no file.
    NotFound,
    /// The extension of the path is none of the recognised ones.
    UnsupportedFormat,
    /// The file or workbook could not be opened; with the cause.
    Io(String),
    /// The file was opened, but its contents could not be decoded; with the
    /// cause.
    Format(String),
    /// A message could not be sent; with the cause.
    Delivery(String),
}

/// A failure as mathematics: each cause is its sequence of characters.
pub ghost enum ErrorView {
    NotFound,
    UnsupportedFormat,
    Io(Seq<char>),
    Format(Seq<char>),
    Delivery(Seq<char>),
}

impl View for ParseError {
    type V = ErrorView;

    open spec fn view(&self) -> ErrorView {
        match *self {
            ParseError::NotFound => ErrorView::NotFound,
            ParseError::UnsupportedFormat => ErrorView::UnsupportedFormat,
            ParseError::Io(m) => ErrorView::Io(m@),
            ParseError::Format(m) => ErrorView::Format(m@),
            ParseError::Delivery(m) => ErrorView::Delivery(m@),
        }
    }
}

/// The text that a failure shows to the caller.
pub open spec fn message_text(e: ErrorView) -> Seq<char> {
    match e {
        ErrorView::NotFound => "File does not exist."@,
        ErrorView::UnsupportedFormat => "Unsupported file format."@,
        ErrorView::Io(m) => m,
        ErrorView::Format(m) => m,
        ErrorView::Delivery(m) => m,
    }
}

impl ParseError {
    /// The short text that the caller is shown.
    pub fn message(&self) -> (r: String)
        ensures
            r@ == message_text(self@),
    {
        match self {
            ParseError::NotFound => String::from_str("File does not exist."),
            ParseError::UnsupportedFormat => String::from_str("Unsupported file format."),
            ParseError::Io(m) => m.clone(),
            ParseError::Format(m) => m.clone(),
            ParseError::Delivery(m) => m.clone(),
        }
    }
}

} // verus!

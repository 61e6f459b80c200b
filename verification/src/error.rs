//! What can go wrong while a table is read.
use vstd::prelude::*;

verus! {

/// Why reading a table stopped. The first failure ends the run; nothing is
/// recovered or retried.
#[derive(Debug, PartialEq, Eq)]
pub enum Error {
    /// The argument of a size directive is no unsigned 16-bit decimal number,
    /// or the table it declares cannot be addressed on this machine. Holds the
    /// argument.
    InvalidSize(String),
    /// An input range lacks its delimiter, or one of its bounds is no number.
    /// Holds the range as written.
    InvalidInputRange(String),
    /// A row of samples or a domain bound is not three numbers. Holds the line.
    InvalidRgb(String),
    /// An input range came before any table was declared. Holds the line.
    UnexpectedInputRange(String),
    /// A row was pushed into a collector that has no room left.
    CubeIsFull,
    /// A row of samples came before any table was declared.
    UnexpectedData,
    /// The lines ran out before the primary table was complete.
    Eof,
}

/// The mathematical content of an [`Error`].
pub enum ErrorView {
    InvalidSize(Seq<char>),
    InvalidInputRange(Seq<char>),
    InvalidRgb(Seq<char>),
    UnexpectedInputRange(Seq<char>),
    CubeIsFull,
    UnexpectedData,
    Eof,
}

impl View for Error {
    type V = ErrorView;

    open spec fn view(&self) -> ErrorView {
        match self {
            Error::InvalidSize(text) => ErrorView::InvalidSize(text@),
            Error::InvalidInputRange(text) => ErrorView::InvalidInputRange(text@),
            Error::InvalidRgb(line) => ErrorView::InvalidRgb(line@),
            Error::UnexpectedInputRange(line) => ErrorView::UnexpectedInputRange(line@),
            Error::CubeIsFull => ErrorView::CubeIsFull,
            Error::UnexpectedData => ErrorView::UnexpectedData,
            Error::Eof => ErrorView::Eof,
        }
    }
}

} // verus!

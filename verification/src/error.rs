//! The errors of parsing.

use vstd::prelude::*;

verus! {

/// What an [`Error`] says, with each text held as a sequence of characters.
pub enum ErrorView {
    NoNatural,
    InvalidNatural(char),
    InvalidNote(Seq<char>),
    BarLineShouldStartWithStripe(Seq<char>),
    BarLineShouldEndWithStripe(Seq<char>),
}

/// Why a text is not a note, a chord, a bar, a bar line or a chart.
#[derive(Debug, PartialEq, Eq)]
pub enum Error {
    /// There is no character where the letter of a note has to stand.
    NoNatural,
    /// The character where the letter of a note has to stand is none of
    /// C, D, E, F, G, A, B, H, in either case.
    InvalidNatural(char),
    /// The letter and the accidental name no note: Cb, E#, Fb, B#, Hb, H#.
    InvalidNote(&'static str),
    /// The first character of the line that is no whitespace is not `|`.
    /// Holds the line as it was given.
    BarLineShouldStartWithStripe(String),
    /// The last character of the line that is no whitespace is not `|`.
    /// Holds the line as it was given.
    BarLineShouldEndWithStripe(String),
}

impl View for Error {
    type V = ErrorView;

    open spec fn view(&self) -> ErrorView {
        match self {
            Error::NoNatural => ErrorView::NoNatural,
            Error::InvalidNatural(c) => ErrorView::InvalidNatural(*c),
            Error::InvalidNote(s) => ErrorView::InvalidNote(s@),
            Error::BarLineShouldStartWithStripe(s) => ErrorView::BarLineShouldStartWithStripe(s@),
            Error::BarLineShouldEndWithStripe(s) => ErrorView::BarLineShouldEndWithStripe(s@),
        }
    }
}

/// Whether a result shows what `expected` says: the same value, or the same
/// error, each taken by its view.
pub open spec fn result_is<T: View>(r: Result<T, Error>, expected: Result<T::V, ErrorView>) -> bool {
    match r {
        Ok(value) => expected == Ok::<T::V, ErrorView>(value@),
        Err(e) => expected == Err::<T::V, ErrorView>(e@),
    }
}

} // verus!

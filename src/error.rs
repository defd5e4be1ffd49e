use vstd::prelude::*;

verus! {

/// Declares `std::io::Error` so that read failures can be carried in `ParseError`.
#[verifier::external_type_specification]
#[verifier::external_body]
pub struct ExIoError(std::io::Error);

/// Every way parsing a clippings export can fail.
#[derive(Debug)]
pub enum ParseError {
    /// The file could not be opened or read.
    FileReadError(std::io::Error),
    /// The title line does not hold a non-empty title.
    TitleNotFound,
    /// The title line has no trailing parenthesised author.
    AuthorNotFound,
    /// The metadata line has no kind label.
    KindNotFound,
    /// The metadata line has no location clause.
    LocationNotFound,
    /// The metadata line has no date clause.
    DateNotFound,
    /// The kind label is none of `Highlight`, `Note`, `Bookmark`.
    InvalidKind(String),
    /// The page clause holds something other than an unsigned integer.
    InvalidPage(String),
    /// The location is neither `N` nor `N-M`.
    InvalidLocation(String),
    /// The date does not follow the export's date format.
    InvalidDate(String),
}

/// What a `ParseError` says, with its text as characters.
pub enum ErrorView {
    FileReadError,
    TitleNotFound,
    AuthorNotFound,
    KindNotFound,
    LocationNotFound,
    DateNotFound,
    InvalidKind(Seq<char>),
    InvalidPage(Seq<char>),
    InvalidLocation(Seq<char>),
    InvalidDate(Seq<char>),
}

impl View for ParseError {
    type V = ErrorView;

    open spec fn view(&self) -> ErrorView {
        match self {
            ParseError::FileReadError(_) => ErrorView::FileReadError,
            ParseError::TitleNotFound => ErrorView::TitleNotFound,
            ParseError::AuthorNotFound => ErrorView::AuthorNotFound,
            ParseError::KindNotFound => ErrorView::KindNotFound,
            ParseError::LocationNotFound => ErrorView::LocationNotFound,
            ParseError::DateNotFound => ErrorView::DateNotFound,
            ParseError::InvalidKind(s) => ErrorView::InvalidKind(s@),
            ParseError::InvalidPage(s) => ErrorView::InvalidPage(s@),
            ParseError::InvalidLocation(s) => ErrorView::InvalidLocation(s@),
            ParseError::InvalidDate(s) => ErrorView::InvalidDate(s@),
        }
    }
}

} // verus!

//! Entries and their extraction from one group of lines.
use vstd::prelude::*;
use crate::error::{ErrorView, ParseError};
use crate::fields::{EntryType, Location, Page};
use crate::header::{metadata_of, parse_metadata_line, parse_title_line, title_author_of, Metadata, MetadataView};
use crate::timestamp::{parse_timestamp, timestamp_of, Timestamp};

verus! {

/// One highlight, note or bookmark of the export.
pub struct Entry {
    title: String,
    author: String,
    kind: EntryType,
    page: Option<Page>,
    location: Location,
    creation_date: Timestamp,
    text: String,
}

pub struct EntryView {
    pub title: Seq<char>,
    pub author: Seq<char>,
    pub kind: EntryType,
    pub page: Option<Page>,
    pub location: Location,
    pub creation_date: Timestamp,
    pub text: Seq<char>,
}

impl View for Entry {
    type V = EntryView;

    closed spec fn view(&self) -> EntryView {
        EntryView {
            title: self.title@,
            author: self.author@,
            kind: self.kind,
            page: self.page,
            location: self.location,
            creation_date: self.creation_date,
            text: self.text@,
        }
    }
}

/// The two header lines of an entry, read, with the date still as text.
pub struct Header {
    pub title: String,
    pub author: String,
    pub metadata: Metadata,
}

pub struct HeaderView {
    pub title: Seq<char>,
    pub author: Seq<char>,
    pub metadata: MetadataView,
}

impl View for Header {
    type V = HeaderView;

    open spec fn view(&self) -> HeaderView {
        HeaderView { title: self.title@, author: self.author@, metadata: self.metadata@ }
    }
}

pub open spec fn result_view<T: View>(r: Result<T, ParseError>) -> Result<T::V, ErrorView> {
    match r {
        Ok(v) => Ok(v@),
        Err(e) => Err(e@),
    }
}

pub open spec fn lines_view(lines: Seq<String>) -> Seq<Seq<char>> {
    lines.map_values(|l: String| l@)
}

/// Line `i` of a group, or the empty line where the group is shorter.
pub open spec fn line_at(lines: Seq<Seq<char>>, i: int) -> Seq<char> {
    if 0 <= i < lines.len() {
        lines[i]
    } else {
        Seq::empty()
    }
}

/// The header of a group: title line first, then metadata line.
pub open spec fn header_of(lines: Seq<Seq<char>>) -> Result<HeaderView, ErrorView> {
    match title_author_of(line_at(lines, 0)) {
        Err(e) => Err(e),
        Ok((title, author)) => match metadata_of(line_at(lines, 1)) {
            Err(e) => Err(e),
            Ok(metadata) => Ok(HeaderView { title, author, metadata }),
        },
    }
}

/// The entry that a header, the timestamp read from its date text, and a body make.
pub open spec fn entry_from(h: HeaderView, date: Option<Timestamp>, text: Seq<char>) -> Result<EntryView, ErrorView> {
    match date {
        None => Err(ErrorView::InvalidDate(h.metadata.date_text)),
        Some(d) => Ok(
            EntryView {
                title: h.title,
                author: h.author,
                kind: h.metadata.kind,
                page: h.metadata.page,
                location: h.metadata.location,
                creation_date: d,
                text,
            },
        ),
    }
}

/// The entry that a group of lines describes: header on lines 0 and 1, line 2
/// unread, body on line 3 (empty when absent).
pub open spec fn entry_of(lines: Seq<Seq<char>>) -> Result<EntryView, ErrorView> {
    match header_of(lines) {
        Err(e) => Err(e),
        Ok(h) => entry_from(h, timestamp_of(h.metadata.date_text), line_at(lines, 3)),
    }
}

impl Entry {
    pub fn title(&self) -> (r: &String)
        ensures
            r@ == self@.title,
    {
        &self.title
    }

    pub fn author(&self) -> (r: &String)
        ensures
            r@ == self@.author,
    {
        &self.author
    }

    pub fn kind(&self) -> (r: EntryType)
        ensures
            r == self@.kind,
    {
        self.kind
    }

    pub fn page(&self) -> (r: Option<Page>)
        ensures
            r == self@.page,
    {
        self.page
    }

    pub fn location(&self) -> (r: Location)
        ensures
            r == self@.location,
    {
        self.location
    }

    pub fn creation_date(&self) -> (r: Timestamp)
        ensures
            r == self@.creation_date,
    {
        self.creation_date
    }

    pub fn text(&self) -> (r: &String)
        ensures
            r@ == self@.text,
    {
        &self.text
    }
}

fn line_or_empty(lines: &Vec<String>, i: usize) -> (r: &str)
    ensures
        r@ == line_at(lines_view(lines@), i as int),
{
    if i < lines.len() {
        lines[i].as_str()
    } else {
        let empty = "";
        proof {
            reveal_strlit("");
            assert(empty@ =~= Seq::<char>::empty());
        }
        empty
    }
}

/// Reads the title line and the metadata line of a group.
pub fn parse_header(lines: &Vec<String>) -> (r: Result<Header, ParseError>)
    ensures
        result_view(r) == header_of(lines_view(lines@)),
{
    let (title, author) = match parse_title_line(line_or_empty(lines, 0)) {
        Ok(x) => x,
        Err(e) => return Err(e),
    };
    let metadata = match parse_metadata_line(line_or_empty(lines, 1)) {
        Ok(m) => m,
        Err(e) => return Err(e),
    };
    Ok(Header { title, author, metadata })
}

/// Completes an entry from its header, the timestamp read from the header's
/// date text, and the body text.
pub fn entry_from_header(header: Header, date: Option<Timestamp>, text: String) -> (r: Result<Entry, ParseError>)
    ensures
        result_view(r) == entry_from(header@, date, text@),
{
    match date {
        None => Err(ParseError::InvalidDate(header.metadata.date_text)),
        Some(d) => Ok(
            Entry {
                title: header.title,
                author: header.author,
                kind: header.metadata.kind,
                page: header.metadata.page,
                location: header.metadata.location,
                creation_date: d,
                text,
            },
        ),
    }
}

/// Extracts one entry from its group of lines, or the first error in the
/// order title, author, kind, page, location, date.
pub fn parse_entry(lines: &Vec<String>) -> (r: Result<Entry, ParseError>)
    ensures
        result_view(r) == entry_of(lines_view(lines@)),
{
    let header = match parse_header(lines) {
        Ok(h) => h,
        Err(e) => return Err(e),
    };
    let date = parse_timestamp(header.metadata.date_text.as_str());
    let text = line_or_empty(lines, 3).to_owned();
    entry_from_header(header, date, text)
}

} // verus!

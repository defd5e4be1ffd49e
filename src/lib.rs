//! Parsing of e-reader clippings exports into typed entries.
//!
//! An export is a flat list of lines. Entries are separated by a line of ten
//! `=`; each entry has a title line, a metadata line, a blank line and an
//! optional body line. Parsing is all or nothing: either every entry is read,
//! or the first error is returned.

pub mod entry;
pub mod error;
pub mod fields;
pub mod header;
pub mod laws;
pub mod segment;
pub mod text;
pub mod timestamp;

pub use entry::{entry_from_header, parse_entry, parse_header, Entry, Header};
pub use error::ParseError;
pub use fields::{parse_kind, parse_location, parse_page, parse_u64, EntryType, Location, Page};
pub use header::{parse_metadata_line, parse_title_line, Metadata};
pub use segment::{is_content_line, parse_lines, segment_lines, SEPARATOR};
pub use timestamp::{parse_timestamp, Timestamp, DATE_FORMAT};

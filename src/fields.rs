//! Parsers for the primitive fields of an entry: page, location and kind.
use vstd::prelude::*;
use crate::error::{ErrorView, ParseError};
use crate::text::{find_char, find_char_from, lemma_find_char_bounds, same_text};

verus! {

/// An inclusive range of device locations; a single location has equal ends.
#[derive(Debug, Clone, Copy, PartialEq, Eq, Structural)]
pub struct Location(pub u64, pub u64);

/// A printed page number.
#[derive(Debug, Clone, Copy, PartialEq, Eq, Structural)]
pub struct Page(pub u64);

/// What an entry records.
#[derive(Debug, Clone, Copy, PartialEq, Eq, Structural)]
pub enum EntryType {
    Highlight,
    Note,
    Bookmark,
}

pub open spec fn is_digit(c: char) -> bool {
    '0' <= c && c <= '9'
}

pub open spec fn all_digits(s: Seq<char>) -> bool {
    forall|i: int| 0 <= i < s.len() ==> is_digit(#[trigger] s[i])
}

/// The number that a string of decimal digits writes.
pub open spec fn digits_value(s: Seq<char>) -> nat
    decreases s.len(),
{
    if s.len() == 0 {
        0
    } else {
        digits_value(s.drop_last()) * 10 + ((s.last() as u32 - '0' as u32) as nat)
    }
}

/// The unsigned integer that `s` writes: one or more decimal digits whose value fits in `u64`.
pub open spec fn u64_of(s: Seq<char>) -> Option<u64> {
    if s.len() > 0 && all_digits(s) && digits_value(s) <= u64::MAX {
        Some(digits_value(s) as u64)
    } else {
        None
    }
}

/// The location that `s` writes: `N`, or `N-M` split at the first `-`.
pub open spec fn location_of(s: Seq<char>) -> Option<Location> {
    let k = find_char(s, '-', 0);
    if k == s.len() {
        match u64_of(s) {
            Some(n) => Some(Location(n, n)),
            None => None,
        }
    } else {
        match (u64_of(s.take(k)), u64_of(s.skip(k + 1))) {
            (Some(a), Some(b)) => Some(Location(a, b)),
            _ => None,
        }
    }
}

/// The kind that a label names.
pub open spec fn kind_of(s: Seq<char>) -> Option<EntryType> {
    if s == "Highlight"@ {
        Some(EntryType::Highlight)
    } else if s == "Note"@ {
        Some(EntryType::Note)
    } else if s == "Bookmark"@ {
        Some(EntryType::Bookmark)
    } else {
        None
    }
}

proof fn lemma_digits_value_prefix(s: Seq<char>, k: int)
    requires
        0 <= k <= s.len(),
        all_digits(s),
    ensures
        digits_value(s.take(k)) <= digits_value(s),
    decreases s.len(),
{
    if k < s.len() {
        assert(all_digits(s.drop_last()));
        assert(s.drop_last().take(k) =~= s.take(k));
        lemma_digits_value_prefix(s.drop_last(), k);
    } else {
        assert(s.take(k) =~= s);
    }
}

/// Reads an unsigned decimal integer that fills the whole of `s`.
pub fn parse_u64(s: &str) -> (r: Option<u64>)
    ensures
        r == u64_of(s@),
{
    let n = s.unicode_len();
    if n == 0 {
        return None;
    }
    let mut value: u64 = 0;
    let mut i: usize = 0;
    while i < n
        invariant
            n == s@.len(),
            i <= n,
            all_digits(s@.take(i as int)),
            value as nat == digits_value(s@.take(i as int)),
        decreases n - i,
    {
        let c = s.get_char(i);
        assert(s@.take(i + 1).drop_last() =~= s@.take(i as int));
        if c < '0' || c > '9' {
            assert(!is_digit(s@[i as int]));
            return None;
        }
        let d = (c as u32 - '0' as u32) as u64;
        if value > (u64::MAX - d) / 10 {
            assert(all_digits(s@.take(i + 1)));
            assert(digits_value(s@.take(i + 1)) > u64::MAX) by (nonlinear_arith)
                requires
                    value > (u64::MAX - d) / 10,
                    digits_value(s@.take(i + 1)) == value * 10 + d,
                    d <= 9,
            ;
            proof {
                if all_digits(s@) {
                    lemma_digits_value_prefix(s@, i + 1);
                }
            }
            return None;
        }
        value = value * 10 + d;
        i = i + 1;
    }
    assert(s@.take(n as int) =~= s@);
    Some(value)
}

/// Parses a location written `N` or `N-M`.
pub fn parse_location(s: &str) -> (r: Result<Location, ParseError>)
    ensures
        match location_of(s@) {
            Some(l) => r == Ok::<Location, ParseError>(l),
            None => r is Err && r->Err_0@ == ErrorView::InvalidLocation(s@),
        },
{
    let n = s.unicode_len();
    let k = find_char_from(s, '-', 0);
    proof {
        lemma_find_char_bounds(s@, '-', 0);
    }
    if k == n {
        match parse_u64(s) {
            Some(v) => Ok(Location(v, v)),
            None => Err(ParseError::InvalidLocation(s.to_owned())),
        }
    } else {
        let a = parse_u64(s.substring_char(0, k));
        let b = parse_u64(s.substring_char(k + 1, n));
        proof {
            assert(s@.subrange(0, k as int) =~= s@.take(k as int));
            assert(s@.subrange(k + 1, n as int) =~= s@.skip(k + 1));
        }
        match (a, b) {
            (Some(x), Some(y)) => Ok(Location(x, y)),
            _ => Err(ParseError::InvalidLocation(s.to_owned())),
        }
    }
}

/// Parses a page number.
pub fn parse_page(s: &str) -> (r: Result<Page, ParseError>)
    ensures
        match u64_of(s@) {
            Some(n) => r == Ok::<Page, ParseError>(Page(n)),
            None => r is Err && r->Err_0@ == ErrorView::InvalidPage(s@),
        },
{
    match parse_u64(s) {
        Some(v) => Ok(Page(v)),
        None => Err(ParseError::InvalidPage(s.to_owned())),
    }
}

/// Parses a kind label; the match is exact and case-sensitive.
pub fn parse_kind(s: &str) -> (r: Result<EntryType, ParseError>)
    ensures
        match kind_of(s@) {
            Some(k) => r == Ok::<EntryType, ParseError>(k),
            None => r is Err && r->Err_0@ == ErrorView::InvalidKind(s@),
        },
{
    if same_text(s, "Highlight") {
        Ok(EntryType::Highlight)
    } else if same_text(s, "Note") {
        Ok(EntryType::Note)
    } else if same_text(s, "Bookmark") {
        Ok(EntryType::Bookmark)
    } else {
        Err(ParseError::InvalidKind(s.to_owned()))
    }
}

impl std::str::FromStr for Location {
    type Err = ParseError;

    fn from_str(s: &str) -> (r: Result<Location, ParseError>)
        ensures
            match location_of(s@) {
                Some(l) => r == Ok::<Location, ParseError>(l),
                None => r is Err && r->Err_0@ == ErrorView::InvalidLocation(s@),
            },
    {
        parse_location(s)
    }
}

impl std::str::FromStr for Page {
    type Err = ParseError;

    fn from_str(s: &str) -> (r: Result<Page, ParseError>)
        ensures
            match u64_of(s@) {
                Some(n) => r == Ok::<Page, ParseError>(Page(n)),
                None => r is Err && r->Err_0@ == ErrorView::InvalidPage(s@),
            },
    {
        parse_page(s)
    }
}

impl std::str::FromStr for EntryType {
    type Err = ParseError;

    fn from_str(s: &str) -> (r: Result<EntryType, ParseError>)
        ensures
            match kind_of(s@) {
                Some(k) => r == Ok::<EntryType, ParseError>(k),
                None => r is Err && r->Err_0@ == ErrorView::InvalidKind(s@),
            },
    {
        parse_kind(s)
    }
}

} // verus!

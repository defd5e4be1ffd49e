//! The two header lines of an entry: `<title> (<author>)` and the metadata line
//! `- Your <kind> on[ page <N> |] Location <range> | Added on <date>`.
use vstd::prelude::*;
use crate::error::{ErrorView, ParseError};
use crate::fields::{kind_of, location_of, parse_kind, parse_location, parse_page, u64_of, EntryType, Location, Page};
use crate::text::{find_char, find_char_from, lemma_find_char_bounds, occurs_at, occurs_at_exec};

verus! {

/// Index of the last ` (` in `s` that starts at or before `i`, or -1.
pub open spec fn last_open(s: Seq<char>, i: int) -> int
    decreases i + 1,
{
    if i < 0 {
        -1
    } else if occurs_at(s, seq![' ', '('], i) {
        i
    } else {
        last_open(s, i - 1)
    }
}

/// Title and author of a title line: the title is everything before the last
/// ` (`, the author what lies between it and the closing `)` that ends the line.
pub open spec fn title_author_of(s: Seq<char>) -> Result<(Seq<char>, Seq<char>), ErrorView> {
    let k = last_open(s, s.len() - 2);
    if s.len() == 0 {
        Err(ErrorView::TitleNotFound)
    } else if s.last() != ')' || k < 0 {
        Err(ErrorView::AuthorNotFound)
    } else if k == 0 {
        Err(ErrorView::TitleNotFound)
    } else {
        Ok((s.take(k), s.subrange(k + 2, s.len() - 1)))
    }
}

/// End of the space-free word of `s` that starts at `from`.
pub open spec fn word_end(s: Seq<char>, from: int) -> int {
    find_char(s, ' ', from)
}

/// What the metadata line holds before its date is read.
pub struct Metadata {
    pub kind: EntryType,
    pub page: Option<Page>,
    pub location: Location,
    pub date_text: String,
}

pub struct MetadataView {
    pub kind: EntryType,
    pub page: Option<Page>,
    pub location: Location,
    pub date_text: Seq<char>,
}

impl View for Metadata {
    type V = MetadataView;

    open spec fn view(&self) -> MetadataView {
        MetadataView {
            kind: self.kind,
            page: self.page,
            location: self.location,
            date_text: self.date_text@,
        }
    }
}

/// The location clause and the date clause, from `at`, where ` Location ` should start.
pub open spec fn location_date_of(m: Seq<char>, at: int) -> Result<(Location, Seq<char>), ErrorView> {
    let ls = at + 10;
    let le = word_end(m, ls);
    let lt = m.subrange(ls, le);
    if !occurs_at(m, " Location "@, at) {
        Err(ErrorView::LocationNotFound)
    } else if location_of(lt) is None {
        Err(ErrorView::InvalidLocation(lt))
    } else if !occurs_at(m, " | Added on "@, le) || le + 12 == m.len() {
        Err(ErrorView::DateNotFound)
    } else {
        Ok((location_of(lt)->0, m.subrange(le + 12, m.len() as int)))
    }
}

/// The optional page clause, from `at`, just after ` on`: the page, and where
/// the location clause should start.
pub open spec fn page_of(m: Seq<char>, at: int) -> Result<(Option<Page>, int), ErrorView> {
    let ps = at + 6;
    let pe = word_end(m, ps);
    let pt = m.subrange(ps, pe);
    if !occurs_at(m, " page "@, at) {
        Ok((None, at))
    } else if u64_of(pt) is None {
        Err(ErrorView::InvalidPage(pt))
    } else if !occurs_at(m, " |"@, pe) {
        Err(ErrorView::LocationNotFound)
    } else {
        Ok((Some(Page(u64_of(pt)->0)), pe + 2))
    }
}

/// The fields of a metadata line, or the first error in the order kind, page, location, date.
pub open spec fn metadata_of(m: Seq<char>) -> Result<MetadataView, ErrorView> {
    let ke = word_end(m, 7);
    let kt = m.subrange(7, ke);
    if !occurs_at(m, "- Your "@, 0) || ke == 7 || ke == m.len() {
        Err(ErrorView::KindNotFound)
    } else if kind_of(kt) is None {
        Err(ErrorView::InvalidKind(kt))
    } else if !occurs_at(m, " on"@, ke) {
        Err(ErrorView::LocationNotFound)
    } else {
        match page_of(m, ke + 3) {
            Err(e) => Err(e),
            Ok((page, at)) => match location_date_of(m, at) {
                Err(e) => Err(e),
                Ok((location, date_text)) => Ok(
                    MetadataView { kind: kind_of(kt)->0, page, location, date_text },
                ),
            },
        }
    }
}

pub proof fn lemma_last_open(s: Seq<char>, i: int)
    requires
        -1 <= i < s.len(),
    ensures
        -1 <= last_open(s, i) <= i,
        last_open(s, i) >= 0 ==> occurs_at(s, seq![' ', '('], last_open(s, i)),
    decreases i + 1,
{
    if i >= 0 && !occurs_at(s, seq![' ', '('], i) {
        lemma_last_open(s, i - 1);
    }
}

fn find_last_open(line: &str) -> (r: Option<usize>)
    requires
        line@.len() > 0,
    ensures
        match r {
            Some(k) => k as int == last_open(line@, line@.len() - 2),
            None => last_open(line@, line@.len() - 2) < 0,
        },
{
    let n = line.unicode_len();
    let opener = " (";
    proof {
        reveal_strlit(" (");
        assert(opener@ =~= seq![' ', '(']);
    }
    let mut i: usize = n - 1;
    while i > 0
        invariant
            n == line@.len(),
            opener@ == seq![' ', '('],
            i < n,
            last_open(line@, i as int - 1) == last_open(line@, n - 2),
        decreases i,
    {
        if occurs_at_exec(line, opener, i - 1) {
            return Some(i - 1);
        }
        i = i - 1;
    }
    None
}

/// Splits a title line into title and author.
pub fn parse_title_line(line: &str) -> (r: Result<(String, String), ParseError>)
    ensures
        match title_author_of(line@) {
            Ok((t, a)) => r is Ok && r->Ok_0.0@ == t && r->Ok_0.1@ == a,
            Err(e) => r is Err && r->Err_0@ == e,
        },
{
    let n = line.unicode_len();
    if n == 0 {
        return Err(ParseError::TitleNotFound);
    }
    let found = find_last_open(line);
    proof {
        lemma_last_open(line@, n - 2);
    }
    if line.get_char(n - 1) != ')' {
        return Err(ParseError::AuthorNotFound);
    }
    match found {
        None => Err(ParseError::AuthorNotFound),
        Some(k) => {
            if k == 0 {
                Err(ParseError::TitleNotFound)
            } else {
                assert(line@.subrange(k as int, k + 2)[1] == line@[k + 1]);
                let title = line.substring_char(0, k).to_owned();
                let author = line.substring_char(k + 2, n - 1).to_owned();
                proof {
                    assert(line@.subrange(0, k as int) =~= line@.take(k as int));
                }
                Ok((title, author))
            }
        },
    }
}

fn parse_page_clause(m: &str, at: usize) -> (r: Result<(Option<Page>, usize), ParseError>)
    requires
        at <= m@.len(),
    ensures
        match page_of(m@, at as int) {
            Ok((p, k)) => r is Ok && r->Ok_0.0 == p && r->Ok_0.1 as int == k && k <= m@.len(),
            Err(e) => r is Err && r->Err_0@ == e,
        },
{
    let _n = m.unicode_len();
    let marker = " page ";
    let bar = " |";
    proof {
        reveal_strlit(" page ");
        reveal_strlit(" |");
    }
    if !occurs_at_exec(m, marker, at) {
        return Ok((None, at));
    }
    let ps = at + 6;
    let pe = find_char_from(m, ' ', ps);
    proof {
        lemma_find_char_bounds(m@, ' ', ps as int);
    }
    let page = match parse_page(m.substring_char(ps, pe)) {
        Ok(p) => p,
        Err(e) => return Err(e),
    };
    if !occurs_at_exec(m, bar, pe) {
        return Err(ParseError::LocationNotFound);
    }
    Ok((Some(page), pe + 2))
}

fn parse_location_date(m: &str, at: usize) -> (r: Result<(Location, String), ParseError>)
    requires
        at <= m@.len(),
    ensures
        match location_date_of(m@, at as int) {
            Ok((l, d)) => r is Ok && r->Ok_0.0 == l && r->Ok_0.1@ == d,
            Err(e) => r is Err && r->Err_0@ == e,
        },
{
    let n = m.unicode_len();
    let marker = " Location ";
    let added = " | Added on ";
    proof {
        reveal_strlit(" Location ");
        reveal_strlit(" | Added on ");
    }
    if !occurs_at_exec(m, marker, at) {
        return Err(ParseError::LocationNotFound);
    }
    let ls = at + 10;
    let le = find_char_from(m, ' ', ls);
    proof {
        lemma_find_char_bounds(m@, ' ', ls as int);
    }
    let location = match parse_location(m.substring_char(ls, le)) {
        Ok(l) => l,
        Err(e) => return Err(e),
    };
    if !occurs_at_exec(m, added, le) || le + 12 == n {
        return Err(ParseError::DateNotFound);
    }
    let date_text = m.substring_char(le + 12, n).to_owned();
    Ok((location, date_text))
}

/// Reads the kind, page, location and date text of a metadata line.
pub fn parse_metadata_line(m: &str) -> (r: Result<Metadata, ParseError>)
    ensures
        match metadata_of(m@) {
            Ok(v) => r is Ok && r->Ok_0@ == v,
            Err(e) => r is Err && r->Err_0@ == e,
        },
{
    let n = m.unicode_len();
    let prefix = "- Your ";
    let on = " on";
    proof {
        reveal_strlit("- Your ");
        reveal_strlit(" on");
    }
    if !occurs_at_exec(m, prefix, 0) {
        return Err(ParseError::KindNotFound);
    }
    let ke = find_char_from(m, ' ', 7);
    proof {
        lemma_find_char_bounds(m@, ' ', 7);
    }
    if ke == 7 || ke == n {
        return Err(ParseError::KindNotFound);
    }
    let kind = match parse_kind(m.substring_char(7, ke)) {
        Ok(k) => k,
        Err(e) => return Err(e),
    };
    if !occurs_at_exec(m, on, ke) {
        return Err(ParseError::LocationNotFound);
    }
    let (page, at) = match parse_page_clause(m, ke + 3) {
        Ok(x) => x,
        Err(e) => return Err(e),
    };
    let (location, date_text) = match parse_location_date(m, at) {
        Ok(x) => x,
        Err(e) => return Err(e),
    };
    Ok(Metadata { kind, page, location, date_text })
}

} // verus!

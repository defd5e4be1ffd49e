//! Properties of parsing that relate its parts over all inputs.
use vstd::prelude::*;
use crate::entry::{entry_of, line_at, EntryView};
use crate::error::ErrorView;
use crate::fields::{all_digits, is_digit, kind_of, location_of, u64_of, EntryType, Page};
use crate::header::{last_open, lemma_last_open, metadata_of, page_of, location_date_of, title_author_of, MetadataView};
use crate::text::{find_char, lemma_find_char_bounds, occurs_at};
use crate::timestamp::timestamp_of;
use crate::segment::{content_groups, entries_of, groups_of, is_separator, lemma_error_persists, parse_lines_result, runs};

verus! {

proof fn lemma_separator_runs(lines: Seq<Seq<char>>)
    requires
        forall|i: int| 0 <= i < lines.len() ==> is_separator(#[trigger] lines[i]),
    ensures
        forall|j: int| 0 <= j < runs(lines).len() ==> !(#[trigger] runs(lines)[j]).0,
    decreases lines.len(),
{
    if lines.len() > 0 {
        let prev = lines.drop_last();
        assert forall|i: int| 0 <= i < prev.len() implies is_separator(#[trigger] prev[i]) by {
            assert(prev[i] == lines[i]);
        }
        lemma_separator_runs(prev);
        let pr = runs(prev);
        assert(is_separator(lines[lines.len() - 1]));
        let r = runs(lines);
        assert forall|j: int| 0 <= j < r.len() implies !(#[trigger] r[j]).0 by {
            if j < pr.len() && !(pr.len() > 0 && !pr.last().0 && j == pr.len() - 1) {
                assert(r[j] == pr[j]);
            }
        }
    }
}

proof fn lemma_no_content_runs(rs: Seq<(bool, Seq<Seq<char>>)>)
    requires
        forall|j: int| 0 <= j < rs.len() ==> !(#[trigger] rs[j]).0,
    ensures
        content_groups(rs).len() == 0,
    decreases rs.len(),
{
    if rs.len() > 0 {
        let prev = rs.drop_last();
        assert forall|j: int| 0 <= j < prev.len() implies !(#[trigger] prev[j]).0 by {
            assert(prev[j] == rs[j]);
        }
        lemma_no_content_runs(prev);
    }
}

/// An export made of separator lines alone has no entries, and parsing it succeeds.
pub proof fn separators_only_parse_to_nothing(lines: Seq<Seq<char>>)
    requires
        forall|i: int| 0 <= i < lines.len() ==> is_separator(#[trigger] lines[i]),
    ensures
        groups_of(lines).len() == 0,
        parse_lines_result(lines) == Ok::<Seq<EntryView>, ErrorView>(Seq::empty()),
{
    lemma_separator_runs(lines);
    lemma_no_content_runs(runs(lines));
}

/// Once a group fails, parsing the whole export fails with that group's error,
/// whatever the groups before it gave and whatever follows it.
pub proof fn first_failure_aborts(gs: Seq<Seq<Seq<char>>>, i: int)
    requires
        0 <= i < gs.len(),
        entries_of(gs.take(i)) is Ok,
        entry_of(gs[i]) is Err,
    ensures
        entries_of(gs) == Err::<Seq<EntryView>, ErrorView>(entry_of(gs[i])->Err_0),
{
    let e = entry_of(gs[i])->Err_0;
    assert(gs.take(i + 1).drop_last() =~= gs.take(i));
    lemma_error_persists(gs, i + 1, e);
}

/// Parsing is repeatable: the same lines always give the same entries, or the same error.
pub proof fn parsing_is_repeatable(a: Seq<Seq<char>>, b: Seq<Seq<char>>)
    requires
        a == b,
    ensures
        parse_lines_result(a) == parse_lines_result(b),
{
}

/// The label that names a kind in a metadata line.
pub open spec fn kind_label(k: EntryType) -> Seq<char> {
    match k {
        EntryType::Highlight => "Highlight"@,
        EntryType::Note => "Note"@,
        EntryType::Bookmark => "Bookmark"@,
    }
}

/// The title line `<title> (<author>)`.
pub open spec fn title_line(title: Seq<char>, author: Seq<char>) -> Seq<char> {
    title + seq![' ', '('] + author + seq![')']
}

/// The optional page clause ` page <N> |`.
pub open spec fn page_clause(page_text: Option<Seq<char>>) -> Seq<char> {
    match page_text {
        Some(p) => " page "@ + p + " |"@,
        None => Seq::empty(),
    }
}

/// The metadata line `- Your <kind> on[ page <N> |] Location <range> | Added on <date>`.
pub open spec fn metadata_line(
    kind: EntryType,
    page_text: Option<Seq<char>>,
    location_text: Seq<char>,
    date_text: Seq<char>,
) -> Seq<char> {
    "- Your "@ + kind_label(kind) + " on"@ + page_clause(page_text) + " Location "@ + location_text
        + " | Added on "@ + date_text
}

proof fn lemma_find_char_at(s: Seq<char>, c: char, from: int, j: int)
    requires
        0 <= from <= j <= s.len(),
        forall|k: int| from <= k < j ==> s[k] != c,
        j < s.len() ==> s[j] == c,
    ensures
        find_char(s, c, from) == j,
    decreases j - from,
{
    if from < j {
        lemma_find_char_at(s, c, from + 1, j);
    }
}

proof fn lemma_last_open_at(s: Seq<char>, k: int, i: int)
    requires
        0 <= k <= i,
        occurs_at(s, seq![' ', '('], k),
        forall|j: int| k < j <= i ==> !occurs_at(s, seq![' ', '('], j),
    ensures
        last_open(s, i) == k,
    decreases i - k,
{
    if k < i {
        lemma_last_open_at(s, k, i - 1);
    }
}

proof fn lemma_location_has_no_space(s: Seq<char>)
    requires
        location_of(s) is Some,
    ensures
        forall|i: int| 0 <= i < s.len() ==> s[i] != ' ',
{
    let k = find_char(s, '-', 0);
    lemma_find_char_bounds(s, '-', 0);
    assert forall|i: int| 0 <= i < s.len() implies s[i] != ' ' by {
        if k == s.len() {
            assert(is_digit(s[i]));
        } else if i < k {
            assert(all_digits(s.take(k)));
            assert(is_digit(s.take(k)[i]));
        } else if i > k {
            assert(all_digits(s.skip(k + 1)));
            assert(is_digit(s.skip(k + 1)[i - k - 1]));
        }
    }
}

proof fn lemma_title_line(title: Seq<char>, author: Seq<char>)
    requires
        title.len() > 0,
        forall|j: int| !occurs_at(author, seq![' ', '('], j),
    ensures
        title_author_of(title_line(title, author)) == Ok::<(Seq<char>, Seq<char>), ErrorView>((title, author)),
{
    let s = title_line(title, author);
    let k = title.len() as int;
    let n = s.len() as int;
    assert(n == k + author.len() + 3);
    assert(s.subrange(k, k + 2) =~= seq![' ', '(']);
    assert forall|j: int| k < j <= n - 2 implies !occurs_at(s, seq![' ', '('], j) by {
        if j == k + 1 {
            assert(s[j] == '(');
            assert(s.subrange(j, j + 2)[0] == s[j]);
        } else if j == n - 2 {
            assert(s[j + 1] == ')');
            assert(s.subrange(j, j + 2)[1] == s[j + 1]);
        } else {
            assert(!occurs_at(author, seq![' ', '('], j - k - 2));
            assert(s.subrange(j, j + 2) =~= author.subrange(j - k - 2, j - k));
        }
    }
    lemma_last_open_at(s, k, n - 2);
    assert(s.take(k) =~= title);
    assert(s.subrange(k + 2, n - 1) =~= author);
}

/// The page that a page clause gives.
pub open spec fn page_from(page_text: Option<Seq<char>>) -> Option<Page> {
    match page_text {
        Some(p) => Some(Page(u64_of(p)->0)),
        None => None,
    }
}

#[verifier::rlimit(40)]
proof fn lemma_metadata_line(
    kind: EntryType,
    page_text: Option<Seq<char>>,
    location_text: Seq<char>,
    date_text: Seq<char>,
)
    requires
        page_text is Some ==> u64_of(page_text->0) is Some,
        location_of(location_text) is Some,
        date_text.len() > 0,
    ensures
        metadata_of(metadata_line(kind, page_text, location_text, date_text)) == Ok::<
            MetadataView,
            ErrorView,
        >(
            MetadataView {
                kind,
                page: page_from(page_text),
                location: location_of(location_text)->0,
                date_text,
            },
        ),
{
    reveal_strlit("- Your ");
    reveal_strlit(" on");
    reveal_strlit(" page ");
    reveal_strlit(" |");
    reveal_strlit(" Location ");
    reveal_strlit(" | Added on ");
    reveal_strlit("Highlight");
    reveal_strlit("Note");
    reveal_strlit("Bookmark");
    let label = kind_label(kind);
    let g = page_clause(page_text);
    let x = location_text;
    let m = metadata_line(kind, page_text, location_text, date_text);
    let head = "- Your "@ + label;
    let ke: int = 7 + label.len() as int;
    let at0: int = ke + 3;
    let at: int = at0 + g.len() as int;
    let ls: int = at + 10;
    let le: int = ls + x.len() as int;
    // the line as one prefix, then each piece in turn
    let pre_g = head + " on"@;
    let pre_c = pre_g + g;
    let pre_x = pre_c + " Location "@;
    let pre_a = pre_x + x;
    let pre_d = pre_a + " | Added on "@;
    assert(m =~= pre_d + date_text);
    assert(pre_g.len() == at0);
    assert(pre_c.len() == at);
    assert(pre_x.len() == ls);
    assert(pre_a.len() == le);
    assert(m.len() == le + 12 + date_text.len());
    // the kind label
    assert(m.subrange(0, 7) =~= "- Your "@);
    assert forall|k: int| 7 <= k < ke implies m[k] != ' ' by {
        assert(m[k] == label[k - 7]);
    }
    assert(m[ke] == ' ');
    lemma_find_char_at(m, ' ', 7, ke);
    assert(m.subrange(7, ke) =~= label);
    assert(kind_of(label) == Some(kind));
    assert(m.subrange(ke, ke + 3) =~= " on"@);
    // the page clause
    match page_text {
        Some(p) => {
            let ps: int = at0 + 6;
            let pe: int = ps + p.len() as int;
            assert(m.subrange(at0, at0 + 6) =~= " page "@);
            assert forall|k: int| ps <= k < pe implies m[k] != ' ' by {
                assert(m[k] == p[k - ps]);
                assert(is_digit(p[k - ps]));
            }
            assert(m[pe] == ' ');
            lemma_find_char_at(m, ' ', ps, pe);
            assert(m.subrange(ps, pe) =~= p);
            assert(m.subrange(pe, pe + 2) =~= " |"@);
            assert(page_of(m, at0) == Ok::<(Option<Page>, int), ErrorView>((page_from(page_text), at)));
        },
        None => {
            assert(m[at0 + 1] == 'L');
            if occurs_at(m, " page "@, at0) {
                assert(m.subrange(at0, at0 + 6)[1] == m[at0 + 1]);
            }
            assert(page_of(m, at0) == Ok::<(Option<Page>, int), ErrorView>((None, at0)));
        },
    }
    // the location and the date
    assert(m.subrange(at, at + 10) =~= " Location "@);
    lemma_location_has_no_space(x);
    assert forall|k: int| ls <= k < le implies m[k] != ' ' by {
        assert(m[k] == x[k - ls]);
    }
    assert(m[le] == ' ');
    lemma_find_char_at(m, ' ', ls, le);
    assert(m.subrange(ls, le) =~= x);
    assert(m.subrange(le, le + 12) =~= " | Added on "@);
    assert(m.subrange(le + 12, m.len() as int) =~= date_text);
    assert(location_date_of(m, at) == Ok::<(crate::fields::Location, Seq<char>), ErrorView>(
        (location_of(x)->0, date_text),
    ));
}

/// Extracting an entry from a title line, a metadata line, a blank line and a
/// body built from their parts gives back exactly those parts: title, author,
/// kind, page (when the clause is there), location, the date that the date
/// text writes, and the body. Only the date can fail, when its text does not
/// follow the export's date format.
pub proof fn header_round_trip(
    title: Seq<char>,
    author: Seq<char>,
    kind: EntryType,
    page_text: Option<Seq<char>>,
    location_text: Seq<char>,
    date_text: Seq<char>,
    blank: Seq<char>,
    body: Seq<char>,
)
    requires
        title.len() > 0,
        forall|j: int| !occurs_at(author, seq![' ', '('], j),
        page_text is Some ==> u64_of(page_text->0) is Some,
        location_of(location_text) is Some,
        date_text.len() > 0,
    ensures
        entry_of(
            seq![
                title_line(title, author),
                metadata_line(kind, page_text, location_text, date_text),
                blank,
                body,
            ],
        ) == match timestamp_of(date_text) {
            Some(d) => Ok::<EntryView, ErrorView>(
                EntryView {
                    title,
                    author,
                    kind,
                    page: page_from(page_text),
                    location: location_of(location_text)->0,
                    creation_date: d,
                    text: body,
                },
            ),
            None => Err(ErrorView::InvalidDate(date_text)),
        },
{
    let lines = seq![
        title_line(title, author),
        metadata_line(kind, page_text, location_text, date_text),
        blank,
        body,
    ];
    lemma_title_line(title, author);
    lemma_metadata_line(kind, page_text, location_text, date_text);
    assert(line_at(lines, 0) == title_line(title, author));
    assert(line_at(lines, 1) == metadata_line(kind, page_text, location_text, date_text));
    assert(line_at(lines, 3) == body);
}

/// Conversely, every metadata line that parses is built by the grammar: a kind
/// label, an optional page clause holding a page number, a location in the
/// form `N` or `N-M`, and a non-empty date text, and parsing gives back exactly
/// those parts.
pub proof fn metadata_line_is_well_formed(m: Seq<char>)
    requires
        metadata_of(m) is Ok,
    ensures
        metadata_of(m)->Ok_0.date_text.len() > 0,
        exists|page_text: Option<Seq<char>>, location_text: Seq<char>|
            {
                &&& m == #[trigger] metadata_line(
                    metadata_of(m)->Ok_0.kind,
                    page_text,
                    location_text,
                    metadata_of(m)->Ok_0.date_text,
                )
                &&& page_text is Some ==> u64_of(page_text->0) is Some
                &&& page_from(page_text) == metadata_of(m)->Ok_0.page
                &&& location_of(location_text) == Some(metadata_of(m)->Ok_0.location)
            },
{
    reveal_strlit("- Your ");
    reveal_strlit(" on");
    reveal_strlit(" page ");
    reveal_strlit(" |");
    reveal_strlit(" Location ");
    reveal_strlit(" | Added on ");
    let v = metadata_of(m)->Ok_0;
    let n = m.len() as int;
    lemma_find_char_bounds(m, ' ', 7);
    let ke = find_char(m, ' ', 7);
    let kt = m.subrange(7, ke);
    assert(kind_label(v.kind) == kt);
    let at0 = ke + 3;
    let page_text: Option<Seq<char>> = if occurs_at(m, " page "@, at0) {
        lemma_find_char_bounds(m, ' ', at0 + 6);
        Some(m.subrange(at0 + 6, find_char(m, ' ', at0 + 6)))
    } else {
        None
    };
    let at = page_of(m, at0)->Ok_0.1;
    if occurs_at(m, " page "@, at0) {
        assert(m.subrange(at0, at) =~= " page "@ + page_text->0 + " |"@);
    } else {
        assert(m.subrange(at0, at) =~= page_clause(page_text));
    }
    lemma_find_char_bounds(m, ' ', at + 10);
    let ls = at + 10;
    let le = find_char(m, ' ', ls);
    let lt = m.subrange(ls, le);
    assert(m =~= m.subrange(0, le + 12) + v.date_text);
    assert(m.subrange(0, le + 12) =~= m.subrange(0, le) + " | Added on "@);
    assert(m.subrange(0, le) =~= m.subrange(0, ls) + lt);
    assert(m.subrange(0, ls) =~= m.subrange(0, at) + " Location "@);
    assert(m.subrange(0, at) =~= m.subrange(0, at0) + page_clause(page_text));
    assert(m.subrange(0, at0) =~= m.subrange(0, ke) + " on"@);
    assert(m.subrange(0, ke) =~= "- Your "@ + kt);
    assert(m =~= metadata_line(v.kind, page_text, lt, v.date_text));
    assert(page_from(page_text) == v.page);
    assert(location_of(lt) == Some(v.location));
}

/// Conversely, a title line that parses is `<title> (<author>)` with a
/// non-empty title, and parsing gives back that title and author.
pub proof fn title_line_is_well_formed(s: Seq<char>)
    requires
        title_author_of(s) is Ok,
    ensures
        title_author_of(s)->Ok_0.0.len() > 0,
        s == title_line(title_author_of(s)->Ok_0.0, title_author_of(s)->Ok_0.1),
{
    let n = s.len() as int;
    lemma_last_open(s, n - 2);
    let k = last_open(s, n - 2);
    assert(s.subrange(k, k + 2)[1] == s[k + 1]);
    assert(s =~= title_line(s.take(k), s.subrange(k + 2, n - 1)));
}

} // verus!

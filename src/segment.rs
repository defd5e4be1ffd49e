//! Splitting the export into per-entry groups of lines, and parsing them all.
use vstd::prelude::*;
use itertools::Itertools;
use crate::entry::{entry_of, lines_view, parse_entry, Entry, EntryView};
use crate::error::{ErrorView, ParseError};
use crate::text::same_text;

verus! {

/// The line that ends each entry of the export.
pub const SEPARATOR: &'static str = "==========";

pub open spec fn is_separator(line: Seq<char>) -> bool {
    line == SEPARATOR@
}

/// The lines cut into maximal runs of consecutive lines that are all
/// separators or all content, in order, each with `true` for content.
pub open spec fn runs(lines: Seq<Seq<char>>) -> Seq<(bool, Seq<Seq<char>>)>
    decreases lines.len(),
{
    if lines.len() == 0 {
        Seq::empty()
    } else {
        let prev = runs(lines.drop_last());
        let line = lines.last();
        let key = !is_separator(line);
        if prev.len() > 0 && prev.last().0 == key {
            prev.update(prev.len() - 1, (key, prev.last().1.push(line)))
        } else {
            prev.push((key, seq![line]))
        }
    }
}

/// The content runs, in order.
pub open spec fn content_groups(rs: Seq<(bool, Seq<Seq<char>>)>) -> Seq<Seq<Seq<char>>>
    decreases rs.len(),
{
    if rs.len() == 0 {
        Seq::empty()
    } else if rs.last().0 {
        content_groups(rs.drop_last()).push(rs.last().1)
    } else {
        content_groups(rs.drop_last())
    }
}

/// The groups of an export: maximal runs of non-separator lines.
pub open spec fn groups_of(lines: Seq<Seq<char>>) -> Seq<Seq<Seq<char>>> {
    content_groups(runs(lines))
}

/// The entries of the groups in order, or the error of the first group that fails.
pub open spec fn entries_of(gs: Seq<Seq<Seq<char>>>) -> Result<Seq<EntryView>, ErrorView>
    decreases gs.len(),
{
    if gs.len() == 0 {
        Ok(Seq::empty())
    } else {
        match entries_of(gs.drop_last()) {
            Err(e) => Err(e),
            Ok(es) => match entry_of(gs.last()) {
                Err(e) => Err(e),
                Ok(x) => Ok(es.push(x)),
            },
        }
    }
}

/// What parsing an export's lines gives.
pub open spec fn parse_lines_result(lines: Seq<Seq<char>>) -> Result<Seq<EntryView>, ErrorView> {
    entries_of(groups_of(lines))
}

pub open spec fn runs_view(rs: Seq<(bool, Vec<String>)>) -> Seq<(bool, Seq<Seq<char>>)> {
    rs.map_values(|p: (bool, Vec<String>)| (p.0, lines_view(p.1@)))
}

pub open spec fn groups_view(gs: Seq<Vec<String>>) -> Seq<Seq<Seq<char>>> {
    gs.map_values(|g: Vec<String>| lines_view(g@))
}

pub open spec fn entries_view(es: Seq<Entry>) -> Seq<EntryView> {
    es.map_values(|e: Entry| e@)
}

/// Tells a content line from a separator line.
pub fn is_content_line(line: &String) -> (r: bool)
    ensures
        r == !is_separator(line@),
{
    !same_text(line.as_str(), SEPARATOR)
}

/// Relies on itertools' `group_by`, which yields each maximal run of
/// consecutive items with equal key, in order, with that key.
#[verifier::external_body]
fn line_runs(lines: &Vec<String>) -> (r: Vec<(bool, Vec<String>)>)
    ensures
        runs_view(r@) == runs(lines_view(lines@)),
{
    let mut out = Vec::new();
    for (key, group) in &lines.iter().group_by(|line| is_content_line(line)) {
        out.push((key, group.cloned().collect()));
    }
    out
}

proof fn lemma_content_groups_step(rs: Seq<(bool, Seq<Seq<char>>)>, i: int)
    requires
        0 <= i < rs.len(),
    ensures
        content_groups(rs.take(i + 1)) == if rs[i].0 {
            content_groups(rs.take(i)).push(rs[i].1)
        } else {
            content_groups(rs.take(i))
        },
{
    assert(rs.take(i + 1).drop_last() =~= rs.take(i));
}

/// Splits the lines of an export into its entries' groups of lines.
pub fn segment_lines(lines: &Vec<String>) -> (r: Vec<Vec<String>>)
    ensures
        groups_view(r@) == groups_of(lines_view(lines@)),
{
    let rs = line_runs(lines);
    let ghost rv = runs_view(rs@);
    let mut out: Vec<Vec<String>> = Vec::new();
    let mut i: usize = 0;
    while i < rs.len()
        invariant
            rv == runs_view(rs@),
            i <= rs.len(),
            groups_view(out@) == content_groups(rv.take(i as int)),
        decreases rs.len() - i,
    {
        proof {
            lemma_content_groups_step(rv, i as int);
        }
        if rs[i].0 {
            let g = rs[i].1.clone();
            assert(g@ =~= rs@[i as int].1@);
            out.push(g);
            assert(groups_view(out@) =~= content_groups(rv.take(i as int)).push(rv[i as int].1));
        }
        i = i + 1;
    }
    assert(rv.take(rs.len() as int) =~= rv);
    out
}

proof fn lemma_entries_step(gs: Seq<Seq<Seq<char>>>, i: int)
    requires
        0 <= i < gs.len(),
    ensures
        entries_of(gs.take(i + 1)) == match entries_of(gs.take(i)) {
            Err(e) => Err(e),
            Ok(es) => match entry_of(gs[i]) {
                Err(e) => Err(e),
                Ok(x) => Ok(es.push(x)),
            },
        },
{
    assert(gs.take(i + 1).drop_last() =~= gs.take(i));
}

pub proof fn lemma_error_persists(gs: Seq<Seq<Seq<char>>>, i: int, e: ErrorView)
    requires
        0 <= i <= gs.len(),
        entries_of(gs.take(i)) == Err::<Seq<EntryView>, ErrorView>(e),
    ensures
        entries_of(gs) == Err::<Seq<EntryView>, ErrorView>(e),
    decreases gs.len() - i,
{
    if i < gs.len() {
        lemma_entries_step(gs, i);
        lemma_error_persists(gs, i + 1, e);
    } else {
        assert(gs.take(i) =~= gs);
    }
}

/// Parses every entry of an export, given its lines without line terminators.
/// Either every group yields an entry, in order, or the first failure is returned.
pub fn parse_lines(lines: &Vec<String>) -> (r: Result<Vec<Entry>, ParseError>)
    ensures
        match r {
            Ok(es) => parse_lines_result(lines_view(lines@)) == Ok::<Seq<EntryView>, ErrorView>(
                entries_view(es@),
            ),
            Err(e) => parse_lines_result(lines_view(lines@)) == Err::<Seq<EntryView>, ErrorView>(
                e@,
            ),
        },
{
    let groups = segment_lines(lines);
    let ghost gs = groups_view(groups@);
    let mut out: Vec<Entry> = Vec::new();
    let mut i: usize = 0;
    assert(gs.take(0) =~= Seq::<Seq<Seq<char>>>::empty());
    assert(entries_view(out@) =~= Seq::<EntryView>::empty());
    while i < groups.len()
        invariant
            gs == groups_view(groups@),
            gs == groups_of(lines_view(lines@)),
            i <= groups.len(),
            entries_of(gs.take(i as int)) == Ok::<Seq<EntryView>, ErrorView>(entries_view(out@)),
        decreases groups.len() - i,
    {
        proof {
            lemma_entries_step(gs, i as int);
        }
        match parse_entry(&groups[i]) {
            Ok(e) => {
                let ghost before = out@;
                out.push(e);
                assert(entries_view(out@) =~= entries_view(before).push(e@));
            },
            Err(e) => {
                proof {
                    lemma_error_persists(gs, i + 1, e@);
                }
                return Err(e);
            },
        }
        i = i + 1;
    }
    assert(gs.take(groups.len() as int) =~= gs);
    Ok(out)
}

} // verus!

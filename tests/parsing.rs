use clippings::{
    entry_from_header, parse_entry, parse_header, parse_kind, parse_lines, parse_location,
    parse_metadata_line, parse_page, parse_timestamp, parse_title_line, parse_u64, segment_lines,
    EntryType, Location, Page, ParseError, Timestamp,
};

fn lines(text: &[&str]) -> Vec<String> {
    text.iter().map(|l| l.to_string()).collect()
}

const META: &str = "- Your Highlight on page 5 | Location 100-105 | Added on Tuesday, March 5, 2024 7:42:10 PM";

#[test]
fn location_single_number() {
    assert_eq!(parse_location("10").unwrap(), Location(10, 10));
}

#[test]
fn location_range() {
    assert_eq!(parse_location("10-20").unwrap(), Location(10, 20));
}

#[test]
fn location_three_parts_fails() {
    match parse_location("10-20-30") {
        Err(ParseError::InvalidLocation(s)) => assert_eq!(s, "10-20-30"),
        other => panic!("unexpected {:?}", other),
    }
}

#[test]
fn location_not_numeric_fails() {
    match parse_location("abc") {
        Err(ParseError::InvalidLocation(s)) => assert_eq!(s, "abc"),
        other => panic!("unexpected {:?}", other),
    }
}

#[test]
fn location_reversed_is_kept() {
    assert_eq!(parse_location("20-10").unwrap(), Location(20, 10));
}

#[test]
fn location_empty_part_fails() {
    assert!(matches!(parse_location("10-"), Err(ParseError::InvalidLocation(_))));
    assert!(matches!(parse_location(""), Err(ParseError::InvalidLocation(_))));
}

#[test]
fn page_parses() {
    assert_eq!(parse_page("42").unwrap(), Page(42));
    match parse_page("4x") {
        Err(ParseError::InvalidPage(s)) => assert_eq!(s, "4x"),
        other => panic!("unexpected {:?}", other),
    }
}

#[test]
fn u64_limits() {
    assert_eq!(parse_u64("18446744073709551615"), Some(u64::MAX));
    assert_eq!(parse_u64("18446744073709551616"), None);
    assert_eq!(parse_u64("007"), Some(7));
    assert_eq!(parse_u64(""), None);
    assert_eq!(parse_u64("+7"), None);
}

#[test]
fn kinds_parse_exactly() {
    assert_eq!(parse_kind("Highlight").unwrap(), EntryType::Highlight);
    assert_eq!(parse_kind("Note").unwrap(), EntryType::Note);
    assert_eq!(parse_kind("Bookmark").unwrap(), EntryType::Bookmark);
    match parse_kind("highlight") {
        Err(ParseError::InvalidKind(s)) => assert_eq!(s, "highlight"),
        other => panic!("unexpected {:?}", other),
    }
}

#[test]
fn timestamp_parses_export_format() {
    let t = parse_timestamp("Tuesday, March 5, 2024 7:42:10 PM").unwrap();
    assert_eq!(
        t,
        Timestamp { year: 2024, month: 3, day: 5, hour: 19, minute: 42, second: 10 }
    );
    assert_eq!(parse_timestamp("2024-03-05 19:42:10"), None);
}

#[test]
fn title_line_splits_at_last_parenthesis() {
    let (t, a) = parse_title_line("Title (Author)").unwrap();
    assert_eq!((t.as_str(), a.as_str()), ("Title", "Author"));
    let (t, a) = parse_title_line("Book (Vol. 2) (Jane Doe)").unwrap();
    assert_eq!((t.as_str(), a.as_str()), ("Book (Vol. 2)", "Jane Doe"));
    let (t, a) = parse_title_line("Anonymous ()").unwrap();
    assert_eq!((t.as_str(), a.as_str()), ("Anonymous", ""));
}

#[test]
fn title_line_errors() {
    assert!(matches!(parse_title_line(""), Err(ParseError::TitleNotFound)));
    assert!(matches!(parse_title_line(" (Author)"), Err(ParseError::TitleNotFound)));
    assert!(matches!(parse_title_line("Just a title"), Err(ParseError::AuthorNotFound)));
    assert!(matches!(parse_title_line("Title(Author)"), Err(ParseError::AuthorNotFound)));
}

#[test]
fn metadata_without_page() {
    let m = parse_metadata_line("- Your Bookmark on Location 7 | Added on Monday, January 1, 2024 12:00:00 AM").unwrap();
    assert_eq!(m.kind, EntryType::Bookmark);
    assert_eq!(m.page, None);
    assert_eq!(m.location, Location(7, 7));
    assert_eq!(m.date_text, "Monday, January 1, 2024 12:00:00 AM");
}

#[test]
fn metadata_with_page() {
    let m = parse_metadata_line("- Your Note on page 42 | Location 10-20 | Added on x").unwrap();
    assert_eq!(m.kind, EntryType::Note);
    assert_eq!(m.page, Some(Page(42)));
    assert_eq!(m.location, Location(10, 20));
    assert_eq!(m.date_text, "x");
}

#[test]
fn metadata_errors() {
    assert!(matches!(parse_metadata_line("Your Highlight on Location 1 | Added on x"), Err(ParseError::KindNotFound)));
    assert!(matches!(parse_metadata_line("- Your Highlight"), Err(ParseError::KindNotFound)));
    match parse_metadata_line("- Your Underline on Location 1 | Added on x") {
        Err(ParseError::InvalidKind(s)) => assert_eq!(s, "Underline"),
        other => panic!("unexpected {:?}", other.map(|m| m.date_text)),
    }
    match parse_metadata_line("- Your Note on page 4a | Location 1 | Added on x") {
        Err(ParseError::InvalidPage(s)) => assert_eq!(s, "4a"),
        other => panic!("unexpected {:?}", other.map(|m| m.date_text)),
    }
    assert!(matches!(parse_metadata_line("- Your Note on Spot 1 | Added on x"), Err(ParseError::LocationNotFound)));
    match parse_metadata_line("- Your Note on Location 1-2-3 | Added on x") {
        Err(ParseError::InvalidLocation(s)) => assert_eq!(s, "1-2-3"),
        other => panic!("unexpected {:?}", other.map(|m| m.date_text)),
    }
    assert!(matches!(parse_metadata_line("- Your Note on Location 1"), Err(ParseError::DateNotFound)));
    assert!(matches!(parse_metadata_line("- Your Note on Location 1 | Added on "), Err(ParseError::DateNotFound)));
}

#[test]
fn entry_with_invalid_date() {
    let group = lines(&["T (A)", "- Your Note on Location 1 | Added on someday", "", "body"]);
    match parse_entry(&group) {
        Err(ParseError::InvalidDate(s)) => assert_eq!(s, "someday"),
        _ => panic!("expected an invalid date"),
    }
}

#[test]
fn entry_from_header_takes_given_date() {
    let group = lines(&["T (A)", "- Your Note on Location 1 | Added on someday"]);
    let header = parse_header(&group).unwrap();
    let ts = Timestamp { year: 2000, month: 1, day: 2, hour: 3, minute: 4, second: 5 };
    let e = entry_from_header(header, Some(ts), "b".to_string()).unwrap();
    assert_eq!(e.creation_date(), ts);
    assert_eq!(e.text(), "b");
    let header = parse_header(&group).unwrap();
    assert!(matches!(entry_from_header(header, None, String::new()), Err(ParseError::InvalidDate(_))));
}

#[test]
fn entry_without_body_has_empty_text() {
    let group = lines(&["T (A)", "- Your Bookmark on Location 1 | Added on Tuesday, March 5, 2024 7:42:10 PM"]);
    let e = parse_entry(&group).unwrap();
    assert_eq!(e.kind(), EntryType::Bookmark);
    assert_eq!(e.text(), "");
}

#[test]
fn single_highlight_export() {
    let text = lines(&["Title (Author)", META, "", "Some highlighted text.", "=========="]);
    let entries = parse_lines(&text).unwrap();
    assert_eq!(entries.len(), 1);
    let e = &entries[0];
    assert_eq!(e.title(), "Title");
    assert_eq!(e.author(), "Author");
    assert_eq!(e.kind(), EntryType::Highlight);
    assert_eq!(e.page(), Some(Page(5)));
    assert_eq!(e.location(), Location(100, 105));
    assert_eq!(e.text(), "Some highlighted text.");
    assert_eq!(
        e.creation_date(),
        Timestamp { year: 2024, month: 3, day: 5, hour: 19, minute: 42, second: 10 }
    );
}

#[test]
fn separators_only_give_no_entries() {
    let text = lines(&["==========", "==========", "=========="]);
    assert_eq!(parse_lines(&text).unwrap().len(), 0);
    assert_eq!(parse_lines(&Vec::new()).unwrap().len(), 0);
}

#[test]
fn invalid_kind_aborts_whole_parse() {
    let text = lines(&[
        "Title (Author)", META, "", "first", "==========",
        "Title (Author)", "- Your Underline on Location 1 | Added on Tuesday, March 5, 2024 7:42:10 PM", "", "second", "==========",
    ]);
    match parse_lines(&text) {
        Err(ParseError::InvalidKind(s)) => assert_eq!(s, "Underline"),
        _ => panic!("expected an invalid kind"),
    }
}

#[test]
fn parsing_twice_gives_same_entries() {
    let text = lines(&["A (B)", META, "", "x", "==========", "C (D)", META, "", "y", "=========="]);
    let first = parse_lines(&text).unwrap();
    let second = parse_lines(&text).unwrap();
    assert_eq!(first.len(), 2);
    assert_eq!(first.len(), second.len());
    for (a, b) in first.iter().zip(second.iter()) {
        assert_eq!(a.title(), b.title());
        assert_eq!(a.author(), b.author());
        assert_eq!(a.text(), b.text());
        assert_eq!(a.location(), b.location());
        assert_eq!(a.creation_date(), b.creation_date());
    }
    assert_eq!(first[1].title(), "C");
}

#[test]
fn segmenting_drops_empty_groups() {
    let text = lines(&["==========", "a", "b", "==========", "==========", "c", "=========="]);
    let groups = segment_lines(&text);
    assert_eq!(groups, vec![lines(&["a", "b"]), lines(&["c"])]);
    let tail = lines(&["a", "==========", "b"]);
    assert_eq!(segment_lines(&tail), vec![lines(&["a"]), lines(&["b"])]);
}

#[test]
fn round_trip_of_built_header() {
    let group = lines(&[
        "My Book (Some One)",
        "- Your Note on page 12 | Location 3-4 | Added on Tuesday, March 5, 2024 7:42:10 AM",
        "",
        "a note",
    ]);
    let e = parse_entry(&group).unwrap();
    assert_eq!(e.title(), "My Book");
    assert_eq!(e.author(), "Some One");
    assert_eq!(e.kind(), EntryType::Note);
    assert_eq!(e.page(), Some(Page(12)));
    assert_eq!(e.location(), Location(3, 4));
    assert_eq!(e.creation_date().hour, 7);
    assert_eq!(e.text(), "a note");
}

#[test]
fn from_str_uses_field_parsers() {
    assert_eq!("10-20".parse::<Location>().unwrap(), Location(10, 20));
    assert_eq!("3".parse::<Page>().unwrap(), Page(3));
    assert_eq!("Note".parse::<EntryType>().unwrap(), EntryType::Note);
}

#[test]
fn from_str_reports_field_errors() {
    match "10-20-30".parse::<Location>() {
        Err(ParseError::InvalidLocation(s)) => assert_eq!(s, "10-20-30"),
        other => panic!("unexpected {:?}", other),
    }
    match "18446744073709551616".parse::<Page>() {
        Err(ParseError::InvalidPage(s)) => assert_eq!(s, "18446744073709551616"),
        other => panic!("unexpected {:?}", other),
    }
    match "Underline".parse::<EntryType>() {
        Err(ParseError::InvalidKind(s)) => assert_eq!(s, "Underline"),
        other => panic!("unexpected {:?}", other),
    }
}

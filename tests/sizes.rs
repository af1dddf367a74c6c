use udhr_count::extract::extract_events;
use udhr_count::metrics::{measure, utf16_count, utf8_count};
use udhr_count::xml::XmlEvent;

fn normalize(s: &str) -> String {
    extract_events(&vec![XmlEvent::Text(s.to_string())]).unwrap()
}
use udhr_count::record::{count, measure_body};

#[test]
fn wide_character_and_combining_mark() {
    let s = measure("\u{4e2d}e\u{301}");
    assert_eq!(s.graphemes, 2);
    assert!(s.width >= 3);
    assert_eq!(s.utf32, 3);
}

#[test]
fn sizes_are_ordered() {
    let s = measure("a\u{1F600}\u{e9}\u{4e2d}");
    assert_eq!(s.utf8, 1 + 4 + 2 + 3);
    assert_eq!(s.utf16, 1 + 2 + 1 + 1);
    assert_eq!(s.utf32, 4);
    assert_eq!(s.graphemes, 4);
    assert!(s.graphemes <= s.utf32 && s.utf32 <= s.utf16 && s.utf16 <= s.utf8);
}

#[test]
fn ascii_sizes_are_equal() {
    let s = measure("hello world");
    assert_eq!(s.utf8, 11);
    assert_eq!(s.utf16, 11);
    assert_eq!(s.utf32, 11);
    assert_eq!(s.graphemes, 11);
    assert_eq!(s.width, 11);
}

#[test]
fn empty_text_sizes() {
    let s = measure("");
    assert_eq!((s.utf8, s.utf16, s.utf32, s.graphemes, s.width), (0, 0, 0, 0, 0));
}

#[test]
fn unit_counts() {
    assert_eq!(utf8_count("\u{1F600}"), 4);
    assert_eq!(utf16_count("\u{1F600}"), 2);
    assert_eq!(utf16_count("\u{ffff}"), 1);
}

#[test]
fn wide_text_width() {
    assert_eq!(measure("\u{4e2d}\u{6587}").width, 4);
}

#[test]
fn normalizing_twice_changes_nothing() {
    for s in ["e\u{301}", "\u{e9}", "A\u{30a}\u{301}", "\u{1100}\u{1161}", "plain"] {
        let once = normalize(s);
        let twice = normalize(&once);
        assert_eq!(once, twice);
    }
}

#[test]
fn normalizing_composes() {
    assert_eq!(normalize("e\u{301}"), "\u{e9}");
    assert_eq!(normalize("\u{1100}\u{1161}"), "\u{ac00}");
}

#[test]
fn record_carries_metadata() {
    let l = measure_body("ab", "Name".to_string(), "xx".to_string(), "Latn".to_string());
    assert_eq!(l.name, "Name");
    assert_eq!(l.code, Some("xx".to_string()));
    assert_eq!(l.script, Some("Latn".to_string()));
    assert_eq!((l.utf8, l.utf16, l.utf32, l.graphemes, l.width), (2, 2, 2, 2, 2));
}

#[test]
fn count_extracts_then_measures() {
    let doc = "<udhr><preamble>skip</preamble><article><para>e\u{301}t\u{e9}</para></article></udhr>";
    let l = count(doc, "N".to_string(), "fr".to_string(), "Latn".to_string()).unwrap();
    assert_eq!(l.utf32, 3);
    assert_eq!(l.utf8, 5);
    assert_eq!(l.graphemes, 3);
    assert_eq!(l.code, Some("fr".to_string()));
}

#[test]
fn count_of_body_scenario() {
    let doc = "<doc><preamble>SKIP</preamble>BODY<note>SKIP</note></doc>";
    let l = count(doc, "N".to_string(), "x".to_string(), "Latn".to_string()).unwrap();
    assert_eq!((l.utf8, l.utf16, l.utf32, l.graphemes, l.width), (4, 4, 4, 4, 4));
}

#[test]
fn count_rejects_nested_region() {
    let doc = "<doc><note><note>x</note></note></doc>";
    assert!(count(doc, "N".to_string(), "x".to_string(), "Latn".to_string()).is_err());
}

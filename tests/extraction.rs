use udhr_count::extract::{extract_body, extract_events, ExtractError, Region};
use udhr_count::metrics::measure;
use udhr_count::xml::XmlEvent;

#[test]
fn regions_are_left_out() {
    let body = extract_body("<doc><preamble>SKIP</preamble>BODY<note>SKIP</note></doc>").unwrap();
    assert_eq!(body, "BODY");
    let s = measure(&body);
    assert_eq!(s.utf32, 4);
    assert_eq!(s.graphemes, 4);
}

#[test]
fn text_inside_nested_elements_of_a_region_is_left_out() {
    let doc = "<doc><p>A<preamble><t><b>x</b>y</t></preamble>B</p><note><q>z</q></note>C</doc>";
    assert_eq!(extract_body(doc).unwrap(), "ABC");
}

#[test]
fn text_in_nested_structural_elements_is_kept() {
    let doc = "<doc><a><b><c>one</c></b>two</a></doc>";
    assert_eq!(extract_body(doc).unwrap(), "onetwo");
}

#[test]
fn whitespace_only_text_is_ignored() {
    let doc = "<doc>\n  <a>x</a>\n\t<b> y </b>\r\n</doc>";
    assert_eq!(extract_body(doc).unwrap(), "x y ");
}

#[test]
fn body_is_normalized_to_composed_form() {
    let body = extract_body("<doc>e\u{301}</doc>").unwrap();
    assert_eq!(body, "\u{e9}");
}

#[test]
fn nested_region_of_same_kind_is_an_error() {
    let doc = "<doc><note><note>x</note></note></doc>";
    assert_eq!(extract_body(doc), Err(ExtractError::NestedRegion(Region::Note)));
    let doc = "<doc><preamble><preamble>x</preamble></preamble></doc>";
    assert_eq!(extract_body(doc), Err(ExtractError::NestedRegion(Region::Preamble)));
}

#[test]
fn regions_of_different_kinds_may_nest() {
    let doc = "<doc><preamble><note>x</note>y</preamble>z</doc>";
    assert_eq!(extract_body(doc).unwrap(), "z");
}

#[test]
fn closing_an_unopened_region_is_an_error() {
    let events = vec![
        XmlEvent::Text("a".to_string()),
        XmlEvent::End(b"preamble".to_vec()),
        XmlEvent::Text("b".to_string()),
    ];
    assert_eq!(extract_events(&events), Err(ExtractError::UnopenedRegion(Region::Preamble)));
}

#[test]
fn malformed_markup_is_a_syntax_error() {
    assert_eq!(extract_body("<doc><a></b></doc>"), Err(ExtractError::Syntax));
}

#[test]
fn entities_are_unescaped() {
    assert_eq!(extract_body("<doc>a &amp; b</doc>").unwrap(), "a & b");
}

#[test]
fn events_walk_directly() {
    let events = vec![
        XmlEvent::Start(b"doc".to_vec()),
        XmlEvent::Text("  ".to_string()),
        XmlEvent::Start(b"note".to_vec()),
        XmlEvent::Text("hidden".to_string()),
        XmlEvent::End(b"note".to_vec()),
        XmlEvent::Other,
        XmlEvent::Text("shown".to_string()),
        XmlEvent::End(b"doc".to_vec()),
    ];
    assert_eq!(extract_events(&events).unwrap(), "shown");
}

#[test]
fn region_left_open_is_an_error() {
    assert_eq!(extract_body("<doc><preamble>x"), Err(ExtractError::UnclosedRegion(Region::Preamble)));
    let events = vec![XmlEvent::Start(b"note".to_vec()), XmlEvent::Text("x".to_string())];
    assert_eq!(extract_events(&events), Err(ExtractError::UnclosedRegion(Region::Note)));
}

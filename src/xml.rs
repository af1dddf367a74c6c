use vstd::prelude::*;

verus! {

/// One event of a streaming markup reader, with the parts that the
/// extractor reads held as plain values.
#[derive(Debug)]
pub enum XmlEvent {
    /// An element opens; the element's name as bytes.
    Start(Vec<u8>),
    /// An element closes; the element's name as bytes.
    End(Vec<u8>),
    /// A run of character data, unescaped and decoded.
    Text(String),
    /// Any other event (comment, declaration, empty element, ...).
    Other,
    /// The end of the input.
    Eof,
}

/// The markup reader reported an error (malformed markup or text that
/// cannot be unescaped or decoded).
#[derive(Debug)]
pub struct XmlSyntaxError;

/// The events that a markup reader reads from a document, in reading order
/// and without the final `Eof`; `None` where the reader stops on an error.
pub uninterp spec fn events_of(s: Seq<char>) -> Option<Seq<XmlEvent>>;

/// Relies on quick_xml::Reader (from_str, read_event) and on
/// quick_xml::events::BytesText::unescape_and_decode: the events of the
/// document in reading order, up to and without the final `Eof`, or the
/// error at which the reader stopped. These depend on the document's text
/// alone. The whole event list is returned at once, so that the reader
/// itself stays inside this function.
#[verifier::external_body]
pub(crate) fn read_events(content: &str) -> (r: Result<Vec<XmlEvent>, XmlSyntaxError>)
    ensures
        match events_of(content@) {
            Some(evs) => r matches Ok(v) && v@ == evs,
            None => r is Err,
        },
{
    let mut reader = quick_xml::Reader::from_str(content);
    let (mut buf, mut events) = (Vec::new(), Vec::new());
    loop {
        let ev = match reader.read_event(&mut buf).map_err(|_| XmlSyntaxError)? {
            quick_xml::events::Event::Start(e) => XmlEvent::Start(e.name().to_vec()),
            quick_xml::events::Event::End(e) => XmlEvent::End(e.name().to_vec()),
            quick_xml::events::Event::Text(e) => XmlEvent::Text(e.unescape_and_decode(&reader).map_err(|_| XmlSyntaxError)?),
            quick_xml::events::Event::Eof => return Ok(events),
            _ => XmlEvent::Other,
        };
        events.push(ev);
        buf.clear();
    }
}

} // verus!

use vstd::prelude::*;
use crate::xml::{XmlEvent, XmlSyntaxError, events_of, read_events};
use crate::metrics::{nfc_of, normalize};

verus! {

/// The two kinds of region whose text is left out of the body.
#[derive(PartialEq, Eq, Structural, Clone, Copy, Debug)]
pub enum Region {
    Preamble,
    Note,
}

/// Which exclusion regions are open at the current point of a document.
#[derive(PartialEq, Eq, Structural, Clone, Copy, Debug)]
pub struct Exclusion {
    pub preamble: bool,
    pub note: bool,
}

/// Why a document yields no body text.
#[derive(PartialEq, Eq, Structural, Clone, Copy, Debug)]
pub enum ExtractError {
    /// The markup could not be read.
    Syntax,
    /// A region was entered while a region of the same kind was open.
    NestedRegion(Region),
    /// A region was left that was not open.
    UnopenedRegion(Region),
    /// A region was still open at the end of the document.
    UnclosedRegion(Region),
}

/// The element name `preamble`, as bytes.
pub open spec fn preamble_tag() -> Seq<u8> {
    seq![112u8, 114, 101, 97, 109, 98, 108, 101]
}

/// The element name `note`, as bytes.
pub open spec fn note_tag() -> Seq<u8> {
    seq![110u8, 111, 116, 101]
}

/// The region that an element name opens or closes, if any.
pub open spec fn region_of(name: Seq<u8>) -> Option<Region> {
    if name == preamble_tag() {
        Some(Region::Preamble)
    } else if name == note_tag() {
        Some(Region::Note)
    } else {
        None
    }
}

pub open spec fn is_ascii_space(c: char) -> bool {
    c == ' ' || c == '\t' || c == '\n' || c == '\x0C' || c == '\r'
}

/// Text made of ASCII whitespace only (the empty text included).
pub open spec fn is_blank(t: Seq<char>) -> bool {
    forall|i: int| 0 <= i < t.len() ==> is_ascii_space(#[trigger] t[i])
}

impl Exclusion {
    pub open spec fn is_open(self, r: Region) -> bool {
        match r {
            Region::Preamble => self.preamble,
            Region::Note => self.note,
        }
    }

    pub open spec fn with(self, r: Region, open: bool) -> Exclusion {
        match r {
            Region::Preamble => Exclusion { preamble: open, ..self },
            Region::Note => Exclusion { note: open, ..self },
        }
    }

    /// Text is kept only where no region is open.
    pub open spec fn keeps_text(self) -> bool {
        !self.preamble && !self.note
    }
}

pub open spec fn closed() -> Exclusion {
    Exclusion { preamble: false, note: false }
}

/// The effect of one event on the state and on the text gathered so far.
pub open spec fn apply(st: Exclusion, acc: Seq<char>, ev: XmlEvent) -> Result<(Exclusion, Seq<char>), ExtractError> {
    match ev {
        XmlEvent::Start(name) => match region_of(name@) {
            Some(r) => if st.is_open(r) {
                Err(ExtractError::NestedRegion(r))
            } else {
                Ok((st.with(r, true), acc))
            },
            None => Ok((st, acc)),
        },
        XmlEvent::End(name) => match region_of(name@) {
            Some(r) => if !st.is_open(r) {
                Err(ExtractError::UnopenedRegion(r))
            } else {
                Ok((st.with(r, false), acc))
            },
            None => Ok((st, acc)),
        },
        XmlEvent::Text(t) => if st.keeps_text() && !is_blank(t@) {
            Ok((st, acc + t@))
        } else {
            Ok((st, acc))
        },
        _ => Ok((st, acc)),
    }
}

/// The state and the gathered text after a sequence of events, starting
/// with no region open; the first error stops the walk.
pub open spec fn walk(evs: Seq<XmlEvent>) -> Result<(Exclusion, Seq<char>), ExtractError>
    decreases evs.len(),
{
    if evs.len() == 0 {
        Ok((closed(), Seq::empty()))
    } else {
        match walk(evs.drop_last()) {
            Ok((st, acc)) => apply(st, acc, evs.last()),
            Err(e) => Err(e),
        }
    }
}

/// The body text of an event sequence: the gathered text, unnormalized.
/// A region still open after the last event is an error.
pub open spec fn body_of(evs: Seq<XmlEvent>) -> Result<Seq<char>, ExtractError> {
    match walk(evs) {
        Ok((st, acc)) => if st.preamble {
            Err(ExtractError::UnclosedRegion(Region::Preamble))
        } else if st.note {
            Err(ExtractError::UnclosedRegion(Region::Note))
        } else {
            Ok(acc)
        },
        Err(e) => Err(e),
    }
}

/// The region that an element name opens or closes, if any.
pub fn region_named(name: &Vec<u8>) -> (r: Option<Region>)
    ensures
        r == region_of(name@),
{
    // the ASCII bytes of "preamble" and of "note"
    if name.len() == 8 && name[0] == 112 && name[1] == 114 && name[2] == 101 && name[3] == 97
        && name[4] == 109 && name[5] == 98 && name[6] == 108 && name[7] == 101 {
        assert(name@ =~= preamble_tag());
        Some(Region::Preamble)
    } else if name.len() == 4 && name[0] == 110 && name[1] == 111 && name[2] == 116 && name[3] == 101 {
        assert(name@ =~= note_tag());
        Some(Region::Note)
    } else {
        None
    }
}

/// Whether a text consists of ASCII whitespace only.
pub fn blank(t: &String) -> (r: bool)
    ensures
        r == is_blank(t@),
{
    let s = t.as_str();
    let mut all: bool = true;
    for c in it: s.chars()
        invariant
            it.seq() == s@,
            all == (forall|j: int| 0 <= j < it.index() ==> is_ascii_space(#[trigger] s@[j])),
    {
        if !(c == ' ' || c == '\t' || c == '\n' || c == '\x0C' || c == '\r') {
            all = false;
        }
    }
    all
}

/// One step of the extraction walk: the state after `ev`, with the text
/// of `ev` appended to `acc` where it belongs to the body.
pub fn step(st: Exclusion, acc: &mut String, ev: &XmlEvent) -> (r: Result<Exclusion, ExtractError>)
    ensures
        match apply(st, old(acc)@, *ev) {
            Ok((st2, acc2)) => r == Ok::<Exclusion, ExtractError>(st2) && final(acc)@ == acc2,
            Err(e) => r == Err::<Exclusion, ExtractError>(e),
        },
{
    match ev {
        XmlEvent::Start(name) => match region_named(name) {
            Some(reg) => {
                let open = match reg {
                    Region::Preamble => st.preamble,
                    Region::Note => st.note,
                };
                if open {
                    Err(ExtractError::NestedRegion(reg))
                } else {
                    match reg {
                        Region::Preamble => Ok(Exclusion { preamble: true, ..st }),
                        Region::Note => Ok(Exclusion { note: true, ..st }),
                    }
                }
            },
            None => Ok(st),
        },
        XmlEvent::End(name) => match region_named(name) {
            Some(reg) => {
                let open = match reg {
                    Region::Preamble => st.preamble,
                    Region::Note => st.note,
                };
                if !open {
                    Err(ExtractError::UnopenedRegion(reg))
                } else {
                    match reg {
                        Region::Preamble => Ok(Exclusion { preamble: false, ..st }),
                        Region::Note => Ok(Exclusion { note: false, ..st }),
                    }
                }
            },
            None => Ok(st),
        },
        XmlEvent::Text(t) => {
            if !st.preamble && !st.note && !blank(t) {
                acc.append(t.as_str());
            }
            Ok(st)
        },
        _ => Ok(st),
    }
}

/// The body text of a sequence of markup events, in Normalization Form C:
/// the text outside every preamble and note region, without the text
/// events that are ASCII whitespace only. A region entered while one of
/// its kind is open, left while none is, or still open at the end, is an
/// error.
pub fn extract_events(events: &Vec<XmlEvent>) -> (r: Result<String, ExtractError>)
    ensures
        match body_of(events@) {
            Ok(acc) => r matches Ok(s) && s@ == nfc_of(acc),
            Err(e) => r == Err::<String, ExtractError>(e),
        },
{
    let mut st = Exclusion { preamble: false, note: false };
    let mut acc = String::new();
    let mut i: usize = 0;
    while i < events.len()
        invariant
            i <= events.len(),
            walk(events@.take(i as int)) == Ok::<(Exclusion, Seq<char>), ExtractError>((st, acc@)),
        decreases events.len() - i,
    {
        assert(events@.take(i + 1).drop_last() =~= events@.take(i as int));
        match step(st, &mut acc, &events[i]) {
            Ok(next) => st = next,
            Err(e) => {
                proof { lemma_walk_stops(events@, i as int + 1); }
                return Err(e);
            },
        }
        i = i + 1;
    }
    assert(events@.take(i as int) =~= events@);
    if st.preamble {
        Err(ExtractError::UnclosedRegion(Region::Preamble))
    } else if st.note {
        Err(ExtractError::UnclosedRegion(Region::Note))
    } else {
        Ok(normalize(acc.as_str()))
    }
}

/// Once the walk fails on a prefix, it fails the same way on every
/// longer prefix.
pub proof fn lemma_walk_stops(evs: Seq<XmlEvent>, k: int)
    requires
        0 <= k <= evs.len(),
        walk(evs.take(k)) is Err,
    ensures
        walk(evs) == walk(evs.take(k)),
    decreases evs.len() - k,
{
    if k < evs.len() {
        assert(evs.take(k + 1).drop_last() =~= evs.take(k));
        lemma_walk_stops(evs, k + 1);
    } else {
        assert(evs.take(k) =~= evs);
    }
}

/// The body text of a marked-up document (see `extract_events`); a
/// document that the markup reader rejects gives `ExtractError::Syntax`.
pub fn extract_body(content: &str) -> (r: Result<String, ExtractError>)
    ensures
        match events_of(content@) {
            None => r == Err::<String, ExtractError>(ExtractError::Syntax),
            Some(evs) => match body_of(evs) {
                Ok(acc) => r matches Ok(s) && s@ == nfc_of(acc),
                Err(e) => r == Err::<String, ExtractError>(e),
            },
        },
{
    match read_events(content) {
        Ok(events) => extract_events(&events),
        Err(XmlSyntaxError) => Err(ExtractError::Syntax),
    }
}

/// Events that neither open nor close a preamble or note region.
pub open spec fn region_free(evs: Seq<XmlEvent>) -> bool {
    forall|i: int| 0 <= i < evs.len() ==> match #[trigger] evs[i] {
        XmlEvent::Start(name) => region_of(name@) is None,
        XmlEvent::End(name) => region_of(name@) is None,
        _ => true,
    }
}

/// Two event prefixes that leave the walk in the same place stay in step
/// under any common continuation.
pub proof fn lemma_walk_suffix(x: Seq<XmlEvent>, y: Seq<XmlEvent>, b: Seq<XmlEvent>)
    requires
        walk(x) == walk(y),
    ensures
        walk(x + b) == walk(y + b),
    decreases b.len(),
{
    if b.len() == 0 {
        assert(x + b =~= x);
        assert(y + b =~= y);
    } else {
        lemma_walk_suffix(x, y, b.drop_last());
        assert((x + b).drop_last() =~= x + b.drop_last());
        assert((y + b).drop_last() =~= y + b.drop_last());
        assert((x + b).last() == b.last());
        assert((y + b).last() == b.last());
    }
}

/// Inside an open region, region-free events (text, other elements at
/// any depth) change neither the state nor the gathered text.
pub proof fn lemma_region_interior(x: Seq<XmlEvent>, mid: Seq<XmlEvent>, r: Region)
    requires
        walk(x) matches Ok((st, _)) && st.is_open(r),
        region_free(mid),
    ensures
        walk(x + mid) == walk(x),
    decreases mid.len(),
{
    if mid.len() == 0 {
        assert(x + mid =~= x);
    } else {
        let m = mid.drop_last();
        assert forall|i: int| 0 <= i < m.len() implies match #[trigger] m[i] {
            XmlEvent::Start(name) => region_of(name@) is None,
            XmlEvent::End(name) => region_of(name@) is None,
            _ => true,
        } by {
            assert(m[i] == mid[i]);
        }
        lemma_region_interior(x, m, r);
        assert((x + mid).drop_last() =~= x + m);
        assert((x + mid).last() == mid[mid.len() - 1]);
    }
}

/// Everything strictly inside a preamble or note region is left out of
/// the body: a document `a`, the region with region-free contents `mid`,
/// then `b`, walks exactly as `a` followed by `b`, provided `a` leaves no
/// region of that kind open.
pub proof fn lemma_region_excluded(a: Seq<XmlEvent>, open_tag: Vec<u8>, mid: Seq<XmlEvent>, close_tag: Vec<u8>, b: Seq<XmlEvent>)
    requires
        walk(a) matches Ok((st, _)) && region_of(open_tag@) matches Some(r) && !st.is_open(r),
        region_of(close_tag@) == region_of(open_tag@),
        region_free(mid),
    ensures
        walk(a + seq![XmlEvent::Start(open_tag)] + mid + seq![XmlEvent::End(close_tag)] + b) == walk(a + b),
{
    let r = region_of(open_tag@).unwrap();
    let x = a + seq![XmlEvent::Start(open_tag)];
    assert(x.drop_last() =~= a);
    lemma_region_interior(x, mid, r);
    let y = x + mid + seq![XmlEvent::End(close_tag)];
    assert(y.drop_last() =~= x + mid);
    let (st, acc) = walk(a).unwrap();
    assert(st.with(r, true).with(r, false) == st) by {
        match r {
            Region::Preamble => {},
            Region::Note => {},
        }
    }
    assert(walk(y) == walk(a));
    lemma_walk_suffix(y, a, b);
}

/// A text event outside every region that is not whitespace only adds
/// its text, as it stands, to the body.
pub proof fn lemma_text_included(a: Seq<XmlEvent>, t: String)
    requires
        walk(a) matches Ok((st, _)) && st.keeps_text(),
        !is_blank(t@),
    ensures
        walk(a.push(XmlEvent::Text(t))) == Ok::<(Exclusion, Seq<char>), ExtractError>(
            (walk(a).unwrap().0, walk(a).unwrap().1 + t@)),
{
    assert(a.push(XmlEvent::Text(t)).drop_last() =~= a);
}

/// A text event of ASCII whitespace only contributes nothing, wherever it
/// stands among the events.
pub proof fn lemma_blank_text_ignored(a: Seq<XmlEvent>, t: String, b: Seq<XmlEvent>)
    requires
        is_blank(t@),
    ensures
        walk(a + seq![XmlEvent::Text(t)] + b) == walk(a + b),
        body_of(a + seq![XmlEvent::Text(t)] + b) == body_of(a + b),
{
    let x = a + seq![XmlEvent::Text(t)];
    assert(x.drop_last() =~= a);
    assert(walk(x) == walk(a));
    lemma_walk_suffix(x, a, b);
}

} // verus!

use vstd::prelude::*;
use vstd::utf8::encode_utf8;
use vstd::string::StrSliceExecFns;

verus! {

/// What canonical composition (Unicode Normalization Form C) makes of a text.
pub uninterp spec fn nfc_of(s: Seq<char>) -> Seq<char>;

/// The number of extended grapheme clusters of a text.
pub uninterp spec fn graphemes_of(s: Seq<char>) -> nat;

/// The display width of a text in terminal columns.
pub uninterp spec fn width_of(s: Seq<char>) -> nat;

/// Relies on unic_normal::StrNormalForm::nfc: the text in Normalization Form C.
#[verifier::external_body]
pub(crate) fn normalize(s: &str) -> (r: String)
    ensures
        r@ == nfc_of(s@),
{
    unic_normal::StrNormalForm::nfc(s).collect::<String>()
}

/// Relies on unic_segment::Graphemes: the number of extended grapheme
/// clusters. Each cluster is a non-empty run of the text's characters, and
/// the clusters cover the text, so a text has at most as many clusters as
/// characters, and a non-empty text has at least one.
#[verifier::external_body]
fn grapheme_count(s: &str) -> (r: usize)
    ensures
        r == graphemes_of(s@),
        r <= s@.len(),
        s@.len() > 0 ==> r >= 1,
{
    unic_segment::Graphemes::new(s).count()
}

/// Relies on unicode_width::UnicodeWidthStr::width: the text's display
/// width in columns.
#[verifier::external_body]
fn display_width(s: &str) -> (r: usize)
    ensures
        r == width_of(s@),
{
    unicode_width::UnicodeWidthStr::width(s)
}

/// The number of 8-bit code units that encode a text in UTF-8.
pub open spec fn utf8_len(s: Seq<char>) -> nat {
    encode_utf8(s).len()
}

/// The number of 16-bit code units of one character in UTF-16: two for a
/// character outside the Basic Multilingual Plane (a surrogate pair).
pub open spec fn utf16_units(c: char) -> nat {
    if c as u32 >= 0x10000 { 2 } else { 1 }
}

/// The number of 16-bit code units that encode a text in UTF-16.
pub open spec fn utf16_len(s: Seq<char>) -> nat
    decreases s.len(),
{
    if s.len() == 0 { 0 } else { utf16_len(s.drop_last()) + utf16_units(s.last()) }
}

pub proof fn lemma_utf16_len_first(s: Seq<char>)
    requires
        s.len() > 0,
    ensures
        utf16_len(s) == utf16_units(s[0]) + utf16_len(s.drop_first()),
    decreases s.len(),
{
    if s.len() > 1 {
        lemma_utf16_len_first(s.drop_last());
        assert(s.drop_last().drop_first() =~= s.drop_first().drop_last());
        assert(s.drop_last()[0] == s[0]);
        assert(s.drop_first().last() == s.last());
        assert(utf16_len(s.drop_first()) == utf16_len(s.drop_first().drop_last()) + utf16_units(s.drop_first().last()));
    } else {
        assert(s.drop_first().len() == 0);
        assert(s.drop_last().len() == 0);
        assert(utf16_len(s.drop_last()) == 0);
        assert(s.last() == s[0]);
    }
}

/// Sizes of one text: code points, UTF-16 units and UTF-8 units never
/// decrease in that order, and each is at least the number of code points.
pub proof fn lemma_unit_counts_ordered(s: Seq<char>)
    ensures
        s.len() <= utf16_len(s),
        utf16_len(s) <= utf8_len(s),
    decreases s.len(),
{
    if s.len() > 0 {
        lemma_utf16_len_first(s);
        lemma_unit_counts_ordered(s.drop_first());
        let c = s[0] as u32;
        assert(encode_utf8(s) == vstd::utf8::encode_scalar(c) + encode_utf8(s.drop_first()));
        assert(vstd::utf8::encode_scalar(c).len() >= utf16_units(s[0]));
    }
}

/// For text of ASCII characters only, UTF-8 units, UTF-16 units and code
/// points are the same number.
pub proof fn lemma_ascii_counts_equal(s: Seq<char>)
    requires
        forall|i: int| 0 <= i < s.len() ==> (#[trigger] s[i] as u32) < 0x80,
    ensures
        utf16_len(s) == s.len(),
        utf8_len(s) == s.len(),
    decreases s.len(),
{
    if s.len() > 0 {
        lemma_utf16_len_first(s);
        let t = s.drop_first();
        assert forall|i: int| 0 <= i < t.len() implies (#[trigger] t[i] as u32) < 0x80 by {
            assert(t[i] == s[i + 1]);
        }
        lemma_ascii_counts_equal(t);
        assert((s[0] as u32) < 0x80);
        assert(encode_utf8(s) == vstd::utf8::encode_scalar(s[0] as u32) + encode_utf8(t));
    }
}

/// The five sizes of one text.
#[derive(Clone, Copy, PartialEq, Eq, Structural, Debug)]
pub struct Sizes {
    pub utf8: usize,
    pub utf16: usize,
    pub utf32: usize,
    pub graphemes: usize,
    pub width: usize,
}

impl Sizes {
    /// The sizes that `measure` gives for a text.
    pub open spec fn of(self, s: Seq<char>) -> bool {
        &&& self.utf8 == utf8_len(s)
        &&& self.utf16 == utf16_len(s)
        &&& self.utf32 == s.len()
        &&& self.graphemes == graphemes_of(s)
        &&& self.width == width_of(s)
    }
}

/// The number of UTF-8 code units of a text.
pub fn utf8_count(s: &str) -> (r: usize)
    ensures
        r == utf8_len(s@),
{
    s.as_bytes().len()
}

/// The number of UTF-16 code units of a text.
pub fn utf16_count(s: &str) -> (r: usize)
    ensures
        r == utf16_len(s@),
{
    let total = utf8_count(s);
    proof { lemma_unit_counts_ordered(s@); }
    let mut n: usize = 0;
    for c in it: s.chars()
        invariant
            it.seq() == s@,
            n == utf16_len(s@.take(it.index())),
            utf16_len(s@) <= total,
    {
        proof {
            let k = it.index();
            assert(s@.take(k + 1).drop_last() =~= s@.take(k));
            lemma_utf16_prefix(s@, k + 1);
        }
        if c as u32 >= 0x10000 {
            n = n + 2;
        } else {
            n = n + 1;
        }
    }
    assert(s@.take(s@.len() as int) =~= s@);
    n
}

/// The UTF-16 length of a prefix is at most that of the whole text.
pub proof fn lemma_utf16_prefix(s: Seq<char>, k: int)
    requires
        0 <= k <= s.len(),
    ensures
        utf16_len(s.take(k)) <= utf16_len(s),
    decreases s.len() - k,
{
    if k < s.len() {
        lemma_utf16_prefix(s, k + 1);
        assert(s.take(k + 1).drop_last() =~= s.take(k));
    } else {
        assert(s.take(k) =~= s);
    }
}

/// The five sizes of a text, each computed from the text itself: UTF-8
/// and UTF-16 code units, code points, extended grapheme clusters and
/// display columns. Grapheme clusters, code points, UTF-16 units and
/// UTF-8 units never decrease in that order.
pub fn measure(s: &str) -> (r: Sizes)
    ensures
        r.of(s@),
        r.graphemes <= r.utf32 <= r.utf16 <= r.utf8,
{
    let graphemes = grapheme_count(s);
    proof { lemma_unit_counts_ordered(s@); }
    Sizes {
        utf8: utf8_count(s),
        utf16: utf16_count(s),
        utf32: s.unicode_len(),
        graphemes,
        width: display_width(s),
    }
}


} // verus!

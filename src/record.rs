use vstd::prelude::*;
use crate::extract::{ExtractError, body_of, extract_body};
use crate::metrics::{Sizes, measure, nfc_of};
use crate::stats::{Stats, sum, summarize};
use crate::xml::events_of;

verus! {

/// One measured document.
#[derive(Debug)]
pub struct Lang {
    pub name: String,
    pub utf8: usize,
    pub utf16: usize,
    pub utf32: usize,
    pub graphemes: usize,
    pub width: usize,
    pub code: Option<String>,
    pub script: Option<String>,
}

/// The five size metrics of a document.
#[derive(PartialEq, Eq, Structural, Clone, Copy, Debug)]
pub enum Metric {
    Utf8,
    Utf16,
    Utf32,
    Graphemes,
    Width,
}

impl Lang {
    pub open spec fn sizes(&self) -> Sizes {
        Sizes {
            utf8: self.utf8,
            utf16: self.utf16,
            utf32: self.utf32,
            graphemes: self.graphemes,
            width: self.width,
        }
    }

    pub open spec fn metric(&self, m: Metric) -> usize {
        match m {
            Metric::Utf8 => self.utf8,
            Metric::Utf16 => self.utf16,
            Metric::Utf32 => self.utf32,
            Metric::Graphemes => self.graphemes,
            Metric::Width => self.width,
        }
    }

    /// The value of one metric.
    pub fn get(&self, m: Metric) -> (r: usize)
        ensures
            r == self.metric(m),
    {
        match m {
            Metric::Utf8 => self.utf8,
            Metric::Utf16 => self.utf16,
            Metric::Utf32 => self.utf32,
            Metric::Graphemes => self.graphemes,
            Metric::Width => self.width,
        }
    }
}

/// The record of a document whose body text is `body`: all five sizes are
/// taken from that one text.
pub fn measure_body(body: &str, name: String, code: String, script: String) -> (r: Lang)
    ensures
        r.sizes().of(body@),
        r.graphemes <= r.utf32 <= r.utf16 <= r.utf8,
        r.name == name,
        r.code == Some(code),
        r.script == Some(script),
{
    let s = measure(body);
    Lang {
        name,
        utf8: s.utf8,
        utf16: s.utf16,
        utf32: s.utf32,
        graphemes: s.graphemes,
        width: s.width,
        code: Some(code),
        script: Some(script),
    }
}

/// Extracts the body text of a marked-up document and measures it.
/// Errors are those of `extract_body`.
pub fn count(content: &str, name: String, code: String, script: String) -> (r: Result<Lang, ExtractError>)
    ensures
        match events_of(content@) {
            None => r == Err::<Lang, ExtractError>(ExtractError::Syntax),
            Some(evs) => match body_of(evs) {
                Ok(acc) => r matches Ok(l) && l.name == name && l.code == Some(code)
                    && l.script == Some(script) && l.sizes().of(nfc_of(acc))
                    && l.graphemes <= l.utf32 <= l.utf16 <= l.utf8,
                Err(e) => r == Err::<Lang, ExtractError>(e),
            },
        },
{
    match extract_body(content) {
        Ok(body) => Ok(measure_body(body.as_str(), name, code, script)),
        Err(e) => Err(e),
    }
}

/// The values of one metric over the records, in record order.
pub open spec fn column(langs: Seq<Lang>, m: Metric) -> Seq<usize> {
    langs.map_values(|l: Lang| l.metric(m))
}

/// The values of one metric over the records, in record order.
pub fn column_of(langs: &Vec<Lang>, m: Metric) -> (r: Vec<usize>)
    ensures
        r@ == column(langs@, m),
{
    let mut out: Vec<usize> = Vec::new();
    let mut i: usize = 0;
    while i < langs.len()
        invariant
            i <= langs.len(),
            out@ =~= column(langs@.take(i as int), m),
        decreases langs.len() - i,
    {
        out.push(langs[i].get(m));
        i = i + 1;
        assert(out@ =~= column(langs@.take(i as int), m));
    }
    assert(langs@.take(i as int) =~= langs@);
    out
}

/// The statistics of each metric over a set of records.
#[derive(Clone, Copy, PartialEq, Eq, Structural, Debug)]
pub struct Summary {
    pub utf8: Stats,
    pub utf16: Stats,
    pub utf32: Stats,
    pub graphemes: Stats,
    pub width: Stats,
}

impl Summary {
    pub open spec fn stats(self, m: Metric) -> Stats {
        match m {
            Metric::Utf8 => self.utf8,
            Metric::Utf16 => self.utf16,
            Metric::Utf32 => self.utf32,
            Metric::Graphemes => self.graphemes,
            Metric::Width => self.width,
        }
    }
}

/// The statistics of one metric over the records, as `summarize` gives
/// them for that metric's column.
pub open spec fn summarizes(s: Stats, langs: Seq<Lang>, m: Metric) -> bool {
    let col = column(langs, m);
    &&& exists|t: Seq<usize>| crate::stats::sorts(t, col) && #[trigger] s.read_off(t, sum(col))
    &&& s.min <= s.median <= s.max
    &&& s.max_excluding_outlier <= s.max
}

/// The statistics of one metric over a non-empty set of records.
pub fn summarize_metric(langs: &Vec<Lang>, m: Metric) -> (r: Stats)
    requires
        langs.len() >= 1,
        sum(column(langs@, m)) <= usize::MAX,
    ensures
        summarizes(r, langs@, m),
{
    let col = column_of(langs, m);
    summarize(&col)
}

/// The statistics of every metric over a non-empty set of records, each
/// metric ordered on its own.
pub fn aggregate(langs: &Vec<Lang>) -> (r: Summary)
    requires
        langs.len() >= 1,
        forall|m: Metric| sum(#[trigger] column(langs@, m)) <= usize::MAX,
    ensures
        forall|m: Metric| #[trigger] summarizes(r.stats(m), langs@, m),
{
    let r = Summary {
        utf8: summarize_metric(langs, Metric::Utf8),
        utf16: summarize_metric(langs, Metric::Utf16),
        utf32: summarize_metric(langs, Metric::Utf32),
        graphemes: summarize_metric(langs, Metric::Graphemes),
        width: summarize_metric(langs, Metric::Width),
    };
    assert forall|m: Metric| #[trigger] summarizes(r.stats(m), langs@, m) by {
        match m {
            Metric::Utf8 => {},
            Metric::Utf16 => {},
            Metric::Utf32 => {},
            Metric::Graphemes => {},
            Metric::Width => {},
        }
    }
    r
}

/// The statistics of every metric, or `None` where there is no record or
/// the sum of some metric does not fit in a `usize`.
pub fn try_aggregate(langs: &Vec<Lang>) -> (r: Option<Summary>)
    ensures
        r is None <==> (langs.len() == 0 || exists|m: Metric| sum(#[trigger] column(langs@, m)) > usize::MAX),
        r matches Some(s) ==> forall|m: Metric| #[trigger] summarizes(s.stats(m), langs@, m),
{
    if langs.len() == 0 {
        return None;
    }
    let ms = [Metric::Utf8, Metric::Utf16, Metric::Utf32, Metric::Graphemes, Metric::Width];
    let mut k: usize = 0;
    while k < 5
        invariant
            k <= 5,
            ms@ == seq![Metric::Utf8, Metric::Utf16, Metric::Utf32, Metric::Graphemes, Metric::Width],
            forall|j: int| 0 <= j < k ==> sum(#[trigger] column(langs@, ms@[j])) <= usize::MAX,
        decreases 5 - k,
    {
        let col = column_of(langs, ms[k]);
        if crate::stats::checked_sum(&col).is_none() {
            return None;
        }
        k = k + 1;
    }
    assert forall|m: Metric| sum(#[trigger] column(langs@, m)) <= usize::MAX by {
        match m {
            Metric::Utf8 => assert(ms@[0] == m),
            Metric::Utf16 => assert(ms@[1] == m),
            Metric::Utf32 => assert(ms@[2] == m),
            Metric::Graphemes => assert(ms@[3] == m),
            Metric::Width => assert(ms@[4] == m),
        }
    }
    Some(aggregate(langs))
}

/// The positions of the records, ordered by ascending value of one metric.
pub fn rank_by(langs: &Vec<Lang>, m: Metric) -> (r: Vec<usize>)
    ensures
        r@.to_multiset() == Seq::new(langs@.len(), |k: int| k as usize).to_multiset(),
        forall|a: int| 0 <= a < r@.len() ==> r@[a] < langs@.len(),
        forall|a: int, b: int| 0 <= a <= b < r@.len() ==>
            langs@[r@[a] as int].metric(m) <= langs@[r@[b] as int].metric(m),
{
    broadcast use {vstd::seq_lib::group_to_multiset_ensures, vstd::multiset::group_multiset_axioms};
    let mut out: Vec<usize> = Vec::new();
    let mut i: usize = 0;
    assert(out@ =~= Seq::new(0, |k: int| k as usize));
    while i < langs.len()
        invariant
            i <= langs.len(),
            out@.to_multiset() == Seq::new(i as nat, |k: int| k as usize).to_multiset(),
            forall|a: int| 0 <= a < out@.len() ==> out@[a] < i,
            forall|a: int, b: int| 0 <= a <= b < out@.len() ==>
                langs@[out@[a] as int].metric(m) <= langs@[out@[b] as int].metric(m),
        decreases langs.len() - i,
    {
        let x = langs[i].get(m);
        let mut pos: usize = 0;
        while pos < out.len() && langs[out[pos]].get(m) <= x
            invariant
                pos <= out.len(),
                i < langs.len(),
                forall|a: int| 0 <= a < out@.len() ==> out@[a] < i,
                forall|k: int| 0 <= k < pos ==> langs@[out@[k] as int].metric(m) <= x,
            decreases out.len() - pos,
        {
            pos = pos + 1;
        }
        let ghost before = out@;
        out.insert(pos, i);
        proof {
            assert(Seq::new((i + 1) as nat, |k: int| k as usize) =~= Seq::new(i as nat, |k: int| k as usize).push(i));
            let prev = Seq::new(i as nat, |k: int| k as usize);
            vstd::seq_lib::to_multiset_insert(before, pos as int, i);
            vstd::seq_lib::to_multiset_build(prev, i);
            assert(out@.to_multiset() == prev.push(i).to_multiset());
            assert forall|a: int, b: int| 0 <= a <= b < out@.len() implies
                langs@[out@[a] as int].metric(m) <= langs@[out@[b] as int].metric(m) by {
                if pos < before.len() {
                    assert(langs@[before[pos as int] as int].metric(m) > x);
                }
                if a < pos && b > pos {
                    assert(out@[a] == before[a]);
                    assert(out@[b] == before[b - 1]);
                }
            }
        }
        i = i + 1;
    }
    out
}

} // verus!

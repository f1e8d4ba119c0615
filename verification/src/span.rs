//! Source locations.

use vstd::prelude::*;

verus! {

/// A region of a source text: the source it lies in and a half-open range of
/// offsets into it.
#[derive(Clone, Copy, Debug, PartialEq, Eq, Structural)]
pub struct Span {
    pub src: u64,
    pub start: usize,
    pub end: usize,
}

/// The source number that stands for what the compiler itself defines.
pub const BUILTIN_SRC: u64 = 0;

impl Span {
    /// The span given to everything that no source text declares.
    pub open spec fn spec_builtin() -> Span {
        Span { src: BUILTIN_SRC, start: 0, end: 0 }
    }

    /// The span given to everything that no source text declares.
    pub fn builtin() -> (r: Span)
        ensures
            r == Span::spec_builtin(),
    {
        Span { src: BUILTIN_SRC, start: 0, end: 0 }
    }

    /// The span from `start` to `end` in the source `src`.
    pub fn new(src: u64, start: usize, end: usize) -> (r: Span)
        ensures
            r == (Span { src, start, end }),
    {
        Span { src, start, end }
    }
}

/// `acc` widened to cover every present span among the first `n` of `spans`.
pub open spec fn spec_widen(acc: Span, spans: Seq<Option<Span>>, n: int) -> Span
    decreases n,
{
    if n <= 0 || n > spans.len() {
        acc
    } else {
        let prev = spec_widen(acc, spans, n - 1);
        match spans[n - 1] {
            Some(s) => Span {
                src: prev.src,
                start: if s.start < prev.start { s.start } else { prev.start },
                end: if s.end > prev.end { s.end } else { prev.end },
            },
            None => prev,
        }
    }
}

/// Index of the first present span, or the length if there is none.
pub open spec fn spec_first_present(spans: Seq<Option<Span>>, from: int) -> int
    decreases spans.len() - from,
{
    if from < 0 || from >= spans.len() {
        spans.len() as int
    } else if spans[from] is Some {
        from
    } else {
        spec_first_present(spans, from + 1)
    }
}

/// The span that covers all present spans: none if none is present, else the
/// first present span widened over all of them. The source is that of the
/// first present span.
pub open spec fn spec_calculate_span(spans: Seq<Option<Span>>) -> Option<Span> {
    let first = spec_first_present(spans, 0);
    if first >= spans.len() {
        None
    } else {
        Some(spec_widen(spans[first]->Some_0, spans, spans.len() as int))
    }
}

/// Widening never moves the start later, the end earlier, or the source.
pub proof fn lemma_widen_bounds(acc: Span, spans: Seq<Option<Span>>, n: int)
    ensures
        spec_widen(acc, spans, n).start <= acc.start,
        spec_widen(acc, spans, n).end >= acc.end,
        spec_widen(acc, spans, n).src == acc.src,
    decreases n,
{
    if n <= 0 || n > spans.len() {
    } else {
        lemma_widen_bounds(acc, spans, n - 1);
    }
}

/// A widened span starts no later and ends no earlier than every present
/// span among those it was widened over.
pub proof fn lemma_widen_covers(acc: Span, spans: Seq<Option<Span>>, n: int, k: int)
    requires
        0 <= k < n <= spans.len(),
        spans[k] is Some,
    ensures
        spec_widen(acc, spans, n).start <= spans[k]->Some_0.start,
        spec_widen(acc, spans, n).end >= spans[k]->Some_0.end,
    decreases n,
{
    if k < n - 1 {
        lemma_widen_covers(acc, spans, n - 1, k);
    } else {
        lemma_widen_bounds(acc, spans, n - 1);
    }
}

/// The first present span from `from` on is present, and none before it is.
pub proof fn lemma_first_present(spans: Seq<Option<Span>>, from: int)
    requires
        0 <= from,
    ensures
        from <= spec_first_present(spans, from) || spans.len() < from,
        spec_first_present(spans, from) < spans.len() ==> spans[spec_first_present(
            spans,
            from,
        )] is Some,
        forall|j: int| from <= j < spec_first_present(spans, from) && j < spans.len() ==> spans[j] is None,
    decreases spans.len() - from,
{
    if from < spans.len() && !(spans[from] is Some) {
        lemma_first_present(spans, from + 1);
    }
}

/// Where a span is present, the calculated span lies in the source of the
/// first present span and covers every present span. Where none is
/// present, there is no calculated span.
pub proof fn lemma_calculate_span_covers(spans: Seq<Option<Span>>, k: int)
    requires
        0 <= k < spans.len(),
        spans[k] is Some,
    ensures
        spec_calculate_span(spans) is Some,
        spec_calculate_span(spans)->Some_0.start <= spans[k]->Some_0.start,
        spec_calculate_span(spans)->Some_0.end >= spans[k]->Some_0.end,
        spec_calculate_span(spans)->Some_0.src == spans[spec_first_present(spans, 0)]->Some_0.src,
{
    lemma_first_present(spans, 0);
    let first = spec_first_present(spans, 0);
    if first >= spans.len() {
        assert(spans[k] is None);
    }
    lemma_widen_covers(spans[first]->Some_0, spans, spans.len() as int, k);
    lemma_widen_bounds(spans[first]->Some_0, spans, spans.len() as int);
}

/// The smallest span that covers all the spans that are present.
pub fn calculate_span(spans: &Vec<Option<Span>>) -> (r: Option<Span>)
    ensures
        r == spec_calculate_span(spans@),
{
    let n: usize = spans.len();
    let mut i: usize = 0;
    while i < n && spans[i].is_none()
        invariant
            n == spans.len(),
            i <= n,
            spec_first_present(spans@, 0) == spec_first_present(spans@, i as int),
        decreases n - i,
    {
        i += 1;
    }
    if i >= n {
        return None;
    }
    let first: usize = i;
    let mut span: Span = spans[first].unwrap();
    let ghost start: Span = span;
    let mut k: usize = 0;
    while k < n
        invariant
            n == spans.len(),
            k <= n,
            span == spec_widen(start, spans@, k as int),
        decreases n - k,
    {
        match spans[k] {
            Some(s) => {
                if s.start < span.start {
                    span.start = s.start;
                }
                if s.end > span.end {
                    span.end = s.end;
                }
            },
            None => {},
        }
        k += 1;
    }
    Some(span)
}

} // verus!

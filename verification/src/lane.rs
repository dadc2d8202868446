//! Reporting of device spans to a profiler lane.
//!
//! A span is a named stretch of device time with the place that it was dispatched from. Without a
//! profiler attached nothing is reported, and an origin carries nothing.

use vstd::prelude::*;

use crate::timing::{nanoseconds, ticks_to_ns};

verus! {

/// Placeholder origin of a dispatch, where no profiler captures one.
#[derive(Clone, Copy, Debug, PartialEq, Eq, Structural)]
pub struct Origin;

/// A named span from begin to end, with the origin of its dispatch.
pub struct Span<O> {
    /// The kernel.
    pub name: String,
    /// When it began.
    pub begin: u64,
    /// When it ended.
    pub end: u64,
    /// Where it was dispatched from.
    pub origin: O,
}

impl Default for Origin {
    fn default() -> (r: Self)
        ensures
            r == Origin,
    {
        Origin
    }
}

/// True while a recording of this process is active: never, without a profiler.
pub fn reporting_active() -> (r: bool)
    ensures
        r == false,
{
    false
}

/// Capture the origin of a dispatch: a placeholder, without a profiler.
pub fn capture_origin() -> (r: Origin)
    ensures
        r == Origin,
{
    Origin
}

/// A span of device ticks as a span of nanoseconds.
pub open spec fn span_in_ns<O>(frequency_hz: u64, span: Span<O>) -> Span<O> {
    Span {
        name: span.name,
        begin: nanoseconds(frequency_hz, span.begin),
        end: nanoseconds(frequency_hz, span.end),
        origin: span.origin,
    }
}

/// Converts resolved per-dispatch spans to what a lane takes: their raw device timestamps become
/// nanoseconds, and nothing else changes.
pub fn report<O>(frequency_hz: u64, spans: Vec<Span<O>>) -> (r: Vec<Span<O>>)
    ensures
        r@ == spans@.map_values(|span: Span<O>| span_in_ns(frequency_hz, span)),
{
    let ghost given = spans@;
    let mut out: Vec<Span<O>> = Vec::new();
    for span in it: spans
        invariant
            it.seq() == given,
            out@.len() == it.index(),
            forall|j: int| 0 <= j < out@.len() ==> out@[j] == span_in_ns(frequency_hz, given[j]),
    {
        out.push(
            Span {
                name: span.name,
                begin: ticks_to_ns(frequency_hz, span.begin),
                end: ticks_to_ns(frequency_hz, span.end),
                origin: span.origin,
            },
        );
    }
    assert(out@ =~= given.map_values(|span: Span<O>| span_in_ns(frequency_hz, span)));
    out
}

/// The spans that were built, in order.
pub open spec fn built_spans<S>(built: Seq<Option<S>>) -> Seq<S>
    decreases built.len(),
{
    if built.len() == 0 {
        seq![]
    } else {
        match built.last() {
            Some(span) => built_spans(built.drop_last()).push(span),
            None => built_spans(built.drop_last()),
        }
    }
}

/// Decides what is sent to the lane: the spans that it built, or nothing where it built none.
pub fn reportable<S>(built: Vec<Option<S>>) -> (r: Option<Vec<S>>)
    ensures
        built_spans(built@).len() == 0 ==> r is None,
        built_spans(built@).len() > 0 ==> (r matches Some(spans) && spans@ == built_spans(built@)),
{
    let ghost given = built@;
    let mut out: Vec<S> = Vec::new();
    for span in it: built
        invariant
            it.seq() == given,
            out@ == built_spans(given.take(it.index() as int)),
    {
        proof {
            let next = given.take(it.index() + 1);
            assert(next.drop_last() =~= given.take(it.index() as int));
            assert(next.last() == span);
        }
        match span {
            Some(span) => {
                out.push(span);
            },
            None => {},
        }
    }
    assert(given.take(given.len() as int) =~= given);
    if out.len() == 0 {
        None
    } else {
        Some(out)
    }
}

/// A reported span keeps its name and its origin, and its length in nanoseconds goes by the clock
/// of the device at both ends.
pub proof fn law_span_keeps_name_and_origin<O>(frequency_hz: u64, span: Span<O>)
    ensures
        span_in_ns(frequency_hz, span).name == span.name,
        span_in_ns(frequency_hz, span).origin == span.origin,
        span_in_ns(frequency_hz, span).begin == nanoseconds(frequency_hz, span.begin),
        span_in_ns(frequency_hz, span).end == nanoseconds(frequency_hz, span.end),
{
}

/// What is built of two lists one behind the other is what is built of each, one behind the other.
/// A span that was built is kept, and one that was not adds nothing.
pub proof fn law_built_spans_in_order<S>(a: Seq<Option<S>>, b: Seq<Option<S>>, span: S)
    ensures
        built_spans(a + b) == built_spans(a) + built_spans(b),
        built_spans(seq![Some(span)]) == seq![span],
        built_spans(seq![None::<S>]).len() == 0,
    decreases b.len(),
{
    reveal_with_fuel(built_spans, 2);
    assert(seq![Some(span)].drop_last() =~= seq![]);
    assert(seq![None::<S>].drop_last() =~= seq![]);
    assert(built_spans(seq![Some(span)]) =~= seq![span]);
    if b.len() == 0 {
        assert(a + b =~= a);
        assert(built_spans(a) + built_spans(b) =~= built_spans(a));
    } else {
        law_built_spans_in_order(a, b.drop_last(), span);
        assert((a + b).drop_last() =~= a + b.drop_last());
        assert(built_spans(a + b) =~= built_spans(a) + built_spans(b));
    }
}

/// A report has one span for each that was given, in order, with its name and origin and with
/// both times in nanoseconds.
pub proof fn law_report_gives_each_span<O>(
    frequency_hz: u64,
    spans: Vec<Span<O>>,
    r: Vec<Span<O>>,
    i: int,
    begin: u64,
    end: u64,
)
    requires
        call_ensures(report::<O>, (frequency_hz, spans), r),
        0 <= i < spans@.len(),
        call_ensures(ticks_to_ns, (frequency_hz, spans@[i].begin), begin),
        call_ensures(ticks_to_ns, (frequency_hz, spans@[i].end), end),
    ensures
        r@.len() == spans@.len(),
        r@[i].name == spans@[i].name,
        r@[i].origin == spans@[i].origin,
        r@[i].begin == begin,
        r@[i].end == end,
{
}

/// Something is reportable exactly where a span was built. Where all were, all of them are.
pub proof fn law_reportable_where_built<S>(built: Vec<Option<S>>, r: Option<Vec<S>>)
    requires
        call_ensures(reportable::<S>, (built,), r),
    ensures
        r is Some <==> exists|i: int| 0 <= i < built@.len() && (#[trigger] built@[i]) is Some,
        r matches Some(spans) ==> 0 < spans@.len() <= built@.len(),
        built@.len() > 0 && (forall|i: int| 0 <= i < built@.len() ==> (#[trigger] built@[i]) is Some)
            ==> r is Some && r->0@.len() == built@.len() && forall|i: int|
            0 <= i < built@.len() ==> #[trigger] r->0@[i] == built@[i]->0,
{
    lemma_built_count(built@);
}

/// No more spans are built than were begun, none where none was, and all where all were.
proof fn lemma_built_count<S>(built: Seq<Option<S>>)
    ensures
        built_spans(built).len() <= built.len(),
        built_spans(built).len() > 0 <==> exists|i: int|
            0 <= i < built.len() && (#[trigger] built[i]) is Some,
        (forall|i: int| 0 <= i < built.len() ==> (#[trigger] built[i]) is Some) ==> built_spans(
            built,
        ).len() == built.len() && forall|i: int|
            0 <= i < built.len() ==> #[trigger] built_spans(built)[i] == built[i]->0,
    decreases built.len(),
{
    if built.len() > 0 {
        let rest = built.drop_last();
        lemma_built_count(rest);
        assert(forall|i: int| 0 <= i < rest.len() ==> #[trigger] rest[i] == built[i]);
        if built_spans(rest).len() > 0 {
            let i = choose|i: int| 0 <= i < rest.len() && (#[trigger] rest[i]) is Some;
            assert(built[i] is Some);
        }
        if built.last() is Some {
            assert(built[built.len() - 1] is Some);
        }
        if exists|i: int| 0 <= i < built.len() && (#[trigger] built[i]) is Some {
            let i = choose|i: int| 0 <= i < built.len() && (#[trigger] built[i]) is Some;
            if i < rest.len() {
                assert(rest[i] is Some);
            }
        }
    }
}

} // verus!

//! The event vocabulary exchanged between the builder, the storage and the
//! iterators, and the specification-level state machine that says which event
//! sequences are well formed.

use vstd::prelude::*;
use lyon_geom::math::Point;

verus! {

/// The tag identifying which kind of segment a position in a path's verb
/// buffer stands for. `Close` and `End` both terminate a subpath; `Close`
/// additionally asks consumers to honor an implicit closing edge back to the
/// subpath's first point.
#[derive(Copy, Clone, Debug, PartialEq, Eq, Structural)]
pub enum Verb {
    Begin,
    LineTo,
    QuadraticTo,
    CubicTo,
    Close,
    End,
}

/// The atomic unit of path description.
#[derive(Copy, Clone, Debug, PartialEq)]
pub enum PathEvent {
    /// Starts a new subpath at `at`.
    Begin { at: Point },
    /// A straight edge.
    Line { from: Point, to: Point },
    /// A quadratic bezier edge.
    Quadratic { from: Point, ctrl: Point, to: Point },
    /// A cubic bezier edge.
    Cubic { from: Point, ctrl1: Point, ctrl2: Point, to: Point },
    /// Ends the current subpath; `close` asks consumers to honor an implicit
    /// closing edge from `last` back to `first`.
    End { last: Point, first: Point, close: bool },
}

/// One cubic bezier drawing command without its start point: the shape in
/// which an arc approximation is handed to the builder.
#[derive(Copy, Clone, Debug, PartialEq)]
pub struct CubicTo {
    pub ctrl1: Point,
    pub ctrl2: Point,
    pub to: Point,
}

/// Where the pen stands while an event stream is replayed: either between
/// subpaths, or inside one, at `pos`, in a subpath that began at `first`.
#[derive(Copy, Clone, Debug, PartialEq)]
pub enum TraceState {
    Idle,
    Open { pos: Point, first: Point },
}

impl TraceState {
    pub open spec fn is_open(self) -> bool {
        self is Open
    }
}

/// The verb under which an event is stored.
pub open spec fn event_verb(e: PathEvent) -> Verb {
    match e {
        PathEvent::Begin { .. } => Verb::Begin,
        PathEvent::Line { .. } => Verb::LineTo,
        PathEvent::Quadratic { .. } => Verb::QuadraticTo,
        PathEvent::Cubic { .. } => Verb::CubicTo,
        PathEvent::End { close, .. } => if close {
            Verb::Close
        } else {
            Verb::End
        },
    }
}

/// The points an event contributes to the point buffer. Points that can be
/// reconstructed while replaying (the `from` of every edge, and both fields
/// of `End`) are not stored.
pub open spec fn event_points(e: PathEvent) -> Seq<Point> {
    match e {
        PathEvent::Begin { at } => seq![at],
        PathEvent::Line { from, to } => seq![to],
        PathEvent::Quadratic { from, ctrl, to } => seq![ctrl, to],
        PathEvent::Cubic { from, ctrl1, ctrl2, to } => seq![ctrl1, ctrl2, to],
        PathEvent::End { .. } => seq![],
    }
}

/// The verb buffer that encodes an event sequence.
pub open spec fn verbs_of(es: Seq<PathEvent>) -> Seq<Verb> {
    es.map_values(|e: PathEvent| event_verb(e))
}

/// The point buffer that encodes an event sequence.
pub open spec fn points_of(es: Seq<PathEvent>) -> Seq<Point>
    decreases es.len(),
{
    if es.len() == 0 {
        Seq::empty()
    } else {
        event_points(es.first()) + points_of(es.drop_first())
    }
}

/// How one event moves the pen, or `None` if the event is not allowed in the
/// given state: an edge must start where the pen stands, a subpath can only
/// begin between subpaths, and an `End` must carry the pen position and the
/// subpath's first point.
pub open spec fn trace_step(s: TraceState, e: PathEvent) -> Option<TraceState> {
    match e {
        PathEvent::Begin { at } => if s is Idle {
            Some(TraceState::Open { pos: at, first: at })
        } else {
            None
        },
        PathEvent::Line { from, to } => match s {
            TraceState::Open { pos, first } => if from == pos {
                Some(TraceState::Open { pos: to, first })
            } else {
                None
            },
            TraceState::Idle => None,
        },
        PathEvent::Quadratic { from, ctrl, to } => match s {
            TraceState::Open { pos, first } => if from == pos {
                Some(TraceState::Open { pos: to, first })
            } else {
                None
            },
            TraceState::Idle => None,
        },
        PathEvent::Cubic { from, ctrl1, ctrl2, to } => match s {
            TraceState::Open { pos, first } => if from == pos {
                Some(TraceState::Open { pos: to, first })
            } else {
                None
            },
            TraceState::Idle => None,
        },
        PathEvent::End { last, first: f, close } => match s {
            TraceState::Open { pos, first } => if last == pos && f == first {
                Some(TraceState::Idle)
            } else {
                None
            },
            TraceState::Idle => None,
        },
    }
}

/// Replays an event sequence from state `s`; `None` as soon as one event is
/// out of place.
pub open spec fn trace(s: TraceState, es: Seq<PathEvent>) -> Option<TraceState>
    decreases es.len(),
{
    if es.len() == 0 {
        Some(s)
    } else {
        match trace(s, es.drop_last()) {
            Some(t) => trace_step(t, es.last()),
            None => None,
        }
    }
}

/// A complete path: every subpath begun is ended, and every event chains.
pub open spec fn complete(es: Seq<PathEvent>) -> bool {
    trace(TraceState::Idle, es) == Some(TraceState::Idle)
}

pub proof fn lemma_points_of_push(es: Seq<PathEvent>, e: PathEvent)
    ensures
        points_of(es.push(e)) == points_of(es) + event_points(e),
    decreases es.len(),
{
    if es.len() == 0 {
        reveal_with_fuel(points_of, 2);
        assert(es.push(e).drop_first() =~= Seq::<PathEvent>::empty());
        assert(points_of(es.push(e)) =~= points_of(es) + event_points(e));
    } else {
        let tail = es.drop_first();
        let p = es.push(e);
        assert(p.len() == es.len() + 1);
        assert(p.first() == es.first());
        assert(p.drop_first() =~= tail.push(e));
        lemma_points_of_push(tail, e);
        assert(points_of(p) == event_points(p.first()) + points_of(p.drop_first()));
        assert(points_of(p) =~= points_of(es) + event_points(e));
    }
}

/// The point buffer of an event sequence splits at any event boundary.
pub proof fn lemma_points_of_split(es: Seq<PathEvent>, k: int)
    requires
        0 <= k <= es.len(),
    ensures
        points_of(es) == points_of(es.take(k)) + points_of(es.skip(k)),
    decreases k,
{
    if k == 0 {
        assert(es.take(0) =~= Seq::<PathEvent>::empty());
        assert(es.skip(0) =~= es);
        assert(points_of(es) =~= points_of(es.take(0)) + points_of(es.skip(0)));
    } else {
        let rest = es.drop_first();
        lemma_points_of_split(rest, k - 1);
        assert(es.take(k).drop_first() =~= rest.take(k - 1));
        assert(es.take(k).first() == es.first());
        assert(es.skip(k) =~= rest.skip(k - 1));
        assert(points_of(es) =~= points_of(es.take(k)) + points_of(es.skip(k)));
    }
}

pub proof fn lemma_trace_push(s: TraceState, es: Seq<PathEvent>, e: PathEvent)
    ensures
        trace(s, es.push(e)) == match trace(s, es) {
            Some(t) => trace_step(t, e),
            None => None::<TraceState>,
        },
{
    assert(es.push(e).drop_last() =~= es);
    assert(es.push(e).last() == e);
}

/// Every prefix of a replayable sequence replays.
pub proof fn lemma_trace_prefix(s: TraceState, es: Seq<PathEvent>, k: int)
    requires
        0 <= k <= es.len(),
        trace(s, es) is Some,
    ensures
        trace(s, es.take(k)) is Some,
    decreases es.len() - k,
{
    if k == es.len() {
        assert(es.take(k) =~= es);
    } else {
        lemma_trace_prefix(s, es, k + 1);
        assert(es.take(k + 1) =~= es.take(k).push(es[k]));
        lemma_trace_push(s, es.take(k), es[k]);
    }
}


/// Whether an event begins a subpath.
pub open spec fn is_begin(e: PathEvent) -> bool {
    e is Begin
}

/// Whether an event ends a subpath.
pub open spec fn is_end(e: PathEvent) -> bool {
    e is End
}

/// The pen position an event requires to start from (`None` for `Begin`,
/// which needs no pen).
pub open spec fn event_from(e: PathEvent) -> Option<Point> {
    match e {
        PathEvent::Begin { .. } => None,
        PathEvent::Line { from, .. } => Some(from),
        PathEvent::Quadratic { from, .. } => Some(from),
        PathEvent::Cubic { from, .. } => Some(from),
        PathEvent::End { last, .. } => Some(last),
    }
}

/// Where an event leaves the pen (`None` for `End`, which leaves no pen).
pub open spec fn event_end_pos(e: PathEvent) -> Option<Point> {
    match e {
        PathEvent::Begin { at } => Some(at),
        PathEvent::Line { to, .. } => Some(to),
        PathEvent::Quadratic { to, .. } => Some(to),
        PathEvent::Cubic { to, .. } => Some(to),
        PathEvent::End { .. } => None,
    }
}

pub open spec fn count_begins(es: Seq<PathEvent>) -> int
    decreases es.len(),
{
    if es.len() == 0 {
        0
    } else {
        count_begins(es.drop_last()) + if is_begin(es.last()) {
            1int
        } else {
            0int
        }
    }
}

pub open spec fn count_ends(es: Seq<PathEvent>) -> int
    decreases es.len(),
{
    if es.len() == 0 {
        0
    } else {
        count_ends(es.drop_last()) + if is_end(es.last()) {
            1int
        } else {
            0int
        }
    }
}

/// The event at `j` is the `Begin` of the subpath still in progress just
/// before `i`: nothing between them begins or ends a subpath.
pub open spec fn begins_subpath_at(es: Seq<PathEvent>, j: int, i: int, first: Point) -> bool {
    &&& 0 <= j < i
    &&& es[j] == (PathEvent::Begin { at: first })
    &&& forall|l: int| j < l < i ==> !is_begin(#[trigger] es[l]) && !is_end(es[l])
}

proof fn lemma_begins_subpath_extend(es: Seq<PathEvent>, j: int, i: int, first: Point)
    requires
        0 <= i <= es.len() - 1,
        begins_subpath_at(es.drop_last(), j, i, first),
    ensures
        begins_subpath_at(es, j, i, first),
{
    assert(forall|l: int| 0 <= l < es.len() - 1 ==> #[trigger] es[l] == es.drop_last()[l]);
}

/// Law: in any replayable event sequence, subpaths bracket exactly: a
/// `Begin` stands only at the start or right after an `End`, everything else
/// continues an open subpath, a nonempty sequence starts with a `Begin`, and
/// the sequence leaves no subpath open exactly when it is empty or ends with
/// an `End`.
pub proof fn lemma_trace_alternation(es: Seq<PathEvent>, st: TraceState)
    requires
        trace(TraceState::Idle, es) == Some(st),
    ensures
        forall|i: int| 0 <= i < es.len() && is_begin(#[trigger] es[i]) ==> (i == 0 || is_end(
            es[i - 1],
        )),
        forall|i: int| 0 < i < es.len() && !is_begin(#[trigger] es[i]) ==> !is_end(es[i - 1]),
        es.len() > 0 ==> is_begin(es[0]),
        st is Idle <==> (es.len() == 0 || is_end(es.last())),
    decreases es.len(),
{
    if es.len() > 0 {
        let prefix = es.drop_last();
        let t = choose|t: TraceState| trace(TraceState::Idle, prefix) == Some(t);
        lemma_trace_alternation(prefix, t);
        assert(forall|i: int| 0 <= i < es.len() - 1 ==> #[trigger] es[i] == prefix[i]);
    }
}

/// Law: in any replayable event sequence, consecutive events chain — every
/// event but a `Begin` starts exactly where the previous event left the pen,
/// and while a subpath is open the pen stands where the last event ended.
pub proof fn lemma_trace_chaining(es: Seq<PathEvent>, st: TraceState)
    requires
        trace(TraceState::Idle, es) == Some(st),
    ensures
        forall|i: int|
            0 < i < es.len() && !is_begin(#[trigger] es[i]) ==> event_from(es[i])
                == event_end_pos(es[i - 1]),
        st matches TraceState::Open { pos, first } ==> es.len() > 0 && event_end_pos(es.last())
            == Some(pos),
    decreases es.len(),
{
    if es.len() > 0 {
        let prefix = es.drop_last();
        let t = choose|t: TraceState| trace(TraceState::Idle, prefix) == Some(t);
        lemma_trace_chaining(prefix, t);
        assert(forall|i: int| 0 <= i < es.len() - 1 ==> #[trigger] es[i] == prefix[i]);
    }
}

/// Law: in any replayable event sequence, every `End` carries the `at` point
/// of the `Begin` that opened its subpath, with no other `Begin` or `End`
/// between the two; while a subpath is open, its `Begin` carries the recorded
/// first point.
pub proof fn lemma_trace_pairing(es: Seq<PathEvent>, st: TraceState)
    requires
        trace(TraceState::Idle, es) == Some(st),
    ensures
        st matches TraceState::Open { pos, first } ==> exists|j: int| begins_subpath_at(
            es,
            j,
            es.len() as int,
            first,
        ),
        forall|i: int|
            0 <= i < es.len() && is_end(#[trigger] es[i]) ==> exists|j: int| begins_subpath_at(
                es,
                j,
                i,
                es[i]->End_first,
            ),
    decreases es.len(),
{
    if es.len() > 0 {
        let prefix = es.drop_last();
        let e = es.last();
        let n = es.len() - 1;
        let t = choose|t: TraceState| trace(TraceState::Idle, prefix) == Some(t);
        lemma_trace_pairing(prefix, t);
        assert(forall|i: int| 0 <= i < n ==> #[trigger] es[i] == prefix[i]);
        assert(trace_step(t, e) == Some(st));

        assert forall|i: int| 0 <= i < n && is_end(#[trigger] es[i]) implies exists|j: int|
            begins_subpath_at(es, j, i, es[i]->End_first) by {
            let j = choose|j: int| begins_subpath_at(prefix, j, i, prefix[i]->End_first);
            lemma_begins_subpath_extend(es, j, i, prefix[i]->End_first);
        }

        if let TraceState::Open { pos: tpos, first: tfirst } = t {
            let j = choose|j: int| begins_subpath_at(prefix, j, n, tfirst);
            lemma_begins_subpath_extend(es, j, n, tfirst);
            if !is_begin(e) && !is_end(e) {
                assert(begins_subpath_at(es, j, n + 1, tfirst));
            }
            if is_end(e) {
                assert(begins_subpath_at(es, j, n, es[n]->End_first));
            }
        }
        if let TraceState::Open { pos, first } = st {
            if is_begin(e) {
                assert(begins_subpath_at(es, n, n + 1, first));
            }
        }
    }
}

/// Law: in any replayable event sequence, the counts of `Begin` and `End`
/// events balance, with one extra `Begin` exactly while a subpath is open.
pub proof fn lemma_trace_balance(es: Seq<PathEvent>, st: TraceState)
    requires
        trace(TraceState::Idle, es) == Some(st),
    ensures
        count_begins(es) == count_ends(es) + if st is Open {
            1int
        } else {
            0int
        },
    decreases es.len(),
{
    if es.len() > 0 {
        let prefix = es.drop_last();
        let t = choose|t: TraceState| trace(TraceState::Idle, prefix) == Some(t);
        lemma_trace_balance(prefix, t);
    }
}

} // verus!

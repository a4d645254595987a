//! The mutable front end of path construction: a [`PathBuilder`] accepts
//! drawing commands, validates them against the subpath state machine,
//! resolves smooth curve continuations, and appends canonical events into the
//! verb/point encoding that [`crate::path::Path`] stores.

use vstd::prelude::*;
use lyon_geom::math::Angle;
use lyon_geom::math::Point;
use lyon_geom::math::Vector;
use crate::PathError;
use crate::events::CubicTo;
use crate::events::PathEvent;
use crate::events::TraceState;
use crate::events::Verb;
use crate::events::event_points;
use crate::events::lemma_points_of_push;
use crate::events::lemma_trace_push;
use crate::events::points_of;
use crate::events::trace;
use crate::events::trace_step;
use crate::events::verbs_of;
use crate::geometry::angle_is_finite;
use crate::geometry::arc_cubic_segments;
use crate::geometry::arc_segments_of;
use crate::geometry::chord_is_wide;
use crate::geometry::finite_angle;
use crate::geometry::finite_point;
use crate::geometry::finite_vector;
use crate::geometry::point_is_finite;
use crate::geometry::reflect_through;
use crate::geometry::reflection_of;
use crate::geometry::vector_is_finite;
use crate::geometry::wide_chord;
use crate::path::Path;

verus! {

/// The abstract value of a path builder: the canonical events appended so
/// far, where the pen stands, and the trailing control point remembered for
/// smooth curve continuations.
#[verifier::ext_equal]
pub struct BuilderModel {
    pub events: Seq<PathEvent>,
    pub state: TraceState,
    pub last_ctrl: Option<Point>,
}

/// Begins a new subpath at `to`, first ending (without closing) a subpath
/// left open.
pub open spec fn spec_move_to(m: BuilderModel, to: Point) -> BuilderModel {
    let ended = match m.state {
        TraceState::Open { pos, first } => m.events.push(
            PathEvent::End { last: pos, first, close: false },
        ),
        TraceState::Idle => m.events,
    };
    BuilderModel {
        events: ended.push(PathEvent::Begin { at: to }),
        state: TraceState::Open { pos: to, first: to },
        last_ctrl: None,
    }
}

/// Appends a straight edge from the pen to `to`; no change when no subpath is
/// open (the operation is rejected).
pub open spec fn spec_line_to(m: BuilderModel, to: Point) -> BuilderModel {
    match m.state {
        TraceState::Open { pos, first } => BuilderModel {
            events: m.events.push(PathEvent::Line { from: pos, to }),
            state: TraceState::Open { pos: to, first },
            last_ctrl: None,
        },
        TraceState::Idle => m,
    }
}

/// Appends a quadratic bezier edge; no change when no subpath is open.
pub open spec fn spec_quadratic_to(m: BuilderModel, ctrl: Point, to: Point) -> BuilderModel {
    match m.state {
        TraceState::Open { pos, first } => BuilderModel {
            events: m.events.push(PathEvent::Quadratic { from: pos, ctrl, to }),
            state: TraceState::Open { pos: to, first },
            last_ctrl: Some(ctrl),
        },
        TraceState::Idle => m,
    }
}

/// Appends a cubic bezier edge; no change when no subpath is open.
pub open spec fn spec_cubic_to(m: BuilderModel, ctrl1: Point, ctrl2: Point, to: Point) -> BuilderModel {
    match m.state {
        TraceState::Open { pos, first } => BuilderModel {
            events: m.events.push(PathEvent::Cubic { from: pos, ctrl1, ctrl2, to }),
            state: TraceState::Open { pos: to, first },
            last_ctrl: Some(ctrl2),
        },
        TraceState::Idle => m,
    }
}

/// The implied leading control point of a smooth continuation: the reflection
/// of the previous trailing control point about the pen, or the pen itself
/// when no trailing control point is remembered.
pub open spec fn smooth_ctrl(pos: Point, last_ctrl: Option<Point>) -> Point {
    match last_ctrl {
        Some(c) => reflection_of(pos, c),
        None => pos,
    }
}

/// A smooth quadratic continuation: a quadratic edge whose control point is
/// implied; no change when no subpath is open.
pub open spec fn spec_smooth_quadratic_to(m: BuilderModel, to: Point) -> BuilderModel {
    match m.state {
        TraceState::Open { pos, first } => spec_quadratic_to(
            m,
            smooth_ctrl(pos, m.last_ctrl),
            to,
        ),
        TraceState::Idle => m,
    }
}

/// A smooth cubic continuation: a cubic edge whose first control point is
/// implied; no change when no subpath is open.
pub open spec fn spec_smooth_cubic_to(m: BuilderModel, ctrl2: Point, to: Point) -> BuilderModel {
    match m.state {
        TraceState::Open { pos, first } => spec_cubic_to(
            m,
            smooth_ctrl(pos, m.last_ctrl),
            ctrl2,
            to,
        ),
        TraceState::Idle => m,
    }
}

/// Appends a run of cubic edges, each starting where the previous one ended.
pub open spec fn spec_cubics_to(m: BuilderModel, segs: Seq<CubicTo>) -> BuilderModel
    decreases segs.len(),
{
    if segs.len() == 0 {
        m
    } else {
        let s = segs.last();
        spec_cubic_to(spec_cubics_to(m, segs.drop_last()), s.ctrl1, s.ctrl2, s.to)
    }
}

/// An SVG arc appended as the cubic approximation the geometry-math
/// collaborator supplies; an arc whose geometry is not finite, or whose
/// endpoints nearly coincide, cannot be converted and degenerates to its
/// chord, a single straight edge; no change when no subpath is open.
pub open spec fn spec_arc_to(
    m: BuilderModel,
    radii: Vector,
    x_rotation: Angle,
    large_arc: bool,
    sweep: bool,
    to: Point,
) -> BuilderModel {
    match m.state {
        TraceState::Open { pos, first } => if finite_point(pos) && finite_point(to)
            && finite_vector(radii) && finite_angle(x_rotation) && wide_chord(pos, to) {
            spec_cubics_to(m, arc_segments_of(pos, radii, x_rotation, large_arc, sweep, to))
        } else {
            spec_line_to(m, to)
        },
        TraceState::Idle => m,
    }
}

/// Ends the open subpath with a closing edge; no change when no subpath is
/// open (closing a never-opened or already-closed path is harmless).
pub open spec fn spec_close(m: BuilderModel) -> BuilderModel {
    match m.state {
        TraceState::Open { pos, first } => BuilderModel {
            events: m.events.push(PathEvent::End { last: pos, first, close: true }),
            state: TraceState::Idle,
            last_ctrl: None,
        },
        TraceState::Idle => m,
    }
}

/// The complete event sequence a builder finalizes to: a subpath still open
/// is implicitly ended without closing.
pub open spec fn spec_build_events(m: BuilderModel) -> Seq<PathEvent> {
    match m.state {
        TraceState::Open { pos, first } => m.events.push(
            PathEvent::End { last: pos, first, close: false },
        ),
        TraceState::Idle => m.events,
    }
}

/// The mutable front end: accepts drawing commands, validates them, and
/// appends canonical events into the verb/point buffers.
pub struct PathBuilder {
    verbs: Vec<Verb>,
    points: Vec<Point>,
    state: TraceState,
    last_ctrl: Option<Point>,
    events: Ghost<Seq<PathEvent>>,
}

impl View for PathBuilder {
    type V = BuilderModel;

    closed spec fn view(&self) -> BuilderModel {
        BuilderModel { events: self.events@, state: self.state, last_ctrl: self.last_ctrl }
    }
}

impl PathBuilder {
    /// The events appended so far replay to exactly the recorded pen state,
    /// and the verb/point buffers encode exactly those events.
    pub closed spec fn well_formed(&self) -> bool {
        &&& trace(TraceState::Idle, self@.events) == Some(self@.state)
        &&& self.verbs@ == verbs_of(self@.events)
        &&& self.points@ == points_of(self@.events)
    }

    /// A fresh builder: no events, no open subpath.
    pub fn new() -> (b: PathBuilder)
        ensures
            b.well_formed(),
            b@ == (BuilderModel {
                events: Seq::<PathEvent>::empty(),
                state: TraceState::Idle,
                last_ctrl: None::<Point>,
            }),
    {
        let b = PathBuilder {
            verbs: Vec::new(),
            points: Vec::new(),
            state: TraceState::Idle,
            last_ctrl: None,
            events: Ghost(Seq::empty()),
        };
        proof {
            assert(b.verbs@ =~= verbs_of(b@.events));
            assert(b.points@ =~= points_of(b@.events));
        }
        b
    }

    /// Appends one event that is allowed in the current state, updating the
    /// buffers and the pen; the trailing control point is left to the caller.
    fn push_event(&mut self, e: PathEvent)
        requires
            old(self).well_formed(),
            trace_step(old(self)@.state, e) is Some,
        ensures
            final(self).well_formed(),
            final(self)@.events == old(self)@.events.push(e),
            Some(final(self)@.state) == trace_step(old(self)@.state, e),
            final(self)@.last_ctrl == old(self)@.last_ctrl,
    {
        match e {
            PathEvent::Begin { at } => {
                self.verbs.push(Verb::Begin);
                self.points.push(at);
                self.state = TraceState::Open { pos: at, first: at };
            },
            PathEvent::Line { from, to } => {
                self.verbs.push(Verb::LineTo);
                self.points.push(to);
                self.state = match self.state {
                    TraceState::Open { pos: _, first } => TraceState::Open { pos: to, first },
                    TraceState::Idle => TraceState::Idle,
                };
            },
            PathEvent::Quadratic { from, ctrl, to } => {
                self.verbs.push(Verb::QuadraticTo);
                self.points.push(ctrl);
                self.points.push(to);
                self.state = match self.state {
                    TraceState::Open { pos: _, first } => TraceState::Open { pos: to, first },
                    TraceState::Idle => TraceState::Idle,
                };
            },
            PathEvent::Cubic { from, ctrl1, ctrl2, to } => {
                self.verbs.push(Verb::CubicTo);
                self.points.push(ctrl1);
                self.points.push(ctrl2);
                self.points.push(to);
                self.state = match self.state {
                    TraceState::Open { pos: _, first } => TraceState::Open { pos: to, first },
                    TraceState::Idle => TraceState::Idle,
                };
            },
            PathEvent::End { last, first, close } => {
                self.verbs.push(if close { Verb::Close } else { Verb::End });
                self.state = TraceState::Idle;
            },
        }
        proof {
            let es = old(self)@.events;
            self.events@ = es.push(e);
            lemma_trace_push(TraceState::Idle, es, e);
            lemma_points_of_push(es, e);
            assert(self.verbs@ =~= verbs_of(es.push(e)));
            assert(self.points@ =~= points_of(es) + event_points(e));
        }
    }

    /// Begins a new subpath at `to`; a subpath still open is first ended
    /// without closing. Always valid.
    pub fn move_to(&mut self, to: Point)
        requires
            old(self).well_formed(),
        ensures
            final(self).well_formed(),
            final(self)@ == spec_move_to(old(self)@, to),
    {
        match self.state {
            TraceState::Open { pos, first } => {
                self.push_event(PathEvent::End { last: pos, first, close: false });
            },
            TraceState::Idle => {},
        }
        self.push_event(PathEvent::Begin { at: to });
        self.last_ctrl = None;
        proof {
            assert(self@ =~= spec_move_to(old(self)@, to));
        }
    }

    /// Appends a straight edge from the pen to `to`; fails with
    /// `InvalidState`, appending nothing, when no subpath is open.
    pub fn line_to(&mut self, to: Point) -> (r: Result<(), PathError>)
        requires
            old(self).well_formed(),
        ensures
            final(self).well_formed(),
            final(self)@ == spec_line_to(old(self)@, to),
            r is Ok <==> old(self)@.state is Open,
            r is Err ==> r == Err::<(), PathError>(PathError::InvalidState),
    {
        match self.state {
            TraceState::Open { pos, first } => {
                self.push_event(PathEvent::Line { from: pos, to });
                self.last_ctrl = None;
                proof {
                    assert(self@ =~= spec_line_to(old(self)@, to));
                }
                Ok(())
            },
            TraceState::Idle => Err(PathError::InvalidState),
        }
    }

    /// Appends a quadratic bezier edge and remembers its control point for a
    /// smooth continuation; fails with `InvalidState`, appending nothing,
    /// when no subpath is open.
    pub fn quadratic_bezier_to(&mut self, ctrl: Point, to: Point) -> (r: Result<(), PathError>)
        requires
            old(self).well_formed(),
        ensures
            final(self).well_formed(),
            final(self)@ == spec_quadratic_to(old(self)@, ctrl, to),
            r is Ok <==> old(self)@.state is Open,
            r is Err ==> r == Err::<(), PathError>(PathError::InvalidState),
    {
        match self.state {
            TraceState::Open { pos, first } => {
                self.push_event(PathEvent::Quadratic { from: pos, ctrl, to });
                self.last_ctrl = Some(ctrl);
                proof {
                    assert(self@ =~= spec_quadratic_to(old(self)@, ctrl, to));
                }
                Ok(())
            },
            TraceState::Idle => Err(PathError::InvalidState),
        }
    }

    /// Appends a cubic bezier edge and remembers its trailing control point
    /// for a smooth continuation; fails with `InvalidState`, appending
    /// nothing, when no subpath is open.
    pub fn cubic_bezier_to(&mut self, ctrl1: Point, ctrl2: Point, to: Point) -> (r: Result<
        (),
        PathError,
    >)
        requires
            old(self).well_formed(),
        ensures
            final(self).well_formed(),
            final(self)@ == spec_cubic_to(old(self)@, ctrl1, ctrl2, to),
            r is Ok <==> old(self)@.state is Open,
            r is Err ==> r == Err::<(), PathError>(PathError::InvalidState),
    {
        match self.state {
            TraceState::Open { pos, first } => {
                self.push_event(PathEvent::Cubic { from: pos, ctrl1, ctrl2, to });
                self.last_ctrl = Some(ctrl2);
                proof {
                    assert(self@ =~= spec_cubic_to(old(self)@, ctrl1, ctrl2, to));
                }
                Ok(())
            },
            TraceState::Idle => Err(PathError::InvalidState),
        }
    }

    /// A smooth quadratic continuation: the control point is the reflection
    /// of the previous trailing control point about the pen (the pen itself
    /// when there is none). Fails with `InvalidState` when no subpath is
    /// open.
    pub fn smooth_quadratic_bezier_to(&mut self, to: Point) -> (r: Result<(), PathError>)
        requires
            old(self).well_formed(),
        ensures
            final(self).well_formed(),
            final(self)@ == spec_smooth_quadratic_to(old(self)@, to),
            r is Ok <==> old(self)@.state is Open,
            r is Err ==> r == Err::<(), PathError>(PathError::InvalidState),
    {
        match self.state {
            TraceState::Open { pos, first } => {
                let ctrl = match self.last_ctrl {
                    Some(c) => reflect_through(pos, c),
                    None => pos,
                };
                self.quadratic_bezier_to(ctrl, to)
            },
            TraceState::Idle => Err(PathError::InvalidState),
        }
    }

    /// A smooth cubic continuation: the first control point is the reflection
    /// of the previous trailing control point about the pen (the pen itself
    /// when there is none). Fails with `InvalidState` when no subpath is
    /// open.
    pub fn smooth_cubic_bezier_to(&mut self, ctrl2: Point, to: Point) -> (r: Result<
        (),
        PathError,
    >)
        requires
            old(self).well_formed(),
        ensures
            final(self).well_formed(),
            final(self)@ == spec_smooth_cubic_to(old(self)@, ctrl2, to),
            r is Ok <==> old(self)@.state is Open,
            r is Err ==> r == Err::<(), PathError>(PathError::InvalidState),
    {
        match self.state {
            TraceState::Open { pos, first } => {
                let ctrl1 = match self.last_ctrl {
                    Some(c) => reflect_through(pos, c),
                    None => pos,
                };
                self.cubic_bezier_to(ctrl1, ctrl2, to)
            },
            TraceState::Idle => Err(PathError::InvalidState),
        }
    }

    /// Appends a run of cubic bezier edges, each starting where the previous
    /// one ended; fails with `InvalidState`, appending nothing, when no
    /// subpath is open.
    pub fn cubic_beziers_to(&mut self, segs: &Vec<CubicTo>) -> (r: Result<(), PathError>)
        requires
            old(self).well_formed(),
        ensures
            final(self).well_formed(),
            final(self)@ == spec_cubics_to(old(self)@, segs@),
            r is Ok <==> old(self)@.state is Open,
            r is Err ==> r == Err::<(), PathError>(PathError::InvalidState),
    {
        match self.state {
            TraceState::Open { .. } => {
                let ghost m0 = self@;
                let mut i: usize = 0;
                proof {
                    assert(segs@.take(0) =~= Seq::<CubicTo>::empty());
                }
                while i < segs.len()
                    invariant
                        0 <= i <= segs@.len(),
                        self.well_formed(),
                        self@ == spec_cubics_to(m0, segs@.take(i as int)),
                        self@.state is Open,
                    decreases segs@.len() - i,
                {
                    let s = segs[i];
                    let r = self.cubic_bezier_to(s.ctrl1, s.ctrl2, s.to);
                    proof {
                        assert(segs@.take(i + 1).drop_last() =~= segs@.take(i as int));
                        assert(segs@.take(i + 1).last() == segs@[i as int]);
                    }
                    i += 1;
                }
                proof {
                    assert(segs@.take(segs@.len() as int) =~= segs@);
                }
                Ok(())
            },
            TraceState::Idle => {
                proof {
                    lemma_cubics_to_idle(self@, segs@);
                }
                Err(PathError::InvalidState)
            },
        }
    }

    /// An SVG-style elliptic arc from the pen to `to`, appended as the cubic
    /// bezier approximation the geometry-math collaborator supplies; an arc
    /// whose geometry is not finite, or whose endpoints nearly coincide,
    /// cannot be converted and degenerates to its chord, a single straight
    /// edge. Fails with `InvalidState`, appending nothing, when no subpath is
    /// open.
    pub fn arc_to(
        &mut self,
        radii: Vector,
        x_rotation: Angle,
        large_arc: bool,
        sweep: bool,
        to: Point,
    ) -> (r: Result<(), PathError>)
        requires
            old(self).well_formed(),
        ensures
            final(self).well_formed(),
            final(self)@ == spec_arc_to(old(self)@, radii, x_rotation, large_arc, sweep, to),
            r is Ok <==> old(self)@.state is Open,
            r is Err ==> r == Err::<(), PathError>(PathError::InvalidState),
    {
        match self.state {
            TraceState::Open { pos, first } => {
                if point_is_finite(&pos) && point_is_finite(&to) && vector_is_finite(&radii)
                    && angle_is_finite(&x_rotation) && chord_is_wide(&pos, &to) {
                    let segs = arc_cubic_segments(pos, radii, x_rotation, large_arc, sweep, to);
                    self.cubic_beziers_to(&segs)
                } else {
                    self.line_to(to)
                }
            },
            TraceState::Idle => Err(PathError::InvalidState),
        }
    }

    /// Ends the open subpath with a closing edge whose `first` is the point
    /// the subpath began at; a no-op when no subpath is open.
    pub fn close(&mut self)
        requires
            old(self).well_formed(),
        ensures
            final(self).well_formed(),
            final(self)@ == spec_close(old(self)@),
    {
        match self.state {
            TraceState::Open { pos, first } => {
                self.push_event(PathEvent::End { last: pos, first, close: true });
                self.last_ctrl = None;
                proof {
                    assert(self@ =~= spec_close(old(self)@));
                }
            },
            TraceState::Idle => {},
        }
    }

    /// Consumes the builder and returns the finalized, immutable path; a
    /// subpath still open is implicitly ended without closing. Never fails.
    pub fn build(self) -> (p: Path)
        requires
            self.well_formed(),
        ensures
            p.well_formed(),
            p@ == spec_build_events(self@),
    {
        let mut b = self;
        match b.state {
            TraceState::Open { pos, first } => {
                b.push_event(PathEvent::End { last: pos, first, close: false });
            },
            TraceState::Idle => {},
        }
        let p = Path { verbs: b.verbs, points: b.points, events: Ghost(b.events@) };
        proof {
            p.lemma_wf_unfold();
        }
        p
    }
}

/// Law: building replays one-to-one. For any points, beginning a subpath at
/// `a`, drawing a line to `b`, a quadratic curve through `c` to `d`, closing
/// and building yields exactly those events, chaining as constructed, with
/// the control point kept untransformed.
pub proof fn lemma_round_trip(a: Point, b: Point, c: Point, d: Point)
    ensures
        ({
            let fresh = BuilderModel {
                events: Seq::<PathEvent>::empty(),
                state: TraceState::Idle,
                last_ctrl: None::<Point>,
            };
            let m = spec_close(spec_quadratic_to(spec_line_to(spec_move_to(fresh, a), b), c, d));
            spec_build_events(m) =~= seq![
                PathEvent::Begin { at: a },
                PathEvent::Line { from: a, to: b },
                PathEvent::Quadratic { from: b, ctrl: c, to: d },
                PathEvent::End { last: d, first: a, close: true },
            ]
        }),
{
}

/// Law: a smooth quadratic continuation immediately after a quadratic curve
/// with control point `ctrl` ending at `p` appends a quadratic edge whose
/// control point is the reflection of `ctrl` about `p`.
pub proof fn lemma_smooth_after_quadratic(m: BuilderModel, ctrl: Point, p: Point, to: Point)
    requires
        m.state is Open,
    ensures
        ({
            let m1 = spec_quadratic_to(m, ctrl, p);
            let m2 = spec_smooth_quadratic_to(m1, to);
            m2.events == m1.events.push(
                PathEvent::Quadratic { from: p, ctrl: reflection_of(p, ctrl), to },
            )
        }),
{
}

/// Law: a smooth cubic continuation immediately after a cubic curve with
/// trailing control point `ctrl2` ending at `p` appends a cubic edge whose
/// first control point is the reflection of `ctrl2` about `p`.
pub proof fn lemma_smooth_after_cubic(
    m: BuilderModel,
    ctrl1: Point,
    ctrl2: Point,
    p: Point,
    c2: Point,
    to: Point,
)
    requires
        m.state is Open,
    ensures
        ({
            let m1 = spec_cubic_to(m, ctrl1, ctrl2, p);
            let m2 = spec_smooth_cubic_to(m1, c2, to);
            m2.events == m1.events.push(
                PathEvent::Cubic { from: p, ctrl1: reflection_of(p, ctrl2), ctrl2: c2, to },
            )
        }),
{
}

/// Law: a smooth quadratic continuation immediately after a straight edge
/// (which clears the trailing control point) uses the pen itself as the
/// control point.
pub proof fn lemma_smooth_after_line(m: BuilderModel, p: Point, to: Point)
    requires
        m.state is Open,
    ensures
        ({
            let m1 = spec_line_to(m, p);
            let m2 = spec_smooth_quadratic_to(m1, to);
            m2.events == m1.events.push(PathEvent::Quadratic { from: p, ctrl: p, to })
        }),
{
}

/// Law: a smooth quadratic continuation immediately after beginning a
/// subpath uses the pen itself as the control point.
pub proof fn lemma_smooth_after_move(m: BuilderModel, p: Point, to: Point)
    ensures
        ({
            let m1 = spec_move_to(m, p);
            let m2 = spec_smooth_quadratic_to(m1, to);
            m2.events == m1.events.push(PathEvent::Quadratic { from: p, ctrl: p, to })
        }),
{
}

/// Law: every drawing operation attempted while no subpath is open changes
/// nothing — a rejected call leaves no partial event appended.
pub proof fn lemma_rejection_changes_nothing(
    m: BuilderModel,
    ctrl1: Point,
    ctrl2: Point,
    to: Point,
    segs: Seq<CubicTo>,
)
    requires
        m.state is Idle,
    ensures
        spec_line_to(m, to) == m,
        spec_quadratic_to(m, ctrl1, to) == m,
        spec_cubic_to(m, ctrl1, ctrl2, to) == m,
        spec_smooth_quadratic_to(m, to) == m,
        spec_smooth_cubic_to(m, ctrl2, to) == m,
        spec_cubics_to(m, segs) == m,
        spec_close(m) == m,
{
    lemma_cubics_to_idle(m, segs);
}

/// A run of cubic edges appended while no subpath is open changes nothing:
/// every step is rejected.
proof fn lemma_cubics_to_idle(m: BuilderModel, segs: Seq<CubicTo>)
    requires
        m.state is Idle,
    ensures
        spec_cubics_to(m, segs) == m,
    decreases segs.len(),
{
    if segs.len() > 0 {
        lemma_cubics_to_idle(m, segs.drop_last());
    }
}

} // verus!

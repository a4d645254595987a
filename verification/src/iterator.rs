//! Lazy, pull-based replay of a path's encoding: a raw event iterator, and a
//! flattening iterator that expands curves into line segments within a
//! caller-supplied tolerance.

use vstd::prelude::*;
use lyon_geom::math::Point;
use lyon_geom::math::Vector;
use crate::geometry::cubic_flattening_of;
use crate::geometry::flatten_cubic;
use crate::geometry::flatten_quadratic;
use crate::geometry::quad_flattening_of;
use crate::geometry::valid_tolerance;
use crate::events::PathEvent;
use crate::events::TraceState;
use crate::events::Verb;
use crate::events::event_points;
use crate::events::event_verb;
use crate::events::lemma_points_of_push;
use crate::events::lemma_points_of_split;
use crate::events::lemma_trace_prefix;
use crate::events::lemma_trace_push;
use crate::events::points_of;
use crate::events::trace;
use crate::events::trace_step;
use crate::path::Path;

verus! {

/// The raw event iterator: replays the verb buffer against the point buffer
/// in order, holding a cursor and a non-owning view of the path's buffers.
/// It never mutates the path; re-iteration takes a fresh iterator.
pub struct Iter<'a> {
    path: &'a Path,
    vi: usize,
    pi: usize,
    state: TraceState,
}

impl<'a> Iter<'a> {
    /// The event sequence being replayed.
    pub closed spec fn events(self) -> Seq<PathEvent> {
        self.path@
    }

    /// How many events have been handed out so far.
    pub closed spec fn index(self) -> int {
        self.vi as int
    }

    /// The cursor stands at an event boundary: the events already handed out
    /// replay to the recorded pen state, and the point cursor stands at the
    /// matching offset of the point buffer.
    pub closed spec fn well_formed(self) -> bool {
        &&& self.path.well_formed()
        &&& self.vi as int <= self.path@.len()
        &&& trace(TraceState::Idle, self.path@.take(self.vi as int)) == Some(self.state)
        &&& self.pi as int == points_of(self.path@.take(self.vi as int)).len()
    }

    pub(crate) fn new(path: &'a Path) -> (it: Iter<'a>)
        requires
            path.well_formed(),
        ensures
            it.well_formed(),
            it.events() == path@,
            it.index() == 0,
    {
        let it = Iter { path, vi: 0, pi: 0, state: TraceState::Idle };
        proof {
            path.lemma_wf_unfold();
            assert(path@.take(0) =~= Seq::<PathEvent>::empty());
        }
        it
    }

    /// The next event of the path, or `None` once all events were handed out:
    /// exactly the event sequence the path stands for, in order.
    pub fn next(&mut self) -> (r: Option<PathEvent>)
        requires
            old(self).well_formed(),
        ensures
            final(self).well_formed(),
            final(self).events() == old(self).events(),
            ({
                let es = old(self).events();
                let k = old(self).index();
                if k < es.len() {
                    r == Some(es[k]) && final(self).index() == k + 1
                } else {
                    r == None::<PathEvent> && final(self).index() == k
                }
            }),
    {
        let ghost es = self.path@;
        let ghost k = self.vi as int;
        proof {
            self.path.lemma_wf_unfold();
        }
        if self.vi >= self.path.verbs.len() {
            return None;
        }
        proof {
            lemma_trace_prefix(TraceState::Idle, es, k + 1);
            assert(es.take(k + 1) =~= es.take(k).push(es[k]));
            lemma_trace_push(TraceState::Idle, es.take(k), es[k]);
            lemma_points_of_push(es.take(k), es[k]);
            lemma_points_of_split(es, k);
            assert(es.skip(k).first() == es[k]);
            assert(es.skip(k).drop_first() =~= es.skip(k + 1));
            assert(points_of(es.skip(k)) == event_points(es[k]) + points_of(es.skip(k + 1)));
            assert(self.path.verbs@[k] == event_verb(es[k]));
        }
        let verb = self.path.verbs[self.vi];
        let num_points = self.path.points.len();
        proof {
            assert(num_points == points_of(es).len());
            assert(self.path.points@ == points_of(es));
            assert(self.pi as int == points_of(es.take(k)).len());
            assert(self.path.points@.len() == self.pi as int + points_of(es.skip(k)).len());
            assert(points_of(es.skip(k)).len() == event_points(es[k]).len() + points_of(
                es.skip(k + 1),
            ).len());
        }
        match verb {
            Verb::Begin => {
                proof {
                    assert(event_verb(es[k]) == Verb::Begin);
                    assert(es[k] matches PathEvent::Begin { .. });
                    assert(event_points(es[k]).len() == 1);
                }
                let at = self.path.points[self.pi];
                self.vi += 1;
                self.pi += 1;
                self.state = TraceState::Open { pos: at, first: at };
                Some(PathEvent::Begin { at })
            },
            Verb::LineTo => {
                proof {
                    assert(es[k] matches PathEvent::Line { .. });
                    assert(event_points(es[k]).len() == 1);
                }
                let to = self.path.points[self.pi];
                match self.state {
                    TraceState::Open { pos, first } => {
                        self.vi += 1;
                        self.pi += 1;
                        self.state = TraceState::Open { pos: to, first };
                        Some(PathEvent::Line { from: pos, to })
                    },
                    TraceState::Idle => {
                        proof {
                            assert(false);
                        }
                        None
                    },
                }
            },
            Verb::QuadraticTo => {
                proof {
                    assert(es[k] matches PathEvent::Quadratic { .. });
                    assert(event_points(es[k]).len() == 2);
                }
                let ctrl = self.path.points[self.pi];
                let to = self.path.points[self.pi + 1];
                match self.state {
                    TraceState::Open { pos, first } => {
                        self.vi += 1;
                        self.pi += 2;
                        self.state = TraceState::Open { pos: to, first };
                        Some(PathEvent::Quadratic { from: pos, ctrl, to })
                    },
                    TraceState::Idle => {
                        proof {
                            assert(false);
                        }
                        None
                    },
                }
            },
            Verb::CubicTo => {
                proof {
                    assert(es[k] matches PathEvent::Cubic { .. });
                    assert(event_points(es[k]).len() == 3);
                }
                let ctrl1 = self.path.points[self.pi];
                let ctrl2 = self.path.points[self.pi + 1];
                let to = self.path.points[self.pi + 2];
                match self.state {
                    TraceState::Open { pos, first } => {
                        self.vi += 1;
                        self.pi += 3;
                        self.state = TraceState::Open { pos: to, first };
                        Some(PathEvent::Cubic { from: pos, ctrl1, ctrl2, to })
                    },
                    TraceState::Idle => {
                        proof {
                            assert(false);
                        }
                        None
                    },
                }
            },
            Verb::Close => {
                match self.state {
                    TraceState::Open { pos, first } => {
                        self.vi += 1;
                        self.state = TraceState::Idle;
                        Some(PathEvent::End { last: pos, first, close: true })
                    },
                    TraceState::Idle => {
                        proof {
                            assert(false);
                        }
                        None
                    },
                }
            },
            Verb::End => {
                match self.state {
                    TraceState::Open { pos, first } => {
                        self.vi += 1;
                        self.state = TraceState::Idle;
                        Some(PathEvent::End { last: pos, first, close: false })
                    },
                    TraceState::Idle => {
                        proof {
                            assert(false);
                        }
                        None
                    },
                }
            },
        }
    }
}


/// The flattening iterator: wraps the raw iterator and a tolerance, hands
/// `Begin`, `Line` and `End` events through unchanged, and expands each
/// `Quadratic` or `Cubic` event into the nonempty run of `Line` events
/// through exactly the points the geometry-math collaborator flattens the
/// curve into, ending exactly at the curve's endpoint.
pub struct Flattened<'a> {
    inner: Iter<'a>,
    tolerance: Vector,
    pending: Vec<Point>,
    pj: usize,
    state: TraceState,
}

impl<'a> Flattened<'a> {
    /// The source event sequence being flattened.
    pub closed spec fn events(self) -> Seq<PathEvent> {
        self.inner.events()
    }

    /// How many source events have been consumed so far.
    pub closed spec fn src_index(self) -> int {
        self.inner.index()
    }

    /// Whether the iterator stands in the middle of a curve's line run.
    pub closed spec fn mid_curve(self) -> bool {
        self.pj < self.pending@.len()
    }

    /// The run of points the current curve is being expanded through.
    pub closed spec fn pending_run(self) -> Seq<Point> {
        self.pending@
    }

    /// How many of the current run's points have been emitted.
    pub closed spec fn run_pos(self) -> int {
        self.pj as int
    }

    /// Where the output stream has left the pen.
    pub closed spec fn out_state(self) -> TraceState {
        self.state
    }

    /// The tolerance the iterator was built with.
    pub closed spec fn tolerance_vec(self) -> Vector {
        self.tolerance
    }

    /// The output side stays in lockstep with the source: between curves the
    /// output pen state is exactly the source pen state; inside a curve's
    /// line run the pending points end at the curve's endpoint, where the
    /// source pen already stands.
    pub closed spec fn well_formed(self) -> bool {
        &&& self.inner.well_formed()
        &&& valid_tolerance(self.tolerance)
        &&& self.pj as int <= self.pending@.len()
        &&& if self.pj < self.pending@.len() {
            match (self.state, self.inner.state) {
                (
                    TraceState::Open { pos: _, first },
                    TraceState::Open { pos: spos, first: sfirst },
                ) => first == sfirst && self.pending@.last() == spos,
                _ => false,
            }
        } else {
            self.state == self.inner.state
        }
    }

    pub(crate) fn new(path: &'a Path, tolerance: Vector) -> (it: Flattened<'a>)
        requires
            path.well_formed(),
            valid_tolerance(tolerance),
        ensures
            it.well_formed(),
            it.events() == path@,
            it.src_index() == 0,
            !it.mid_curve(),
            it.out_state() == TraceState::Idle,
            it.tolerance_vec() == tolerance,
    {
        Flattened {
            inner: Iter::new(path),
            tolerance,
            pending: Vec::new(),
            pj: 0,
            state: TraceState::Idle,
        }
    }

    /// The next flattened event: never a curve; the output stream chains
    /// exactly as a directly built path would; non-curve source events pass
    /// through unchanged (flattening a line is the identity); and between
    /// curve runs the output pen state equals the source pen state.
    pub fn next(&mut self) -> (r: Option<PathEvent>)
        requires
            old(self).well_formed(),
        ensures
            final(self).well_formed(),
            final(self).events() == old(self).events(),
            final(self).tolerance_vec() == old(self).tolerance_vec(),
            r matches Some(e) ==> !(e is Quadratic) && !(e is Cubic),
            r matches Some(e) ==> trace_step(old(self).out_state(), e) == Some(
                final(self).out_state(),
            ),
            ({
                let es = old(self).events();
                let k = old(self).src_index();
                let mc = old(self).mid_curve();
                let passthrough = !mc && k < es.len() && !(es[k] is Quadratic) && !(es[k]
                    is Cubic);
                let curve = !mc && k < es.len() && (es[k] is Quadratic || es[k] is Cubic);
                &&& passthrough ==> {
                    &&& r == Some(es[k])
                    &&& final(self).src_index() == k + 1
                    &&& !final(self).mid_curve()
                }
                &&& curve ==> final(self).src_index() == k + 1
                &&& curve ==> (es[k] matches PathEvent::Quadratic { from, ctrl, to } ==> ({
                    let run = quad_flattening_of(from, ctrl, to, old(self).tolerance_vec());
                    &&& final(self).pending_run() == run
                    &&& final(self).run_pos() == 1
                    &&& old(self).out_state() matches TraceState::Open { pos, first } && r == Some(
                        PathEvent::Line { from: pos, to: run[0] },
                    )
                }))
                &&& curve ==> (es[k] matches PathEvent::Cubic { from, ctrl1, ctrl2, to } ==> ({
                    let run = cubic_flattening_of(from, ctrl1, ctrl2, to, old(self).tolerance_vec());
                    &&& final(self).pending_run() == run
                    &&& final(self).run_pos() == 1
                    &&& old(self).out_state() matches TraceState::Open { pos, first } && r == Some(
                        PathEvent::Line { from: pos, to: run[0] },
                    )
                }))
                &&& mc ==> ({
                    &&& final(self).pending_run() == old(self).pending_run()
                    &&& final(self).run_pos() == old(self).run_pos() + 1
                    &&& old(self).out_state() matches TraceState::Open { pos, first } && r == Some(
                        PathEvent::Line {
                            from: pos,
                            to: old(self).pending_run()[old(self).run_pos()],
                        },
                    )
                    &&& final(self).src_index() == k
                })
            }),
            final(self).mid_curve() <==> final(self).run_pos() < final(self).pending_run().len(),
            r is None <==> (old(self).src_index() == old(self).events().len() && !old(
                self,
            ).mid_curve()),
            !final(self).mid_curve() ==> Some(final(self).out_state()) == trace(
                TraceState::Idle,
                final(self).events().take(final(self).src_index()),
            ),
    {
        let ghost es = self.inner.events();
        let ghost k = self.inner.index();
        if self.pj < self.pending.len() {
            let t = self.pending[self.pj];
            self.pj += 1;
            match self.state {
                TraceState::Open { pos, first } => {
                    self.state = TraceState::Open { pos: t, first };
                    proof {
                        if self.pj as int == self.pending@.len() {
                            assert(t == self.pending@.last());
                        }
                    }
                    Some(PathEvent::Line { from: pos, to: t })
                },
                TraceState::Idle => {
                    proof {
                        assert(false);
                    }
                    None
                },
            }
        } else {
            let e = self.inner.next();
            proof {
                self.inner.path.lemma_wf_unfold();
                if k < es.len() {
                    lemma_trace_prefix(TraceState::Idle, es, k + 1);
                    assert(es.take(k + 1) =~= es.take(k).push(es[k]));
                    lemma_trace_push(TraceState::Idle, es.take(k), es[k]);
                }
            }
            match e {
                None => None,
                Some(PathEvent::Begin { at }) => {
                    self.state = TraceState::Open { pos: at, first: at };
                    Some(PathEvent::Begin { at })
                },
                Some(PathEvent::Line { from, to }) => {
                    match self.state {
                        TraceState::Open { pos: _, first } => {
                            self.state = TraceState::Open { pos: to, first };
                            Some(PathEvent::Line { from, to })
                        },
                        TraceState::Idle => {
                            proof {
                                assert(false);
                            }
                            None
                        },
                    }
                },
                Some(PathEvent::End { last, first, close }) => {
                    self.state = TraceState::Idle;
                    Some(PathEvent::End { last, first, close })
                },
                Some(PathEvent::Quadratic { from, ctrl, to }) => {
                    let pts = flatten_quadratic(from, ctrl, to, self.tolerance);
                    let t0 = pts[0];
                    self.pending = pts;
                    self.pj = 1;
                    match self.state {
                        TraceState::Open { pos, first } => {
                            self.state = TraceState::Open { pos: t0, first };
                            proof {
                                assert(self.pending@.last() == to);
                            }
                            Some(PathEvent::Line { from: pos, to: t0 })
                        },
                        TraceState::Idle => {
                            proof {
                                assert(false);
                            }
                            None
                        },
                    }
                },
                Some(PathEvent::Cubic { from, ctrl1, ctrl2, to }) => {
                    let pts = flatten_cubic(from, ctrl1, ctrl2, to, self.tolerance);
                    let t0 = pts[0];
                    self.pending = pts;
                    self.pj = 1;
                    match self.state {
                        TraceState::Open { pos, first } => {
                            self.state = TraceState::Open { pos: t0, first };
                            Some(PathEvent::Line { from: pos, to: t0 })
                        },
                        TraceState::Idle => {
                            proof {
                                assert(false);
                            }
                            None
                        },
                    }
                },
            }
        }
    }
}

} // verus!

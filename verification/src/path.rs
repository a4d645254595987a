//! The immutable path store: a compact, append-only-at-construction buffer of
//! verbs plus their associated points, exposed for bounds-checked random
//! access and for sequential replay through the iterators.

use vstd::prelude::*;
use lyon_geom::math::Point;
use lyon_geom::math::Vector;
use crate::PathError;
use crate::builder::PathBuilder;
use crate::events::PathEvent;
use crate::events::Verb;
use crate::events::complete;
use crate::events::points_of;
use crate::events::verbs_of;
use crate::events::TraceState;
use crate::geometry::tolerance_is_normal;
use crate::geometry::tolerance_is_sign_positive;
use crate::geometry::valid_tolerance;
use crate::iterator::Flattened;
use crate::iterator::Iter;

verus! {

/// An immutable path: the verb buffer replayed against the point buffer
/// reconstructs exactly the event sequence the path stands for (its view).
/// Paths are compared and shown by value through [`Path::all_events`]: the
/// ghost view the struct carries admits no `Debug` or `PartialEq` derive, and
/// a hand-written equality over the stored points would rest on an outside
/// floating-point comparison the verifier cannot be told the truth about.
pub struct Path {
    pub(crate) verbs: Vec<Verb>,
    pub(crate) points: Vec<Point>,
    pub(crate) events: Ghost<Seq<PathEvent>>,
}

impl View for Path {
    type V = Seq<PathEvent>;

    closed spec fn view(&self) -> Seq<PathEvent> {
        self.events@
    }
}

impl Path {
    /// The stored buffers encode exactly the event sequence, and that
    /// sequence is complete: every subpath begun is ended, and every event
    /// starts where the previous one left the pen.
    pub closed spec fn well_formed(&self) -> bool {
        &&& complete(self@)
        &&& self.verbs@ == verbs_of(self@)
        &&& self.points@ == points_of(self@)
    }

    /// Law: a well-formed path's event sequence is complete — it replays from
    /// rest to rest, so every bracketing, chaining and pairing law of
    /// [`crate::events`] applies to it.
    pub proof fn lemma_complete(&self)
        requires
            self.well_formed(),
        ensures
            complete(self@),
    {
    }

    /// What a path's well-formedness and view mean in terms of its buffers,
    /// for the crate's other modules.
    pub(crate) proof fn lemma_wf_unfold(&self)
        ensures
            self@ == self.events@,
            self.well_formed() <==> {
                &&& complete(self@)
                &&& self.verbs@ == verbs_of(self@)
                &&& self.points@ == points_of(self@)
            },
    {
    }

    /// The only construction entry point: a fresh builder.
    pub fn builder() -> (b: PathBuilder)
        ensures
            b.well_formed(),
            b@ == (crate::builder::BuilderModel {
                events: Seq::<PathEvent>::empty(),
                state: crate::events::TraceState::Idle,
                last_ctrl: None::<Point>,
            }),
    {
        PathBuilder::new()
    }

    /// How many points the point buffer stores.
    pub fn num_points(&self) -> (n: usize)
        requires
            self.well_formed(),
        ensures
            n == points_of(self@).len(),
    {
        self.points.len()
    }

    /// Bounds-checked random access into the point buffer; an out-of-range
    /// index fails with `IndexOutOfRange` rather than reading garbage.
    pub fn point(&self, index: usize) -> (r: Result<Point, PathError>)
        requires
            self.well_formed(),
        ensures
            index < points_of(self@).len() ==> r == Ok::<Point, PathError>(
                points_of(self@)[index as int],
            ),
            index >= points_of(self@).len() ==> r == Err::<Point, PathError>(
                PathError::IndexOutOfRange,
            ),
    {
        if index < self.points.len() {
            Ok(self.points[index])
        } else {
            Err(PathError::IndexOutOfRange)
        }
    }

    /// A fresh raw event iterator over this path, positioned before the first
    /// event.
    pub fn iter<'a>(&'a self) -> (it: Iter<'a>)
        requires
            self.well_formed(),
        ensures
            it.well_formed(),
            it.events() == self@,
            it.index() == 0,
    {
        Iter::new(self)
    }

    /// A flattening iterator over this path: curve events are expanded into
    /// line runs within `tolerance` (a positive, normal scalar carried in the
    /// vector's `x` component). Returns `Some` exactly when the tolerance is
    /// usable.
    pub fn flattened<'a>(&'a self, tolerance: Vector) -> (r: Option<Flattened<'a>>)
        requires
            self.well_formed(),
        ensures
            r is Some <==> valid_tolerance(tolerance),
            r matches Some(it) ==> {
                &&& it.well_formed()
                &&& it.events() == self@
                &&& it.src_index() == 0
                &&& !it.mid_curve()
                &&& it.out_state() == TraceState::Idle
                &&& it.tolerance_vec() == tolerance
            },
    {
        if tolerance_is_normal(&tolerance) && tolerance_is_sign_positive(&tolerance) {
            Some(Flattened::new(self, tolerance))
        } else {
            None
        }
    }

    /// Replays the whole path: exactly its event sequence, in order. Any two
    /// calls return the same events — iteration does not depend on anything
    /// but the immutable store.
    pub fn all_events(&self) -> (r: Vec<PathEvent>)
        requires
            self.well_formed(),
        ensures
            r@ == self@,
    {
        let mut it = self.iter();
        let mut out: Vec<PathEvent> = Vec::new();
        proof {
            assert(out@ =~= self@.take(0));
        }
        let mut done = false;
        while !done
            invariant
                it.well_formed(),
                it.events() == self@,
                0 <= it.index() <= self@.len(),
                out@ == self@.take(it.index()),
                done ==> it.index() == self@.len(),
            decreases self@.len() - it.index() + (if done {
                0int
            } else {
                1int
            }),
        {
            match it.next() {
                Some(e) => {
                    out.push(e);
                    proof {
                        assert(out@ =~= self@.take(it.index()));
                    }
                },
                None => {
                    done = true;
                },
            }
        }
        proof {
            assert(self@.take(self@.len() as int) =~= self@);
        }
        out
    }
}

} // verus!

//! The trusted boundary to the geometry-math collaborator.
//!
//! All numeric curve work — reflecting a control point, flattening a bezier
//! curve within a tolerance, approximating an arc with cubic curves — is done
//! by `lyon_geom` (and the `euclid` types it builds on). This module declares
//! those types to the verifier and wraps the calls the rest of the crate
//! relies on; everything else in the crate is verified against the contracts
//! stated here.

use vstd::prelude::*;
use lyon_geom::math::Angle;
use lyon_geom::math::Point;
use lyon_geom::math::Vector;
use crate::events::CubicTo;

verus! {

#[verifier::external_type_specification]
#[verifier::external_body]
pub struct ExUnknownUnit(lyon_geom::euclid::UnknownUnit);

#[verifier::external_type_specification]
#[verifier::external_body]
#[verifier::reject_recursive_types(T)]
#[verifier::reject_recursive_types(U)]
pub struct ExPoint2D<T, U>(lyon_geom::euclid::Point2D<T, U>);

#[verifier::external_type_specification]
#[verifier::external_body]
#[verifier::reject_recursive_types(T)]
#[verifier::reject_recursive_types(U)]
pub struct ExVector2D<T, U>(lyon_geom::euclid::Vector2D<T, U>);

#[verifier::external_type_specification]
#[verifier::external_body]
#[verifier::reject_recursive_types(T)]
pub struct ExAngle<T>(lyon_geom::euclid::Angle<T>);

/// The mirror image of `ctrl` through `anchor`: the implied leading control
/// point of a smooth curve continuation. The coordinates are a function of
/// the two arguments alone.
pub uninterp spec fn reflection_of(anchor: Point, ctrl: Point) -> Point;

/// Whether the `x` component of `v` is a normal floating-point number
/// (neither zero, subnormal, infinite nor not-a-number). A function of `v`
/// alone.
pub uninterp spec fn x_is_normal(v: Vector) -> bool;

/// Whether the `x` component of `v` has a positive sign bit. A function of
/// `v` alone.
pub uninterp spec fn x_is_sign_positive(v: Vector) -> bool;

/// Whether both coordinates of a point are finite (neither infinite nor
/// not-a-number). A function of `p` alone.
pub uninterp spec fn finite_point(p: Point) -> bool;

/// Whether both components of a vector are finite. A function of `v` alone.
pub uninterp spec fn finite_vector(v: Vector) -> bool;

/// Whether an angle's radians value is finite. A function of `a` alone.
pub uninterp spec fn finite_angle(a: Angle) -> bool;

/// Whether the chord from `from` to `to` has a component larger than the
/// geometry scalar's epsilon. A function of the two points alone.
pub uninterp spec fn wide_chord(from: Point, to: Point) -> bool;

/// The run of points a quadratic bezier segment is flattened into for a given
/// tolerance: `lyon_geom`'s subdivision, capped and completed with the exact
/// endpoint as [`flatten_quadratic`] describes. A function of the four
/// arguments alone.
pub uninterp spec fn quad_flattening_of(from: Point, ctrl: Point, to: Point, tolerance: Vector) -> Seq<Point>;

/// The run of points a cubic bezier segment is flattened into for a given
/// tolerance: `lyon_geom`'s subdivision, capped and completed with the exact
/// endpoint as [`flatten_cubic`] describes. A function of the five arguments
/// alone.
pub uninterp spec fn cubic_flattening_of(
    from: Point,
    ctrl1: Point,
    ctrl2: Point,
    to: Point,
    tolerance: Vector,
) -> Seq<Point>;

/// The sequence of cubic bezier commands `lyon_geom` approximates an SVG arc
/// with. A function of the six arguments alone.
pub uninterp spec fn arc_segments_of(
    from: Point,
    radii: Vector,
    x_rotation: Angle,
    large_arc: bool,
    sweep: bool,
    to: Point,
) -> Seq<CubicTo>;

/// A usable flattening tolerance: a positive, normal scalar. The tolerance
/// value is carried in the vector's `x` component.
pub open spec fn valid_tolerance(v: Vector) -> bool {
    x_is_normal(v) && x_is_sign_positive(v)
}

/// Relies on euclid's point and vector arithmetic: `anchor + (anchor - ctrl)`
/// is the reflection of `ctrl` about `anchor`.
#[verifier::external_body]
pub(crate) fn reflect_through(anchor: Point, ctrl: Point) -> (r: Point)
    ensures
        r == reflection_of(anchor, ctrl),
{
    anchor + (anchor - ctrl)
}

/// Relies on the standard library's `is_normal` for the vector's scalar type.
#[verifier::external_body]
pub(crate) fn tolerance_is_normal(v: &Vector) -> (r: bool)
    ensures
        r == x_is_normal(*v),
{
    v.x.is_normal()
}

/// Relies on the standard library's `is_sign_positive` for the vector's
/// scalar type.
#[verifier::external_body]
pub(crate) fn tolerance_is_sign_positive(v: &Vector) -> (r: bool)
    ensures
        r == x_is_sign_positive(*v),
{
    v.x.is_sign_positive()
}

/// Relies on the standard library's `is_finite`, applied to each coordinate.
#[verifier::external_body]
pub(crate) fn point_is_finite(p: &Point) -> (r: bool)
    ensures
        r == finite_point(*p),
{
    p.x.is_finite() && p.y.is_finite()
}

/// Relies on the standard library's `is_finite`, applied to each component.
#[verifier::external_body]
pub(crate) fn vector_is_finite(v: &Vector) -> (r: bool)
    ensures
        r == finite_vector(*v),
{
    v.x.is_finite() && v.y.is_finite()
}

/// Relies on the standard library's `is_finite`, applied to the radians.
#[verifier::external_body]
pub(crate) fn angle_is_finite(a: &Angle) -> (r: bool)
    ensures
        r == finite_angle(*a),
{
    a.radians.is_finite()
}

/// Relies on euclid's point subtraction, the standard library's `abs`, and
/// lyon_geom's `Scalar::EPSILON`: whether the chord between the two points
/// has a component larger than the scalar epsilon.
#[verifier::external_body]
pub(crate) fn chord_is_wide(from: &Point, to: &Point) -> (r: bool)
    ensures
        r == wide_chord(*from, *to),
{
    let v = *to - *from;
    v.x.abs() > lyon_geom::Scalar::EPSILON || v.y.abs() > lyon_geom::Scalar::EPSILON
}

/// How many subdivision steps one curve's flattening may take before its run
/// is cut short and completed with the curve's exact endpoint. On ordinary
/// geometry a run is far shorter; the cap only cuts degenerate or extreme
/// geometry whose subdivision makes no progress.
pub const MAX_FLATTENING_STEPS: usize = 4096;

/// Relies on lyon_geom's `QuadraticBezierSegment::flattened` iterator: each
/// step does a bounded amount of work and either subdivides the curve once
/// or finishes at the segment's exact `to` endpoint (splitting keeps `to`
/// untouched), and the first step always yields a point. The run is capped at
/// `MAX_FLATTENING_STEPS` steps, so the call returns on every input; a run
/// that reaches the cap is completed with the exact endpoint. The result is a
/// function of the arguments alone. The tolerance must be positive: the
/// iterator's constructor asserts that.
#[verifier::external_body]
pub(crate) fn flatten_quadratic(from: Point, ctrl: Point, to: Point, tolerance: Vector) -> (r: Vec<
    Point,
>)
    requires
        valid_tolerance(tolerance),
    ensures
        r@ == quad_flattening_of(from, ctrl, to, tolerance),
        r@.len() >= 1,
        r@.last() == to,
{
    let segment = lyon_geom::QuadraticBezierSegment { from, ctrl, to };
    let mut out: Vec<Point> = segment.flattened(tolerance.x).take(MAX_FLATTENING_STEPS).collect();
    if out.len() == MAX_FLATTENING_STEPS {
        out.push(to);
    }
    out
}

/// Relies on lyon_geom's cubic `Flattened` iterator: each step does a bounded
/// amount of work and either subdivides the curve once or finishes at the
/// segment's exact `to` endpoint (splitting keeps `to` untouched), and the
/// first step always yields a point. The run is capped at
/// `MAX_FLATTENING_STEPS` steps, so the call returns on every input; a run
/// that reaches the cap is completed with the exact endpoint. The result is a
/// function of the arguments alone.
#[verifier::external_body]
pub(crate) fn flatten_cubic(
    from: Point,
    ctrl1: Point,
    ctrl2: Point,
    to: Point,
    tolerance: Vector,
) -> (r: Vec<Point>)
    requires
        valid_tolerance(tolerance),
    ensures
        r@ == cubic_flattening_of(from, ctrl1, ctrl2, to, tolerance),
        r@.len() >= 1,
        r@.last() == to,
{
    let segment = lyon_geom::CubicBezierSegment { from, ctrl1, ctrl2, to };
    let mut out: Vec<Point> = segment.flattened(tolerance.x).take(MAX_FLATTENING_STEPS).collect();
    if out.len() == MAX_FLATTENING_STEPS {
        out.push(to);
    }
    out
}

/// Relies on lyon_geom's `SvgArc::for_each_cubic_bezier`: it approximates the
/// arc with a finite (possibly empty, for a degenerate sweep) sequence of
/// cubic bezier segments that is a function of the arguments alone; only each
/// segment's control points and endpoint are kept, the builder re-chains the
/// start points itself. Finite inputs are required because the conversion
/// asserts, in debug builds, that no input coordinate is not-a-number; a wide
/// chord is required because the conversion also asserts against a chord-radii
/// product that a nearly coincident endpoint pair underflows to zero.
#[verifier::external_body]
pub(crate) fn arc_cubic_segments(
    from: Point,
    radii: Vector,
    x_rotation: Angle,
    large_arc: bool,
    sweep: bool,
    to: Point,
) -> (r: Vec<CubicTo>)
    requires
        finite_point(from),
        finite_point(to),
        finite_vector(radii),
        finite_angle(x_rotation),
        wide_chord(from, to),
    ensures
        r@ == arc_segments_of(from, radii, x_rotation, large_arc, sweep, to),
{
    let arc = lyon_geom::SvgArc {
        from,
        to,
        radii,
        x_rotation,
        flags: lyon_geom::ArcFlags { large_arc, sweep },
    };
    let mut out = Vec::new();
    arc.for_each_cubic_bezier(
        &mut |c| out.push(CubicTo { ctrl1: c.ctrl1, ctrl2: c.ctrl2, to: c.to }),
    );
    out
}

} // verus!

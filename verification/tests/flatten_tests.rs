use lyon_geom::math::point;
use lyon_geom::math::vector;
use lyon_geom::math::Angle;
use lyon_geom::math::Point;
use lyon_path::PathError;
use lyon_path::events::PathEvent;
use lyon_path::path::Path;

fn collect_flattened(path: &Path, tolerance: f32) -> Vec<PathEvent> {
    let mut it = path.flattened(vector(tolerance, 0.0)).unwrap();
    let mut out = Vec::new();
    while let Some(e) = it.next() {
        out.push(e);
    }
    out
}

#[test]
fn flattening_a_line_only_path_is_the_identity() {
    let mut builder = Path::builder();
    builder.move_to(point(0.0, 0.0));
    builder.line_to(point(1.0, 2.0)).unwrap();
    builder.line_to(point(2.0, 0.0)).unwrap();
    builder.close();
    let path = builder.build();
    assert_eq!(collect_flattened(&path, 0.01), path.all_events());
}

#[test]
fn invalid_tolerances_are_refused() {
    let mut builder = Path::builder();
    builder.move_to(point(0.0, 0.0));
    let path = builder.build();
    assert!(path.flattened(vector(0.0, 0.0)).is_none());
    assert!(path.flattened(vector(-0.5, 0.0)).is_none());
    assert!(path.flattened(vector(f32::NAN, 0.0)).is_none());
    assert!(path.flattened(vector(f32::INFINITY, 0.0)).is_none());
    assert!(path.flattened(vector(0.01, 0.0)).is_some());
}

#[test]
fn flattened_quadratic_becomes_a_chained_line_run() {
    let mut builder = Path::builder();
    builder.move_to(point(0.0, 0.0));
    builder.quadratic_bezier_to(point(1.0, 2.0), point(2.0, 0.0)).unwrap();
    builder.close();
    let path = builder.build();
    let events = collect_flattened(&path, 0.01);
    assert_eq!(events[0], PathEvent::Begin { at: point(0.0, 0.0) });
    let n = events.len();
    assert!(n >= 3);
    // everything between Begin and End is a Line, chaining from the curve's
    // start to exactly its endpoint
    let mut pos = point(0.0, 0.0);
    for e in &events[1..n - 1] {
        match e {
            PathEvent::Line { from, to } => {
                assert_eq!(*from, pos);
                pos = *to;
            }
            other => panic!("unexpected event in flattened run: {:?}", other),
        }
    }
    assert_eq!(pos, point(2.0, 0.0));
    assert_eq!(
        events[n - 1],
        PathEvent::End { last: point(2.0, 0.0), first: point(0.0, 0.0), close: true }
    );
}

fn quadratic_at(from: Point, ctrl: Point, to: Point, t: f32) -> Point {
    let u = 1.0 - t;
    point(
        u * u * from.x + 2.0 * u * t * ctrl.x + t * t * to.x,
        u * u * from.y + 2.0 * u * t * ctrl.y + t * t * to.y,
    )
}

fn max_deviation_from_curve(events: &[PathEvent], from: Point, ctrl: Point, to: Point) -> f32 {
    // sample each produced line segment and measure how far the samples lie
    // from the true curve (distance to a dense sampling of the curve)
    let mut curve_samples = Vec::new();
    for i in 0..=1000 {
        curve_samples.push(quadratic_at(from, ctrl, to, i as f32 / 1000.0));
    }
    let mut max_dev: f32 = 0.0;
    for e in events {
        if let PathEvent::Line { from: a, to: b } = e {
            for j in 0..=10 {
                let t = j as f32 / 10.0;
                let s: Point = point(a.x + (b.x - a.x) * t, a.y + (b.y - a.y) * t);
                let mut best = f32::INFINITY;
                for c in &curve_samples {
                    let d = ((s.x - c.x).powi(2) + (s.y - c.y).powi(2)).sqrt();
                    if d < best {
                        best = d;
                    }
                }
                if best > max_dev {
                    max_dev = best;
                }
            }
        }
    }
    max_dev
}

#[test]
fn flattening_respects_and_refines_with_tolerance() {
    let from = point(0.0, 0.0);
    let ctrl = point(1.0, 2.0);
    let to = point(2.0, 0.0);
    let mut builder = Path::builder();
    builder.move_to(from);
    builder.quadratic_bezier_to(ctrl, to).unwrap();
    let path = builder.build();

    let coarse = collect_flattened(&path, 0.5);
    let fine = collect_flattened(&path, 0.01);
    // a finer tolerance produces at least as many segments
    assert!(fine.len() >= coarse.len());

    let dev_coarse = max_deviation_from_curve(&coarse, from, ctrl, to);
    let dev_fine = max_deviation_from_curve(&fine, from, ctrl, to);
    // every sampled point of each polyline lies within its tolerance of the
    // curve (with a little slack for the measurement itself)
    assert!(dev_coarse <= 0.5 + 0.01);
    assert!(dev_fine <= 0.01 + 0.01);
    // refinement: decreasing the tolerance does not increase the deviation
    assert!(dev_fine <= dev_coarse + 1e-6);
}

#[test]
fn flattened_cubic_ends_exactly_at_the_endpoint() {
    let mut builder = Path::builder();
    builder.move_to(point(0.0, 0.0));
    builder
        .cubic_bezier_to(point(0.0, 2.0), point(3.0, 2.0), point(3.0, 0.0))
        .unwrap();
    let path = builder.build();
    let events = collect_flattened(&path, 0.05);
    let n = events.len();
    match events[n - 2] {
        PathEvent::Line { to, .. } => assert_eq!(to, point(3.0, 0.0)),
        ref other => panic!("expected a line, got {:?}", other),
    }
    assert_eq!(
        events[n - 1],
        PathEvent::End { last: point(3.0, 0.0), first: point(0.0, 0.0), close: false }
    );
}

#[test]
fn arc_to_appends_chained_cubics() {
    let mut builder = Path::builder();
    builder.move_to(point(0.0, 0.0));
    builder
        .arc_to(vector(1.0, 1.0), Angle::radians(0.0), false, true, point(2.0, 0.0))
        .unwrap();
    builder.close();
    let events = builder.build().all_events();
    let n = events.len();
    assert!(n >= 3);
    let mut pos = point(0.0, 0.0);
    for e in &events[1..n - 1] {
        match e {
            PathEvent::Cubic { from, to, .. } => {
                assert_eq!(*from, pos);
                pos = *to;
            }
            other => panic!("expected only cubic events, got {:?}", other),
        }
    }
    // the approximation of a half-circle from (0,0) to (2,0) ends near (2,0)
    assert!((pos.x - 2.0).abs() < 1e-3 && pos.y.abs() < 1e-3);
}

#[test]
fn arc_before_move_is_rejected() {
    let mut builder = Path::builder();
    assert_eq!(
        builder.arc_to(vector(1.0, 1.0), Angle::radians(0.0), false, true, point(2.0, 0.0)),
        Err(PathError::InvalidState)
    );
    assert_eq!(builder.build().all_events(), vec![]);
}

#[test]
fn arc_with_non_finite_geometry_degenerates_to_its_chord() {
    let mut builder = Path::builder();
    builder.move_to(point(0.0, 0.0));
    builder
        .arc_to(vector(f32::NAN, 1.0), Angle::radians(0.0), false, true, point(2.0, 0.0))
        .unwrap();
    let events = builder.build().all_events();
    assert_eq!(
        events,
        vec![
            PathEvent::Begin { at: point(0.0, 0.0) },
            PathEvent::Line { from: point(0.0, 0.0), to: point(2.0, 0.0) },
            PathEvent::End { last: point(2.0, 0.0), first: point(0.0, 0.0), close: false },
        ]
    );
}

#[test]
fn flattening_a_degenerate_quadratic_still_reaches_the_endpoint() {
    // a curve whose control point carries a non-finite coordinate cannot be
    // subdivided; the run still ends exactly at the endpoint
    let mut builder = Path::builder();
    builder.move_to(point(0.0, 0.0));
    builder
        .quadratic_bezier_to(point(f32::NAN, 1.0), point(2.0, 0.0))
        .unwrap();
    let path = builder.build();
    let events = collect_flattened(&path, 0.01);
    let n = events.len();
    match events[n - 2] {
        PathEvent::Line { to, .. } => assert_eq!(to, point(2.0, 0.0)),
        ref other => panic!("expected a line, got {:?}", other),
    }
}

#[test]
fn arc_with_nearly_coincident_endpoints_degenerates_to_its_chord() {
    // the chord is far below the geometry scalar's epsilon while the radii
    // pass lyon_geom's straight-line cut: the conversion cannot be used and
    // the arc is drawn as its chord
    let mut builder = Path::builder();
    builder.move_to(point(0.0, 0.0));
    builder
        .arc_to(vector(1.0e-4, 1.0e-4), Angle::radians(0.0), false, true, point(1.0e-20, 0.0))
        .unwrap();
    let events = builder.build().all_events();
    assert_eq!(
        events,
        vec![
            PathEvent::Begin { at: point(0.0, 0.0) },
            PathEvent::Line { from: point(0.0, 0.0), to: point(1.0e-20, 0.0) },
            PathEvent::End { last: point(1.0e-20, 0.0), first: point(0.0, 0.0), close: false },
        ]
    );
}

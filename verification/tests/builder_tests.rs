use lyon_geom::math::point;
use lyon_path::PathError;
use lyon_path::events::PathEvent;
use lyon_path::path::Path;

#[test]
fn triangle_scenario() {
    let mut builder = Path::builder();
    builder.move_to(point(0.0, 0.0));
    builder.line_to(point(1.0, 2.0)).unwrap();
    builder.line_to(point(2.0, 0.0)).unwrap();
    builder.line_to(point(1.0, 1.0)).unwrap();
    builder.close();
    let path = builder.build();
    let events = path.all_events();
    assert_eq!(
        events,
        vec![
            PathEvent::Begin { at: point(0.0, 0.0) },
            PathEvent::Line { from: point(0.0, 0.0), to: point(1.0, 2.0) },
            PathEvent::Line { from: point(1.0, 2.0), to: point(2.0, 0.0) },
            PathEvent::Line { from: point(2.0, 0.0), to: point(1.0, 1.0) },
            PathEvent::End { last: point(1.0, 1.0), first: point(0.0, 0.0), close: true },
        ]
    );
}

#[test]
fn line_before_move_is_rejected() {
    let mut builder = Path::builder();
    assert_eq!(builder.line_to(point(1.0, 1.0)), Err(PathError::InvalidState));
    let path = builder.build();
    assert_eq!(path.all_events(), vec![]);
}

#[test]
fn curves_before_move_are_rejected() {
    let mut builder = Path::builder();
    assert_eq!(
        builder.quadratic_bezier_to(point(1.0, 0.0), point(2.0, 0.0)),
        Err(PathError::InvalidState)
    );
    assert_eq!(
        builder.cubic_bezier_to(point(1.0, 0.0), point(2.0, 0.0), point(3.0, 0.0)),
        Err(PathError::InvalidState)
    );
    assert_eq!(builder.smooth_quadratic_bezier_to(point(1.0, 1.0)), Err(PathError::InvalidState));
    assert_eq!(
        builder.smooth_cubic_bezier_to(point(1.0, 0.0), point(1.0, 1.0)),
        Err(PathError::InvalidState)
    );
    let path = builder.build();
    assert_eq!(path.all_events(), vec![]);
}

#[test]
fn edge_after_close_is_rejected_until_move() {
    let mut builder = Path::builder();
    builder.move_to(point(0.0, 0.0));
    builder.line_to(point(1.0, 0.0)).unwrap();
    builder.close();
    assert_eq!(builder.line_to(point(2.0, 0.0)), Err(PathError::InvalidState));
    builder.move_to(point(3.0, 0.0));
    assert_eq!(builder.line_to(point(4.0, 0.0)), Ok(()));
    let events = builder.build().all_events();
    assert_eq!(events.len(), 6);
    assert_eq!(events[3], PathEvent::Begin { at: point(3.0, 0.0) });
}

#[test]
fn close_without_subpath_is_a_noop() {
    let mut builder = Path::builder();
    builder.close();
    builder.close();
    let path = builder.build();
    assert_eq!(path.all_events(), vec![]);
}

#[test]
fn move_while_open_ends_without_closing() {
    let mut builder = Path::builder();
    builder.move_to(point(0.0, 0.0));
    builder.line_to(point(1.0, 0.0)).unwrap();
    builder.move_to(point(5.0, 5.0));
    builder.line_to(point(6.0, 5.0)).unwrap();
    builder.close();
    let events = builder.build().all_events();
    assert_eq!(
        events,
        vec![
            PathEvent::Begin { at: point(0.0, 0.0) },
            PathEvent::Line { from: point(0.0, 0.0), to: point(1.0, 0.0) },
            PathEvent::End { last: point(1.0, 0.0), first: point(0.0, 0.0), close: false },
            PathEvent::Begin { at: point(5.0, 5.0) },
            PathEvent::Line { from: point(5.0, 5.0), to: point(6.0, 5.0) },
            PathEvent::End { last: point(6.0, 5.0), first: point(5.0, 5.0), close: true },
        ]
    );
}

#[test]
fn unterminated_subpath_ends_unclosed_at_build() {
    let mut builder = Path::builder();
    builder.move_to(point(0.0, 0.0));
    builder.line_to(point(1.0, 0.0)).unwrap();
    let events = builder.build().all_events();
    assert_eq!(
        events[2],
        PathEvent::End { last: point(1.0, 0.0), first: point(0.0, 0.0), close: false }
    );
}

#[test]
fn curve_round_trip_keeps_control_points() {
    let mut builder = Path::builder();
    builder.move_to(point(0.0, 0.0));
    builder.quadratic_bezier_to(point(1.0, 2.0), point(2.0, 0.0)).unwrap();
    builder.cubic_bezier_to(point(3.0, 1.0), point(4.0, -1.0), point(5.0, 0.0)).unwrap();
    builder.close();
    let events = builder.build().all_events();
    assert_eq!(
        events,
        vec![
            PathEvent::Begin { at: point(0.0, 0.0) },
            PathEvent::Quadratic { from: point(0.0, 0.0), ctrl: point(1.0, 2.0), to: point(2.0, 0.0) },
            PathEvent::Cubic {
                from: point(2.0, 0.0),
                ctrl1: point(3.0, 1.0),
                ctrl2: point(4.0, -1.0),
                to: point(5.0, 0.0),
            },
            PathEvent::End { last: point(5.0, 0.0), first: point(0.0, 0.0), close: true },
        ]
    );
}

#[test]
fn smooth_quadratic_reflects_previous_control_point() {
    let mut builder = Path::builder();
    builder.move_to(point(0.0, 0.0));
    builder.quadratic_bezier_to(point(1.0, 0.0), point(2.0, 0.0)).unwrap();
    builder.smooth_quadratic_bezier_to(point(4.0, 0.0)).unwrap();
    let events = builder.build().all_events();
    // the reflection of (1, 0) about (2, 0) is (3, 0)
    assert_eq!(
        events[2],
        PathEvent::Quadratic { from: point(2.0, 0.0), ctrl: point(3.0, 0.0), to: point(4.0, 0.0) }
    );
}

#[test]
fn smooth_cubic_reflects_previous_trailing_control_point() {
    let mut builder = Path::builder();
    builder.move_to(point(0.0, 0.0));
    builder.cubic_bezier_to(point(0.0, 1.0), point(1.0, 2.0), point(2.0, 2.0)).unwrap();
    builder.smooth_cubic_bezier_to(point(4.0, 2.0), point(5.0, 1.0)).unwrap();
    let events = builder.build().all_events();
    // the reflection of (1, 2) about (2, 2) is (3, 2)
    assert_eq!(
        events[2],
        PathEvent::Cubic {
            from: point(2.0, 2.0),
            ctrl1: point(3.0, 2.0),
            ctrl2: point(4.0, 2.0),
            to: point(5.0, 1.0),
        }
    );
}

#[test]
fn smooth_after_line_uses_current_position() {
    let mut builder = Path::builder();
    builder.move_to(point(0.0, 0.0));
    builder.line_to(point(2.0, 0.0)).unwrap();
    builder.smooth_quadratic_bezier_to(point(4.0, 0.0)).unwrap();
    let events = builder.build().all_events();
    assert_eq!(
        events[2],
        PathEvent::Quadratic { from: point(2.0, 0.0), ctrl: point(2.0, 0.0), to: point(4.0, 0.0) }
    );
}

#[test]
fn smooth_after_move_uses_current_position() {
    let mut builder = Path::builder();
    builder.move_to(point(1.0, 1.0));
    builder.smooth_quadratic_bezier_to(point(3.0, 1.0)).unwrap();
    let events = builder.build().all_events();
    assert_eq!(
        events[1],
        PathEvent::Quadratic { from: point(1.0, 1.0), ctrl: point(1.0, 1.0), to: point(3.0, 1.0) }
    );
}

#[test]
fn iteration_is_deterministic_across_fresh_iterators() {
    let mut builder = Path::builder();
    builder.move_to(point(0.0, 0.0));
    builder.line_to(point(1.0, 2.0)).unwrap();
    builder.quadratic_bezier_to(point(2.0, 3.0), point(3.0, 0.0)).unwrap();
    builder.close();
    let path = builder.build();
    let first = path.all_events();
    let second = path.all_events();
    assert_eq!(first, second);
    let mut it1 = path.iter();
    let mut it2 = path.iter();
    loop {
        let a = it1.next();
        let b = it2.next();
        assert_eq!(a, b);
        if a.is_none() {
            break;
        }
    }
}

#[test]
fn point_buffer_random_access() {
    let mut builder = Path::builder();
    builder.move_to(point(0.0, 0.0));
    builder.quadratic_bezier_to(point(1.0, 2.0), point(2.0, 0.0)).unwrap();
    builder.close();
    let path = builder.build();
    // stored points: begin at, quadratic ctrl, quadratic to
    assert_eq!(path.num_points(), 3);
    assert_eq!(path.point(0), Ok(point(0.0, 0.0)));
    assert_eq!(path.point(1), Ok(point(1.0, 2.0)));
    assert_eq!(path.point(2), Ok(point(2.0, 0.0)));
    assert_eq!(path.point(3), Err(PathError::IndexOutOfRange));
}

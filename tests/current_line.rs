use svg2polylines::{CoordinatePair, CurrentLine, InvalidState, PathError, UNITS_PER_WHOLE};

fn units(v: f64) -> i64 {
    (v * UNITS_PER_WHOLE as f64).round() as i64
}

fn pt(x: f64, y: f64) -> CoordinatePair {
    CoordinatePair::new(units(x), units(y))
}

#[test]
fn test_current_line() {
    let mut line = CurrentLine::new();
    assert_eq!(line.is_valid(), false);
    assert_eq!(line.last_x(), None);
    assert_eq!(line.last_y(), None);
    line.add_absolute(pt(1.0, 2.0));
    assert_eq!(line.is_valid(), false);
    assert_eq!(line.last_x(), Some(units(1.0)));
    assert_eq!(line.last_y(), Some(units(2.0)));
    line.add_absolute(pt(2.0, 3.0));
    assert_eq!(line.is_valid(), true);
    assert_eq!(line.last_x(), Some(units(2.0)));
    assert_eq!(line.last_y(), Some(units(3.0)));
    let finished = line.finish();
    assert_eq!(finished.len(), 2);
    assert_eq!(finished[0], pt(1.0, 2.0));
    assert_eq!(finished[1], pt(2.0, 3.0));
    assert_eq!(line.is_valid(), false);
}

#[test]
fn lib_test_current_line() {
    let mut line = CurrentLine::new();
    assert_eq!(line.is_valid(), false);
    assert_eq!(line.last_x(), None);
    assert_eq!(line.last_y(), None);
    line.add(true, pt(1.0, 2.0)).unwrap();
    assert_eq!(line.is_valid(), false);
    assert_eq!(line.last_x(), Some(units(1.0)));
    assert_eq!(line.last_y(), Some(units(2.0)));
    line.add(true, pt(2.0, 3.0)).unwrap();
    assert_eq!(line.is_valid(), true);
    assert_eq!(line.last_x(), Some(units(2.0)));
    assert_eq!(line.last_y(), Some(units(3.0)));
    let finished = line.finish();
    assert_eq!(finished.len(), 2);
    assert_eq!(finished[0], pt(1.0, 2.0));
    assert_eq!(finished[1], pt(2.0, 3.0));
    assert_eq!(line.is_valid(), false);
}

#[test]
fn test_current_line_close() {
    let mut line = CurrentLine::new();
    assert_eq!(
        line.close().map_err(|e| e.message()),
        Err("Lines with less than 2 coordinate pairs cannot be closed.".to_string())
    );
    line.add_absolute(pt(1.0, 2.0));
    assert_eq!(
        line.close().map_err(|e| e.message()),
        Err("Lines with less than 2 coordinate pairs cannot be closed.".to_string())
    );
    line.add_absolute(pt(2.0, 3.0));
    assert_eq!(line.close(), Ok(()));
    let finished = line.finish();
    assert_eq!(finished.len(), 3);
    assert_eq!(finished[0], pt(1.0, 2.0));
    assert_eq!(finished[2], pt(1.0, 2.0));
}

#[test]
fn close_error_is_invalid_state() {
    let mut line = CurrentLine::new();
    line.add_absolute(pt(1.0, 2.0));
    assert_eq!(line.close(), Err(PathError::InvalidState(InvalidState::CloseTooShort)));
    assert_eq!(line.len(), 1);
}

#[test]
fn close_of_longer_line_appends_first_point() {
    let mut line = CurrentLine::new();
    line.add_absolute(pt(0.0, 0.0));
    line.add_absolute(pt(4.0, 0.0));
    line.add_absolute(pt(4.0, 3.0));
    assert_eq!(line.close(), Ok(()));
    assert_eq!(line.len(), 4);
    let finished = line.finish();
    assert_eq!(finished[0], finished[3]);
}

#[test]
fn relative_point_after_close_starts_from_first_point() {
    let mut line = CurrentLine::new();
    line.add_absolute(pt(10.0, 10.0));
    line.add_absolute(pt(20.0, 15.0));
    line.close().unwrap();
    let _ = line.finish();
    line.add_relative(pt(0.0, 40.0)).unwrap();
    assert_eq!(line.last_pair(), Some(pt(10.0, 50.0)));
}

#[test]
fn relative_point_without_base_is_absolute() {
    let mut line = CurrentLine::new();
    line.add_relative(pt(3.0, 4.0)).unwrap();
    assert_eq!(line.last_pair(), Some(pt(3.0, 4.0)));
    line.add_relative(pt(-1.0, 0.5)).unwrap();
    assert_eq!(line.last_pair(), Some(pt(2.0, 4.5)));
}

#[test]
fn relative_overflow_is_an_error() {
    let mut line = CurrentLine::new();
    line.add_absolute(CoordinatePair::new(i64::MAX - 1, 0));
    assert_eq!(line.add_relative(CoordinatePair::new(2, 0)), Err(PathError::Overflow));
    assert_eq!(line.len(), 1);
    assert_eq!(line.add(false, CoordinatePair::new(1, 0)), Ok(()));
    assert_eq!(line.last_x(), Some(i64::MAX));
}

#[test]
fn filter_drops_points_near_the_last_one() {
    let mut line = CurrentLine::with_min_step(units(0.5));
    line.add(true, pt(0.0, 0.0)).unwrap();
    line.add(true, pt(0.25, 0.25)).unwrap();
    assert_eq!(line.len(), 1);
    // Far along one axis is enough to keep a point.
    line.add(true, pt(0.25, 3.0)).unwrap();
    assert_eq!(line.len(), 2);
    let mut plain = CurrentLine::new();
    plain.add(true, pt(0.0, 0.0)).unwrap();
    plain.add(true, pt(0.25, 0.25)).unwrap();
    assert_eq!(plain.len(), 2);
}

#[test]
fn move_target_of_valid_line_uses_previous_end() {
    let mut line = CurrentLine::new();
    line.add_absolute(pt(1.0, 1.0));
    line.add_absolute(pt(5.0, 1.0));
    // No sub-path was closed: a relative MoveTo after a valid line is absolute.
    assert_eq!(line.move_target(false, pt(2.0, 2.0)), Some(pt(2.0, 2.0)));
    let mut single = CurrentLine::new();
    single.add_absolute(pt(1.0, 1.0));
    assert_eq!(single.move_target(false, pt(2.0, 2.0)), Some(pt(3.0, 3.0)));
}

#[test]
fn error_messages_name_the_command() {
    assert_eq!(
        PathError::InvalidState(InvalidState::HorizontalOnEmpty).message(),
        "Invalid state: HorizontalLineTo on empty CurrentLine".to_string()
    );
    assert_eq!(PathError::Overflow.message(), "Coordinate out of range".to_string());
}

#[test]
fn every_error_has_its_message() {
    assert_eq!(PathError::Lexical { pos: 3 }.message(), "Invalid path data".to_string());
    assert_eq!(
        PathError::InvalidState(InvalidState::VerticalOnEmpty).message(),
        "Invalid state: VerticalLineTo on empty CurrentLine".to_string()
    );
    assert_eq!(
        PathError::InvalidState(InvalidState::CurveOnEmpty).message(),
        "Invalid state: CurveTo on empty CurrentLine".to_string()
    );
    assert_eq!(
        PathError::InvalidState(InvalidState::QuadraticOnEmpty).message(),
        "Invalid state: Quadratic on empty CurrentLine".to_string()
    );
    assert_eq!(PathError::Unsupported { kind: b'A' }.message(), "Unsupported path command".to_string());
}

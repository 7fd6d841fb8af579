use svg2polylines::{
    parse_path_token, CoordinatePair, CurrentLine, Curve, InvalidState, PathCommand, PathError,
    Polyline, UNITS_PER_WHOLE,
};

fn units(v: f64) -> i64 {
    (v * UNITS_PER_WHOLE as f64).round() as i64
}

fn pt(x: f64, y: f64) -> CoordinatePair {
    CoordinatePair::new(units(x), units(y))
}

fn move_to(abs: bool, x: f64, y: f64) -> PathCommand {
    PathCommand::MoveTo { abs, x: units(x), y: units(y) }
}

fn line_to(abs: bool, x: f64, y: f64) -> PathCommand {
    PathCommand::LineTo { abs, x: units(x), y: units(y) }
}

#[test]
/// Parse segment data with a single MoveTo and three coordinates
fn test_parse_segment_data() {
    let mut current_line = CurrentLine::new();
    let mut lines: Vec<Polyline> = Vec::new();
    parse_path_token(&move_to(true, 1.0, 2.0), &mut current_line, &mut lines).unwrap();
    parse_path_token(&line_to(true, 2.0, 3.0), &mut current_line, &mut lines).unwrap();
    parse_path_token(&line_to(true, 3.0, 2.0), &mut current_line, &mut lines).unwrap();
    assert_eq!(lines.len(), 0);
    let finished = current_line.finish();
    assert_eq!(lines.len(), 0);
    assert_eq!(finished.len(), 3);
    assert_eq!(finished[0], pt(1.0, 2.0));
    assert_eq!(finished[1], pt(2.0, 3.0));
    assert_eq!(finished[2], pt(3.0, 2.0));
}

#[test]
/// Parse segment data with HorizontalLineTo / VerticalLineTo entries
fn test_parse_segment_data_horizontal_vertical() {
    let mut current_line = CurrentLine::new();
    let mut lines: Vec<Polyline> = Vec::new();
    parse_path_token(&move_to(true, 1.0, 2.0), &mut current_line, &mut lines).unwrap();
    parse_path_token(
        &PathCommand::HorizontalLineTo { abs: true, x: units(3.0) },
        &mut current_line,
        &mut lines,
    )
    .unwrap();
    parse_path_token(
        &PathCommand::VerticalLineTo { abs: true, y: units(-1.0) },
        &mut current_line,
        &mut lines,
    )
    .unwrap();
    assert_eq!(lines.len(), 0);
    let finished = current_line.finish();
    assert_eq!(lines.len(), 0);
    assert_eq!(finished.len(), 3);
    assert_eq!(finished[0], pt(1.0, 2.0));
    assert_eq!(finished[1], pt(3.0, 2.0));
    assert_eq!(finished[2], pt(3.0, -1.0));
}

#[test]
/// Parse segment data with an unsupported command
fn test_parse_segment_data_unsupported() {
    let mut current_line = CurrentLine::new();
    let mut lines: Vec<Polyline> = Vec::new();
    parse_path_token(&move_to(true, 1.0, 2.0), &mut current_line, &mut lines).unwrap();
    let result = parse_path_token(
        &PathCommand::Unsupported { kind: b'T' },
        &mut current_line,
        &mut lines,
    );
    assert!(result.is_err());
    assert_eq!(lines.len(), 0);
    let finished = current_line.finish();
    assert_eq!(finished.len(), 1);
    assert_eq!(finished[0], pt(1.0, 2.0));
}

#[test]
/// Parse segment data with multiple MoveTo commands
fn test_parse_segment_data_multiple() {
    let mut current_line = CurrentLine::new();
    let mut lines: Vec<Polyline> = Vec::new();
    let cmds = [
        move_to(true, 1.0, 2.0),
        line_to(true, 2.0, 3.0),
        move_to(true, 1.0, 3.0),
        line_to(true, 2.0, 4.0),
        move_to(true, 1.0, 4.0),
        line_to(true, 2.0, 5.0),
        move_to(true, 1.0, 5.0),
    ];
    for c in cmds.iter() {
        parse_path_token(c, &mut current_line, &mut lines).unwrap();
    }
    assert_eq!(lines.len(), 3);
    assert_eq!(current_line.is_valid(), false);
    let finished = current_line.finish();
    assert_eq!(finished.len(), 1);
}

#[test]
fn single_point_subpath_is_replaced_by_next_move() {
    let mut current_line = CurrentLine::new();
    let mut lines: Vec<Polyline> = Vec::new();
    parse_path_token(&move_to(true, 1.0, 1.0), &mut current_line, &mut lines).unwrap();
    parse_path_token(&move_to(true, 5.0, 5.0), &mut current_line, &mut lines).unwrap();
    assert_eq!(lines.len(), 0);
    assert_eq!(current_line.len(), 1);
    assert_eq!(current_line.last_pair(), Some(pt(5.0, 5.0)));
}

#[test]
fn horizontal_and_vertical_need_a_current_point() {
    let mut current_line = CurrentLine::new();
    let mut lines: Vec<Polyline> = Vec::new();
    assert_eq!(
        parse_path_token(&PathCommand::HorizontalLineTo { abs: true, x: 1 }, &mut current_line, &mut lines),
        Err(PathError::InvalidState(InvalidState::HorizontalOnEmpty))
    );
    assert_eq!(
        parse_path_token(&PathCommand::VerticalLineTo { abs: false, y: 1 }, &mut current_line, &mut lines),
        Err(PathError::InvalidState(InvalidState::VerticalOnEmpty))
    );
    let cubic = PathCommand::CurveTo { abs: true, x1: 0, y1: 0, x2: 0, y2: 0, x: 1, y: 1 };
    assert_eq!(
        parse_path_token(&cubic, &mut current_line, &mut lines),
        Err(PathError::InvalidState(InvalidState::CurveOnEmpty))
    );
    let quad = PathCommand::Quadratic { abs: true, x1: 0, y1: 0, x: 1, y: 1 };
    assert_eq!(
        parse_path_token(&quad, &mut current_line, &mut lines),
        Err(PathError::InvalidState(InvalidState::QuadraticOnEmpty))
    );
}

#[test]
fn relative_horizontal_and_vertical() {
    let mut current_line = CurrentLine::new();
    let mut lines: Vec<Polyline> = Vec::new();
    parse_path_token(&move_to(true, 1.0, 2.0), &mut current_line, &mut lines).unwrap();
    parse_path_token(&PathCommand::HorizontalLineTo { abs: false, x: units(3.0) }, &mut current_line, &mut lines)
        .unwrap();
    parse_path_token(&PathCommand::VerticalLineTo { abs: false, y: units(-1.5) }, &mut current_line, &mut lines)
        .unwrap();
    let finished = current_line.finish();
    assert_eq!(finished, vec![pt(1.0, 2.0), pt(4.0, 2.0), pt(4.0, 0.5)]);
}

#[test]
fn relative_curve_is_resolved_against_current_point() {
    let mut current_line = CurrentLine::new();
    let mut lines: Vec<Polyline> = Vec::new();
    parse_path_token(&move_to(true, 10.0, 10.0), &mut current_line, &mut lines).unwrap();
    let cmd = PathCommand::CurveTo {
        abs: false,
        x1: units(1.0),
        y1: units(2.0),
        x2: units(3.0),
        y2: units(4.0),
        x: units(5.0),
        y: units(6.0),
    };
    let r = parse_path_token(&cmd, &mut current_line, &mut lines);
    assert_eq!(
        r,
        Ok(Some(Curve::Cubic {
            from: pt(10.0, 10.0),
            ctrl1: pt(11.0, 12.0),
            ctrl2: pt(13.0, 14.0),
            to: pt(15.0, 16.0),
        }))
    );
    // The curve's points are the caller's to add.
    assert_eq!(current_line.len(), 1);
    let quad = PathCommand::Quadratic { abs: true, x1: units(1.0), y1: units(1.0), x: units(2.0), y: units(0.0) };
    assert_eq!(
        parse_path_token(&quad, &mut current_line, &mut lines),
        Ok(Some(Curve::Quadratic { from: pt(10.0, 10.0), ctrl: pt(1.0, 1.0), to: pt(2.0, 0.0) }))
    );
}

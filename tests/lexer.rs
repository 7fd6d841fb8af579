use svg2polylines::{lex_path, parse_number, LexError, PathCommand, UNITS_PER_WHOLE};

fn units(v: f64) -> i64 {
    (v * UNITS_PER_WHOLE as f64).round() as i64
}

#[test]
fn bare_pairs_after_move_are_line_tos() {
    let r = lex_path("M 1,2 3,4 5 6");
    assert_eq!(r.error, None);
    assert_eq!(
        r.commands,
        vec![
            PathCommand::MoveTo { abs: true, x: units(1.0), y: units(2.0) },
            PathCommand::LineTo { abs: true, x: units(3.0), y: units(4.0) },
            PathCommand::LineTo { abs: true, x: units(5.0), y: units(6.0) },
        ]
    );
}

#[test]
fn lower_case_letters_are_relative() {
    let r = lex_path("m 1 2 l 3 4 h 5 v 6 z");
    assert_eq!(r.error, None);
    assert_eq!(
        r.commands,
        vec![
            PathCommand::MoveTo { abs: false, x: units(1.0), y: units(2.0) },
            PathCommand::LineTo { abs: false, x: units(3.0), y: units(4.0) },
            PathCommand::HorizontalLineTo { abs: false, x: units(5.0) },
            PathCommand::VerticalLineTo { abs: false, y: units(6.0) },
            PathCommand::ClosePath { abs: false },
        ]
    );
}

#[test]
fn curves_and_compact_numbers() {
    let r = lex_path("M0,0C1,2,3,4,5,6Q-1-2-.5.25");
    assert_eq!(r.error, None);
    assert_eq!(
        r.commands,
        vec![
            PathCommand::MoveTo { abs: true, x: 0, y: 0 },
            PathCommand::CurveTo {
                abs: true,
                x1: units(1.0),
                y1: units(2.0),
                x2: units(3.0),
                y2: units(4.0),
                x: units(5.0),
                y: units(6.0),
            },
            PathCommand::Quadratic {
                abs: true,
                x1: units(-1.0),
                y1: units(-2.0),
                x: units(-0.5),
                y: units(0.25),
            },
        ]
    );
}

#[test]
fn repeated_command_keeps_its_letter() {
    let r = lex_path("M 0 0 H 1 2 V 3");
    assert_eq!(r.error, None);
    assert_eq!(r.commands.len(), 4);
    assert_eq!(r.commands[2], PathCommand::HorizontalLineTo { abs: true, x: units(2.0) });
}

#[test]
fn unsupported_command_ends_the_sequence() {
    let r = lex_path("M 1 2 T 3 4 L 5 6");
    assert_eq!(r.error, None);
    assert_eq!(r.commands.len(), 2);
    assert_eq!(r.commands[1], PathCommand::Unsupported { kind: b'T' });
    let a = lex_path("M 1 2 a 1 1 0 0 1 3 3");
    assert_eq!(a.commands[1], PathCommand::Unsupported { kind: b'a' });
}

#[test]
fn path_must_start_with_move() {
    let r = lex_path("L 1 2");
    assert!(r.commands.is_empty());
    assert_eq!(r.error, Some(LexError { pos: 0 }));
    let n = lex_path("  1 2");
    assert_eq!(n.error, Some(LexError { pos: 2 }));
}

#[test]
fn lexical_error_keeps_commands_before_it() {
    let r = lex_path("M 1 2 L 3 x");
    assert_eq!(r.commands.len(), 1);
    assert_eq!(r.error, Some(LexError { pos: 6 }));
    let z = lex_path("M 1 2 L 3 4 Z 5 6");
    assert_eq!(z.commands.len(), 3);
    assert_eq!(z.error, Some(LexError { pos: 14 }));
    let e = lex_path("M 1e2 3");
    assert_eq!(e.commands.len(), 0);
    assert!(e.error.is_some());
}

#[test]
fn empty_path_data_has_no_commands() {
    let r = lex_path("   ");
    assert!(r.commands.is_empty());
    assert_eq!(r.error, None);
}

#[test]
fn numbers_are_exact_to_nine_places() {
    assert_eq!(parse_number(b"0.1", 0), Some((100_000_000, 3)));
    assert_eq!(parse_number(b" -12.5 , 7", 0), Some((-12_500_000_000, 9)));
    assert_eq!(parse_number(b"+.000000001", 0), Some((1, 11)));
    // Digits past the ninth decimal place are dropped.
    assert_eq!(parse_number(b"1.0000000019", 0), Some((1_000_000_001, 12)));
    assert_eq!(parse_number(b"3.", 0), Some((3_000_000_000, 2)));
    assert_eq!(parse_number(b"-", 0), None);
    assert_eq!(parse_number(b".", 0), None);
}

#[test]
fn numbers_beyond_range_are_rejected() {
    assert_eq!(parse_number(b"9223372036.854775807", 0), Some((i64::MAX, 20)));
    assert_eq!(parse_number(b"9223372036.854775808", 0), None);
    assert_eq!(parse_number(b"100000000000000000000", 0), None);
    assert_eq!(parse_number(b"-9223372036.854775807", 0), Some((-i64::MAX, 21)));
}

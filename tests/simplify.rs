use geo::{Coord, LineString, SimplifyVwIdx};
use svg2polylines::{
    apply_decimation, drawable_lines, dxf_entities, keep_points, simplify_action, CoordinatePair, DxfEntity,
    SimplifyAction, UNITS_PER_WHOLE,
};

fn units(v: f64) -> i64 {
    (v * UNITS_PER_WHOLE as f64).round() as i64
}

fn pt(x: f64, y: f64) -> CoordinatePair {
    CoordinatePair::new(units(x), units(y))
}

fn decimate(line: &Vec<CoordinatePair>, epsilon: f64) -> Vec<usize> {
    let ls: LineString<f64> = LineString::new(
        line.iter()
            .map(|p| Coord { x: p.x as f64 / UNITS_PER_WHOLE as f64, y: p.y as f64 / UNITS_PER_WHOLE as f64 })
            .collect(),
    );
    ls.simplify_vw_idx(epsilon)
}

#[test]
fn short_lines_follow_the_size_policy() {
    let tol = units(0.5);
    assert_eq!(simplify_action(&vec![], tol), SimplifyAction::Drop);
    assert_eq!(simplify_action(&vec![pt(1., 1.)], tol), SimplifyAction::Drop);
    assert_eq!(simplify_action(&vec![pt(0., 0.), pt(1., 1.)], tol), SimplifyAction::Keep);
    // Two points close along one axis are dropped.
    assert_eq!(simplify_action(&vec![pt(10., 50.), pt(0., 50.)], tol), SimplifyAction::Drop);
    assert_eq!(simplify_action(&vec![pt(0., 0.), pt(0.5, 3.)], tol), SimplifyAction::Drop);
    assert_eq!(
        simplify_action(&vec![pt(0., 0.), pt(1., 0.), pt(2., 0.)], tol),
        SimplifyAction::Decimate
    );
}

#[test]
fn straight_three_points_lose_the_middle_one() {
    let line = vec![pt(0., 0.), pt(5., 5.), pt(10., 10.)];
    assert_eq!(simplify_action(&line, units(0.5)), SimplifyAction::Decimate);
    let idx = decimate(&line, 0.5);
    assert_eq!(keep_points(&line, &idx), Some(vec![pt(0., 0.), pt(10., 10.)]));
}

#[test]
fn kept_points_must_keep_both_ends_in_order() {
    let line = vec![pt(0., 0.), pt(1., 3.), pt(2., 0.), pt(3., 3.)];
    assert_eq!(keep_points(&line, &vec![0, 1, 3]), Some(vec![pt(0., 0.), pt(1., 3.), pt(3., 3.)]));
    assert_eq!(keep_points(&line, &vec![0, 2]), None);
    assert_eq!(keep_points(&line, &vec![1, 3]), None);
    assert_eq!(keep_points(&line, &vec![0, 2, 1, 3]), None);
    assert_eq!(keep_points(&line, &vec![]), None);
    let idx = decimate(&line, 0.5);
    assert_eq!(keep_points(&line, &idx), Some(line.clone()));
}

#[test]
fn dxf_flips_y_and_draws_two_points_as_a_line() {
    let polylines = vec![
        vec![pt(1., 2.)],
        vec![pt(1., 2.), pt(3., -4.)],
        vec![pt(0., 0.), pt(1., 1.), pt(2., 0.)],
    ];
    let entities = dxf_entities(&polylines);
    assert_eq!(
        entities,
        vec![
            DxfEntity::Line { from: pt(1., -2.), to: pt(3., 4.) },
            DxfEntity::Polyline { vertices: vec![pt(0., 0.), pt(1., -1.), pt(2., 0.)] },
        ]
    );
    assert_eq!(drawable_lines(&polylines).len(), 2);
}

#[test]
fn invalid_decimation_keeps_the_whole_line() {
    let line = vec![pt(0., 0.), pt(1., 3.), pt(2., 0.)];
    assert_eq!(apply_decimation(&line, &vec![0, 2]), vec![pt(0., 0.), pt(2., 0.)]);
    assert_eq!(apply_decimation(&line, &vec![1, 2]), line);
    assert_eq!(apply_decimation(&line, &vec![0, 5]), line);
}

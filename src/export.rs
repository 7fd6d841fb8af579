//! What the SVG and DXF exports draw.
//!
//! Both draw only polylines of two points or more. DXF counts y upwards
//! where SVG counts it downwards, so every y coordinate is negated; a
//! polyline of two points becomes a DXF line, a longer one a DXF polyline.
use vstd::prelude::*;
use crate::coord::{CoordinatePair, Polyline, all_points};

verus! {

/// The polylines worth drawing among `ps`: those of two points or more, in
/// order.
pub open spec fn drawable(ps: Seq<Seq<CoordinatePair>>) -> Seq<Seq<CoordinatePair>>
    decreases ps.len(),
{
    if ps.len() == 0 {
        Seq::<Seq<CoordinatePair>>::empty()
    } else if ps.last().len() > 1 {
        drawable(ps.drop_last()).push(ps.last())
    } else {
        drawable(ps.drop_last())
    }
}

proof fn lemma_drawable_long(ps: Seq<Seq<CoordinatePair>>)
    ensures
        forall|k: int| 0 <= k < drawable(ps).len() ==> #[trigger] drawable(ps)[k].len() > 1,
    decreases ps.len(),
{
    if ps.len() > 0 {
        lemma_drawable_long(ps.drop_last());
        let rest = drawable(ps.drop_last());
        assert forall|k: int| 0 <= k < drawable(ps).len() implies #[trigger] drawable(ps)[k].len() > 1 by {
            if k < rest.len() {
                assert(rest[k].len() > 1);
            }
        }
    }
}

/// `v` negated; the negation of `i64::MIN` saturates to `i64::MAX`.
pub open spec fn negate(v: i64) -> i64 {
    if v == i64::MIN {
        i64::MAX
    } else {
        (-v) as i64
    }
}

/// A point with its y axis turned upwards.
pub open spec fn flip_y(p: CoordinatePair) -> CoordinatePair {
    CoordinatePair { x: p.x, y: negate(p.y) }
}

/// The points of a polyline with the y axis turned upwards.
pub open spec fn flipped(s: Seq<CoordinatePair>) -> Seq<CoordinatePair> {
    s.map_values(|p: CoordinatePair| flip_y(p))
}

/// A DXF entity, in the DXF's y-up coordinates.
#[derive(Debug, PartialEq, Eq)]
pub enum DxfEntity {
    Line { from: CoordinatePair, to: CoordinatePair },
    Polyline { vertices: Vec<CoordinatePair> },
}

impl DxfEntity {
    /// The points of the entity, in order.
    pub open spec fn points(&self) -> Seq<CoordinatePair> {
        match self {
            DxfEntity::Line { from, to } => seq![*from, *to],
            DxfEntity::Polyline { vertices } => vertices@,
        }
    }
}

fn flip_point(p: CoordinatePair) -> (r: CoordinatePair)
    ensures
        r == flip_y(p),
{
    let y = if p.y == i64::MIN {
        i64::MAX
    } else {
        -p.y
    };
    CoordinatePair { x: p.x, y }
}

fn flip_line(line: &Polyline) -> (r: Polyline)
    ensures
        r@ == flipped(line@),
{
    let mut out: Polyline = Vec::new();
    let mut i: usize = 0;
    while i < line.len()
        invariant
            i <= line@.len(),
            out@ == flipped(line@.subrange(0, i as int)),
        decreases line@.len() - i,
    {
        out.push(flip_point(line[i]));
        assert(flipped(line@.subrange(0, i + 1)) =~= flipped(line@.subrange(0, i as int)).push(
            flip_y(line@[i as int]),
        ));
        i = i + 1;
    }
    assert(line@.subrange(0, i as int) =~= line@);
    out
}

/// The polylines of `polylines` that have two points or more, in order.
pub fn drawable_lines(polylines: &Vec<Polyline>) -> (r: Vec<Polyline>)
    ensures
        all_points(r@) == drawable(all_points(polylines@)),
{
    let mut out: Vec<Polyline> = Vec::new();
    let mut i: usize = 0;
    while i < polylines.len()
        invariant
            i <= polylines@.len(),
            all_points(out@) == drawable(all_points(polylines@.subrange(0, i as int))),
        decreases polylines@.len() - i,
    {
        let ghost before = out@;
        assert(all_points(polylines@.subrange(0, i + 1)).drop_last() =~= all_points(
            polylines@.subrange(0, i as int),
        ));
        if polylines[i].len() > 1 {
            out.push(polylines[i].clone());
            assert(all_points(out@) =~= all_points(before).push(polylines@[i as int]@));
        }
        i = i + 1;
    }
    assert(polylines@.subrange(0, i as int) =~= polylines@);
    out
}

/// The DXF entities that draw `polylines`: one for each polyline of two
/// points or more, in order, with y negated; a line for two points, a
/// polyline for more.
pub fn dxf_entities(polylines: &Vec<Polyline>) -> (r: Vec<DxfEntity>)
    ensures
        r@.len() == drawable(all_points(polylines@)).len(),
        forall|k: int|
            0 <= k < r@.len() ==> #[trigger] r@[k].points() == flipped(
                drawable(all_points(polylines@))[k],
            ) && (r@[k] is Line <==> drawable(all_points(polylines@))[k].len() == 2),
{
    let lines = drawable_lines(polylines);
    let ghost d = drawable(all_points(polylines@));
    proof {
        lemma_drawable_long(all_points(polylines@));
    }
    let mut out: Vec<DxfEntity> = Vec::new();
    let mut i: usize = 0;
    while i < lines.len()
        invariant
            i <= lines@.len(),
            all_points(lines@) == d,
            forall|k: int| 0 <= k < d.len() ==> #[trigger] d[k].len() > 1,
            out@.len() == i,
            forall|k: int|
                0 <= k < i ==> #[trigger] out@[k].points() == flipped(d[k]) && (out@[k] is Line
                    <==> d[k].len() == 2),
        decreases lines@.len() - i,
    {
        assert(d[i as int] == lines@[i as int]@);
        let flipped_line = flip_line(&lines[i]);
        if lines[i].len() == 2 {
            let e = DxfEntity::Line { from: flipped_line[0], to: flipped_line[1] };
            assert(e.points() =~= flipped(d[i as int]));
            out.push(e);
        } else {
            out.push(DxfEntity::Polyline { vertices: flipped_line });
        }
        i = i + 1;
    }
    out
}

} // verus!

//! The size policy of the polyline simplifier, and the selection of the
//! points that its vertex-decimation pass keeps.
//!
//! The decimation itself (Visvalingam–Whyatt, on the effective area of each
//! vertex's triangle) is done by the caller, which hands back the indices of
//! the points it keeps.
use vstd::prelude::*;
use crate::coord::{CoordinatePair, Polyline};
use crate::current_line::abs_diff;

verus! {

/// What the simplifier does with one polyline.
#[derive(Debug, Clone, Copy, PartialEq, Eq, Structural)]
pub enum SimplifyAction {
    /// Not a real path: emit nothing.
    Drop,
    /// Emit it unchanged.
    Keep,
    /// Run the vertex decimation on it.
    Decimate,
}

/// The policy by size: at most one point is dropped; two points are kept
/// only if they lie farther apart than `tolerance` along both axes; three
/// or more are decimated.
pub open spec fn action_of(line: Seq<CoordinatePair>, tolerance: i64) -> SimplifyAction {
    if line.len() <= 1 {
        SimplifyAction::Drop
    } else if line.len() == 2 {
        if abs_diff(line[1].x, line[0].x) > tolerance && abs_diff(line[1].y, line[0].y) > tolerance {
            SimplifyAction::Keep
        } else {
            SimplifyAction::Drop
        }
    } else {
        SimplifyAction::Decimate
    }
}

fn abs_diff_exceeds(a: i64, b: i64, tolerance: i64) -> (r: bool)
    ensures
        r == (abs_diff(a, b) > tolerance),
{
    let d: i128 = if a >= b {
        a as i128 - b as i128
    } else {
        b as i128 - a as i128
    };
    d > tolerance as i128
}

/// What the simplifier does with `line`, for the tolerance `tolerance` in
/// fixed-point units.
pub fn simplify_action(line: &Polyline, tolerance: i64) -> (r: SimplifyAction)
    ensures
        r == action_of(line@, tolerance),
{
    let n = line.len();
    if n <= 1 {
        SimplifyAction::Drop
    } else if n == 2 {
        if abs_diff_exceeds(line[1].x, line[0].x, tolerance) && abs_diff_exceeds(
            line[1].y,
            line[0].y,
            tolerance,
        ) {
            SimplifyAction::Keep
        } else {
            SimplifyAction::Drop
        }
    } else {
        SimplifyAction::Decimate
    }
}

/// Whether `idx` picks points of a polyline of `n` points that keep its
/// first and last point: it starts at 0, ends at `n - 1` and increases.
pub open spec fn is_selection(idx: Seq<usize>, n: int) -> bool {
    &&& idx.len() >= 1
    &&& idx[0] == 0
    &&& idx.last() == n - 1
    &&& forall|k: int| 0 <= k < idx.len() - 1 ==> #[trigger] idx[k] < idx[k + 1]
}

proof fn lemma_increasing_below_last(idx: Seq<usize>, j: int)
    requires
        0 <= j < idx.len(),
        forall|k: int| 0 <= k < idx.len() - 1 ==> #[trigger] idx[k] < idx[k + 1],
    ensures
        idx[j] <= idx.last(),
    decreases idx.len() - j,
{
    if j < idx.len() - 1 {
        lemma_increasing_below_last(idx, j + 1);
    }
}

/// The points of `line` that the decimation kept, given their indices;
/// `None` where the indices do not keep the first and last points in order.
pub fn keep_points(line: &Polyline, idx: &Vec<usize>) -> (r: Option<Polyline>)
    ensures
        r is Some <==> is_selection(idx@, line@.len() as int),
        r is Some ==> r->Some_0@ == idx@.map_values(|i: usize| line@[i as int]),
{
    let n = line.len();
    if n == 0 || idx.len() == 0 || idx[0] != 0 || idx[idx.len() - 1] != n - 1 {
        return None;
    }
    let mut k: usize = 1;
    while k < idx.len()
        invariant
            1 <= k <= idx@.len(),
            forall|j: int| 0 <= j < k - 1 ==> #[trigger] idx@[j] < idx@[j + 1],
        decreases idx@.len() - k,
    {
        if idx[k] <= idx[k - 1] {
            assert(!(idx@[k - 1] < idx@[k - 1 + 1]));
            return None;
        }
        k = k + 1;
    }
    assert(is_selection(idx@, n as int));
    let mut out: Polyline = Vec::new();
    let mut k: usize = 0;
    while k < idx.len()
        invariant
            n == line@.len(),
            is_selection(idx@, n as int),
            k <= idx@.len(),
            out@ == idx@.subrange(0, k as int).map_values(|i: usize| line@[i as int]),
        decreases idx@.len() - k,
    {
        proof {
            lemma_increasing_below_last(idx@, k as int);
        }
        out.push(line[idx[k]]);
        assert(idx@.subrange(0, k + 1).map_values(|i: usize| line@[i as int]) =~= idx@.subrange(
            0,
            k as int,
        ).map_values(|i: usize| line@[i as int]).push(line@[idx@[k as int] as int]));
        k = k + 1;
    }
    assert(idx@.subrange(0, k as int) =~= idx@);
    Some(out)
}


/// The polyline after the decimation pass: the points at `idx` where they
/// keep the first and last points in order, else the whole polyline.
pub fn apply_decimation(line: &Polyline, idx: &Vec<usize>) -> (r: Polyline)
    ensures
        r@ == if is_selection(idx@, line@.len() as int) {
            idx@.map_values(|i: usize| line@[i as int])
        } else {
            line@
        },
{
    match keep_points(line, idx) {
        Some(p) => p,
        None => line.clone(),
    }
}

} // verus!

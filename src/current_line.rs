//! The buffer that collects the points of the sub-path being drawn.
use vstd::prelude::*;
use crate::coord::{CoordinatePair, Polyline, fits_i64};

verus! {

/// A command that needs a current point came before any point.
#[derive(Debug, Clone, Copy, PartialEq, Eq, Structural)]
pub enum InvalidState {
    HorizontalOnEmpty,
    VerticalOnEmpty,
    CurveOnEmpty,
    QuadraticOnEmpty,
    /// A ClosePath on a line of fewer than two points.
    CloseTooShort,
}

/// Why the commands of one path element could not all be run.
#[derive(Debug, Clone, Copy, PartialEq, Eq, Structural)]
pub enum PathError {
    /// The path data could not be read at this byte offset.
    Lexical { pos: usize },
    InvalidState(InvalidState),
    /// A command that is known but not supported; `kind` is its letter.
    Unsupported { kind: u8 },
    /// A relative coordinate led outside the range of an `i64`.
    Overflow,
}

/// The text that describes each error.
pub open spec fn message_of(e: PathError) -> Seq<char> {
    match e {
        PathError::Lexical { .. } => "Invalid path data"@,
        PathError::InvalidState(InvalidState::HorizontalOnEmpty) => "Invalid state: HorizontalLineTo on empty CurrentLine"@,
        PathError::InvalidState(InvalidState::VerticalOnEmpty) => "Invalid state: VerticalLineTo on empty CurrentLine"@,
        PathError::InvalidState(InvalidState::CurveOnEmpty) => "Invalid state: CurveTo on empty CurrentLine"@,
        PathError::InvalidState(InvalidState::QuadraticOnEmpty) => "Invalid state: Quadratic on empty CurrentLine"@,
        PathError::InvalidState(InvalidState::CloseTooShort) => "Lines with less than 2 coordinate pairs cannot be closed."@,
        PathError::Unsupported { .. } => "Unsupported path command"@,
        PathError::Overflow => "Coordinate out of range"@,
    }
}

impl PathError {
    /// A human-readable description.
    pub fn message(&self) -> (r: String)
        ensures
            r@ == message_of(*self),
    {
        broadcast use vstd::string::to_string_from_display_ensures_for_str;

        match self {
            PathError::Lexical { .. } => "Invalid path data".to_string(),
            PathError::InvalidState(InvalidState::HorizontalOnEmpty) => "Invalid state: HorizontalLineTo on empty CurrentLine".to_string(),
            PathError::InvalidState(InvalidState::VerticalOnEmpty) => "Invalid state: VerticalLineTo on empty CurrentLine".to_string(),
            PathError::InvalidState(InvalidState::CurveOnEmpty) => "Invalid state: CurveTo on empty CurrentLine".to_string(),
            PathError::InvalidState(InvalidState::QuadraticOnEmpty) => "Invalid state: Quadratic on empty CurrentLine".to_string(),
            PathError::InvalidState(InvalidState::CloseTooShort) => "Lines with less than 2 coordinate pairs cannot be closed.".to_string(),
            PathError::Unsupported { .. } => "Unsupported path command".to_string(),
            PathError::Overflow => "Coordinate out of range".to_string(),
        }
    }
}

/// The point a relative offset `(x, y)` is taken from: the last point of
/// `line`, else `prev_end`; `None` when there is neither.
pub open spec fn base_point(line: Seq<CoordinatePair>, prev_end: Option<CoordinatePair>) -> Option<
    CoordinatePair,
> {
    if line.len() > 0 {
        Some(line.last())
    } else {
        prev_end
    }
}

/// `p` moved by `(dx, dy)`, or `None` if that leaves the range of an `i64`.
pub open spec fn offset(p: CoordinatePair, dx: int, dy: int) -> Option<CoordinatePair> {
    if fits_i64(p.x + dx) && fits_i64(p.y + dy) {
        Some(CoordinatePair { x: (p.x + dx) as i64, y: (p.y + dy) as i64 })
    } else {
        None
    }
}

/// The absolute point that `(x, y)` stands for: itself when absolute, or
/// when relative with no base point; else the base point moved by it.
pub open spec fn resolve(
    line: Seq<CoordinatePair>,
    prev_end: Option<CoordinatePair>,
    abs: bool,
    x: i64,
    y: i64,
) -> Option<CoordinatePair> {
    if abs {
        Some(CoordinatePair { x, y })
    } else {
        match base_point(line, prev_end) {
            None => Some(CoordinatePair { x, y }),
            Some(b) => offset(b, x as int, y as int),
        }
    }
}

pub open spec fn abs_diff(a: i64, b: i64) -> int {
    if a >= b {
        a - b
    } else {
        b - a
    }
}

/// Whether `p` lies closer than `step` to `q` along both axes.
pub open spec fn is_near(p: CoordinatePair, q: CoordinatePair, step: i64) -> bool {
    abs_diff(p.x, q.x) < step && abs_diff(p.y, q.y) < step
}

/// Whether the optional filter with minimum step `min_step` drops the
/// point `p` after `line`.
pub open spec fn is_filtered(line: Seq<CoordinatePair>, p: CoordinatePair, min_step: Option<i64>) -> bool {
    line.len() > 0 && min_step is Some && is_near(p, line.last(), min_step->Some_0)
}

/// A polyline buffer: the points of the sub-path being drawn, and the point
/// that relative coordinates start from when the buffer is empty.
#[derive(Debug)]
pub struct CurrentLine {
    line: Polyline,
    prev_end: Option<CoordinatePair>,
    min_step: Option<i64>,
}

impl CurrentLine {
    /// The points in the buffer.
    pub closed spec fn points(&self) -> Seq<CoordinatePair> {
        self.line@
    }

    /// Where the last closed sub-path started, if one was closed.
    pub closed spec fn prev_end(&self) -> Option<CoordinatePair> {
        self.prev_end
    }

    /// The minimum step of the point filter of `add`, if it is on.
    pub closed spec fn min_step(&self) -> Option<i64> {
        self.min_step
    }

    /// An empty buffer, with the point filter off.
    pub fn new() -> (r: CurrentLine)
        ensures
            r.points() == Seq::<CoordinatePair>::empty(),
            r.prev_end() is None,
            r.min_step() is None,
    {
        CurrentLine { line: Vec::new(), prev_end: None, min_step: None }
    }

    /// An empty buffer whose `add` drops a point that lies closer than
    /// `min_step` to the last point along both axes.
    pub fn with_min_step(min_step: i64) -> (r: CurrentLine)
        ensures
            r.points() == Seq::<CoordinatePair>::empty(),
            r.prev_end() is None,
            r.min_step() == Some(min_step),
    {
        CurrentLine { line: Vec::new(), prev_end: None, min_step: Some(min_step) }
    }

    /// Appends an absolute point.
    pub fn add_absolute(&mut self, pair: CoordinatePair)
        ensures
            final(self).points() == old(self).points().push(pair),
            final(self).prev_end() == old(self).prev_end(),
            final(self).min_step() == old(self).min_step(),
    {
        self.line.push(pair);
    }

    /// Appends the absolute points `pairs`, in order.
    pub fn add_all(&mut self, pairs: &Vec<CoordinatePair>)
        ensures
            final(self).points() == old(self).points() + pairs@,
            final(self).prev_end() == old(self).prev_end(),
            final(self).min_step() == old(self).min_step(),
    {
        let mut i: usize = 0;
        while i < pairs.len()
            invariant
                i <= pairs@.len(),
                self.points() == old(self).points() + pairs@.subrange(0, i as int),
                self.prev_end() == old(self).prev_end(),
                self.min_step() == old(self).min_step(),
            decreases pairs@.len() - i,
        {
            self.line.push(pairs[i]);
            assert(pairs@.subrange(0, i + 1) =~= pairs@.subrange(0, i as int).push(pairs@[i as int]));
            i = i + 1;
        }
        assert(pairs@.subrange(0, i as int) =~= pairs@);
    }

    /// The point that the offset `(x, y)` leads to from the last point, or
    /// from `prev_end` when the buffer is empty.
    fn relative_target(&self, x: i64, y: i64) -> (r: Option<CoordinatePair>)
        ensures
            r == resolve(self.points(), self.prev_end(), false, x, y),
    {
        let base = if self.line.len() > 0 {
            Some(self.line[self.line.len() - 1])
        } else {
            self.prev_end
        };
        match base {
            None => Some(CoordinatePair { x, y }),
            Some(b) => match (b.x.checked_add(x), b.y.checked_add(y)) {
                (Some(nx), Some(ny)) => Some(CoordinatePair { x: nx, y: ny }),
                _ => None,
            },
        }
    }

    /// The absolute point that `pair` stands for.
    pub fn target(&self, abs: bool, pair: CoordinatePair) -> (r: Option<CoordinatePair>)
        ensures
            r == resolve(self.points(), self.prev_end(), abs, pair.x, pair.y),
    {
        if abs {
            Some(pair)
        } else {
            self.relative_target(pair.x, pair.y)
        }
    }

    /// The point that a MoveTo to `pair` starts its sub-path at: relative
    /// coordinates start from the last point unless the buffer is valid (it
    /// is then handed out first), else from `prev_end`.
    pub fn move_target(&self, abs: bool, pair: CoordinatePair) -> (r: Option<CoordinatePair>)
        ensures
            r == resolve(
                if self.points().len() > 1 {
                    Seq::<CoordinatePair>::empty()
                } else {
                    self.points()
                },
                self.prev_end(),
                abs,
                pair.x,
                pair.y,
            ),
    {
        if abs || self.line.len() <= 1 {
            self.target(abs, pair)
        } else {
            match self.prev_end {
                None => Some(pair),
                Some(b) => match (b.x.checked_add(pair.x), b.y.checked_add(pair.y)) {
                    (Some(nx), Some(ny)) => Some(CoordinatePair { x: nx, y: ny }),
                    _ => None,
                },
            }
        }
    }

    /// Appends the point that the relative `pair` leads to; fails, leaving
    /// the buffer as it was, where that point is out of range.
    pub fn add_relative(&mut self, pair: CoordinatePair) -> (r: Result<(), PathError>)
        ensures
            match resolve(old(self).points(), old(self).prev_end(), false, pair.x, pair.y) {
                Some(p) => r is Ok && final(self).points() == old(self).points().push(p),
                None => r == Err::<(), PathError>(PathError::Overflow) && final(self).points()
                    == old(self).points(),
            },
            final(self).prev_end() == old(self).prev_end(),
            final(self).min_step() == old(self).min_step(),
    {
        match self.relative_target(pair.x, pair.y) {
            Some(p) => {
                self.line.push(p);
                Ok(())
            },
            None => Err(PathError::Overflow),
        }
    }

    /// Whether `p` is close enough to the last point for the filter to
    /// drop it.
    fn filtered(&self, p: CoordinatePair) -> (r: bool)
        ensures
            r == is_filtered(self.points(), p, self.min_step()),
    {
        match self.min_step {
            None => false,
            Some(step) => {
                if self.line.len() == 0 {
                    return false;
                }
                let q = self.line[self.line.len() - 1];
                let dx: i128 = if p.x >= q.x {
                    p.x as i128 - q.x as i128
                } else {
                    q.x as i128 - p.x as i128
                };
                let dy: i128 = if p.y >= q.y {
                    p.y as i128 - q.y as i128
                } else {
                    q.y as i128 - p.y as i128
                };
                dx < step as i128 && dy < step as i128
            },
        }
    }

    /// Appends the point that `pair` stands for (absolute or relative),
    /// unless the point filter is on and drops it.
    pub fn add(&mut self, abs: bool, pair: CoordinatePair) -> (r: Result<(), PathError>)
        ensures
            match resolve(old(self).points(), old(self).prev_end(), abs, pair.x, pair.y) {
                Some(p) => r is Ok && final(self).points() == if is_filtered(
                    old(self).points(),
                    p,
                    old(self).min_step(),
                ) {
                    old(self).points()
                } else {
                    old(self).points().push(p)
                },
                None => r == Err::<(), PathError>(PathError::Overflow) && final(self).points()
                    == old(self).points(),
            },
            final(self).prev_end() == old(self).prev_end(),
            final(self).min_step() == old(self).min_step(),
    {
        match self.target(abs, pair) {
            Some(p) => {
                if !self.filtered(p) {
                    self.line.push(p);
                }
                Ok(())
            },
            None => Err(PathError::Overflow),
        }
    }

    /// A polyline is only valid if it has more than one point.
    pub fn is_valid(&self) -> (r: bool)
        ensures
            r == (self.points().len() > 1),
    {
        self.line.len() > 1
    }

    /// The last point, if the buffer is not empty.
    pub fn last_pair(&self) -> (r: Option<CoordinatePair>)
        ensures
            r == if self.points().len() > 0 {
                Some(self.points().last())
            } else {
                None
            },
    {
        if self.line.len() > 0 {
            Some(self.line[self.line.len() - 1])
        } else {
            None
        }
    }

    /// The last x coordinate, if the buffer is not empty.
    pub fn last_x(&self) -> (r: Option<i64>)
        ensures
            r == if self.points().len() > 0 {
                Some(self.points().last().x)
            } else {
                None
            },
    {
        match self.last_pair() {
            Some(p) => Some(p.x),
            None => None,
        }
    }

    /// The last y coordinate, if the buffer is not empty.
    pub fn last_y(&self) -> (r: Option<i64>)
        ensures
            r == if self.points().len() > 0 {
                Some(self.points().last().y)
            } else {
                None
            },
    {
        match self.last_pair() {
            Some(p) => Some(p.y),
            None => None,
        }
    }

    /// Closes the line by appending its first point, which relative
    /// coordinates then start from once the buffer is emptied. A line of
    /// fewer than two points cannot be closed.
    pub fn close(&mut self) -> (r: Result<(), PathError>)
        ensures
            old(self).points().len() < 2 ==> r == Err::<(), PathError>(
                PathError::InvalidState(InvalidState::CloseTooShort),
            ) && final(self).points() == old(self).points() && final(self).prev_end() == old(
                self,
            ).prev_end(),
            old(self).points().len() >= 2 ==> r is Ok && final(self).points() == old(
                self,
            ).points().push(old(self).points()[0]) && final(self).prev_end() == Some(
                old(self).points()[0],
            ),
            final(self).min_step() == old(self).min_step(),
    {
        if self.line.len() < 2 {
            Err(PathError::InvalidState(InvalidState::CloseTooShort))
        } else {
            let first = self.line[0];
            self.line.push(first);
            self.prev_end = Some(first);
            Ok(())
        }
    }

    /// The number of points in the buffer.
    pub fn len(&self) -> (r: usize)
        ensures
            r == self.points().len(),
    {
        self.line.len()
    }

    /// Hands out the points collected so far and leaves the buffer empty.
    pub fn finish(&mut self) -> (r: Polyline)
        ensures
            r@ == old(self).points(),
            final(self).points() == Seq::<CoordinatePair>::empty(),
            final(self).prev_end() == old(self).prev_end(),
            final(self).min_step() == old(self).min_step(),
    {
        let mut tmp: Polyline = Vec::new();
        std::mem::swap(&mut self.line, &mut tmp);
        tmp
    }
}

} // verus!

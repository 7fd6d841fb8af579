//! The path driver: runs the commands of one path element through a
//! `CurrentLine` and collects the finished polylines.
//!
//! Bézier curves are flattened by the caller. The driver stops at each
//! curve and hands out its control points in absolute coordinates. The
//! caller appends the points that approximate the curve, without its first
//! point and ending at its last. The driver then goes on.
use vstd::prelude::*;
use vstd::string::StringSliceAdditionalSpecFns;
use crate::coord::{CoordinatePair, Polyline, all_points, fits_i64};
use crate::export::drawable;
use crate::current_line::{
    CurrentLine,
    InvalidState,
    PathError,
    resolve,
    is_filtered,
};
use crate::lexer::{PathCommand, LexError, lex, lex_path};

verus! {

/// A Bézier curve in absolute coordinates.
#[derive(Debug, Clone, Copy, PartialEq, Eq, Structural)]
pub enum Curve {
    Cubic {
        from: CoordinatePair,
        ctrl1: CoordinatePair,
        ctrl2: CoordinatePair,
        to: CoordinatePair,
    },
    Quadratic { from: CoordinatePair, ctrl: CoordinatePair, to: CoordinatePair },
}

/// The state of a path element's run: the points of the sub-path being
/// drawn, the point that relative coordinates start from when they are
/// empty, and the polylines finished so far.
pub type Acc = (Seq<CoordinatePair>, Option<CoordinatePair>, Seq<Seq<CoordinatePair>>);

/// The state at the start of a path element.
pub open spec fn initial_acc() -> Acc {
    (Seq::<CoordinatePair>::empty(), None, Seq::<Seq<CoordinatePair>>::empty())
}

/// The state after `line` and `prev_end` are appended to, one point.
pub open spec fn push_point(a: Acc, p: CoordinatePair) -> Acc {
    (a.0.push(p), a.1, a.2)
}

/// What one command does to the state: the next state, with the curve to
/// flatten where the command is a curve; or the error that ends the path
/// element. `min_step` is the point filter of LineTo, when it is on.
pub open spec fn step(cmd: PathCommand, a: Acc, min_step: Option<i64>) -> Result<
    (Acc, Option<Curve>),
    PathError,
> {
    let line = a.0;
    let prev_end = a.1;
    let done = a.2;
    match cmd {
        PathCommand::MoveTo { abs, x, y } => {
            let valid = line.len() > 1;
            let buf = if valid {
                Seq::<CoordinatePair>::empty()
            } else {
                line
            };
            match resolve(buf, prev_end, abs, x, y) {
                None => Err(PathError::Overflow),
                Some(p) => Ok(
                    (
                        (
                            seq![p],
                            prev_end,
                            if valid {
                                done.push(line)
                            } else {
                                done
                            },
                        ),
                        None,
                    ),
                ),
            }
        },
        PathCommand::LineTo { abs, x, y } => match resolve(line, prev_end, abs, x, y) {
            None => Err(PathError::Overflow),
            Some(p) => if is_filtered(line, p, min_step) {
                Ok((a, None))
            } else {
                Ok((push_point(a, p), None))
            },
        },
        PathCommand::HorizontalLineTo { abs, x } => if line.len() == 0 {
            Err(PathError::InvalidState(InvalidState::HorizontalOnEmpty))
        } else if abs {
            Ok((push_point(a, CoordinatePair { x, y: line.last().y }), None))
        } else {
            match resolve(line, prev_end, false, x, 0) {
                None => Err(PathError::Overflow),
                Some(p) => Ok((push_point(a, p), None)),
            }
        },
        PathCommand::VerticalLineTo { abs, y } => if line.len() == 0 {
            Err(PathError::InvalidState(InvalidState::VerticalOnEmpty))
        } else if abs {
            Ok((push_point(a, CoordinatePair { x: line.last().x, y }), None))
        } else {
            match resolve(line, prev_end, false, 0, y) {
                None => Err(PathError::Overflow),
                Some(p) => Ok((push_point(a, p), None)),
            }
        },
        PathCommand::CurveTo { abs, x1, y1, x2, y2, x, y } => if line.len() == 0 {
            Err(PathError::InvalidState(InvalidState::CurveOnEmpty))
        } else {
            match (
                resolve(line, prev_end, abs, x1, y1),
                resolve(line, prev_end, abs, x2, y2),
                resolve(line, prev_end, abs, x, y),
            ) {
                (Some(c1), Some(c2), Some(t)) => Ok(
                    (a, Some(Curve::Cubic { from: line.last(), ctrl1: c1, ctrl2: c2, to: t })),
                ),
                _ => Err(PathError::Overflow),
            }
        },
        PathCommand::Quadratic { abs, x1, y1, x, y } => if line.len() == 0 {
            Err(PathError::InvalidState(InvalidState::QuadraticOnEmpty))
        } else {
            match (resolve(line, prev_end, abs, x1, y1), resolve(line, prev_end, abs, x, y)) {
                (Some(c), Some(t)) => Ok(
                    (a, Some(Curve::Quadratic { from: line.last(), ctrl: c, to: t })),
                ),
                _ => Err(PathError::Overflow),
            }
        },
        PathCommand::ClosePath { .. } => if line.len() < 2 {
            Err(PathError::InvalidState(InvalidState::CloseTooShort))
        } else {
            Ok(((line.push(line[0]), Some(line[0]), done), None))
        },
        PathCommand::Unsupported { kind } => Err(PathError::Unsupported { kind }),
    }
}

/// The polylines finished at the end of the commands: the sub-path being
/// drawn joins them when it has more than one point.
pub open spec fn commit_last(a: Acc) -> Seq<Seq<CoordinatePair>> {
    if a.0.len() > 1 {
        a.2.push(a.0)
    } else {
        a.2
    }
}

/// What a run of `cmds` from index `i` and state `a` gives, where the
/// flattened curves are `flats` in order and `end_error` is the error that
/// ended the commands early, if any. The result is the curve that waits for
/// its points when `flats` runs out first; else the polylines and the error
/// that ended the run. An error keeps only the polylines finished before it.
pub open spec fn run(
    cmds: Seq<PathCommand>,
    i: int,
    a: Acc,
    flats: Seq<Seq<CoordinatePair>>,
    end_error: Option<PathError>,
    min_step: Option<i64>,
) -> (Option<Curve>, Seq<Seq<CoordinatePair>>, Option<PathError>)
    decreases cmds.len() - i,
{
    if i < 0 || i >= cmds.len() {
        match end_error {
            Some(e) => (None, a.2, Some(e)),
            None => (None, commit_last(a), None),
        }
    } else {
        match step(cmds[i], a, min_step) {
            Err(e) => (None, a.2, Some(e)),
            Ok((a2, None)) => run(cmds, i + 1, a2, flats, end_error, min_step),
            Ok((a2, Some(c))) => if flats.len() == 0 {
                (Some(c), a2.2, None)
            } else {
                run(cmds, i + 1, (a2.0 + flats[0], a2.1, a2.2), flats.drop_first(), end_error, min_step)
            },
        }
    }
}

/// The lexer's error as an error of the path element.
pub open spec fn lex_failure(e: Option<LexError>) -> Option<PathError> {
    match e {
        Some(l) => Some(PathError::Lexical { pos: l.pos }),
        None => None,
    }
}

/// What the path data `text` gives where the flattened curves are `flats`.
pub open spec fn path_outcome(text: Seq<u8>, flats: Seq<Seq<CoordinatePair>>, min_step: Option<i64>) -> (
    Option<Curve>,
    Seq<Seq<CoordinatePair>>,
    Option<PathError>,
) {
    run(lex(text).0, 0, initial_acc(), flats, lex_failure(lex(text).1), min_step)
}

/// The state held by a buffer and a list of finished polylines.
pub open spec fn acc_of(line: CurrentLine, lines: Seq<Polyline>) -> Acc {
    (line.points(), line.prev_end(), all_points(lines))
}

proof fn lemma_all_points_push(lines: Seq<Polyline>, p: Polyline)
    ensures
        all_points(lines.push(p)) == all_points(lines).push(p@),
{
    assert(all_points(lines.push(p)) =~= all_points(lines).push(p@));
}

/// Runs one command on the buffer `current_line` and the finished polylines
/// `lines`. A curve is not drawn: it is returned, and the caller appends
/// its flattened points. On an error nothing changes.
pub fn parse_path_token(
    cmd: &PathCommand,
    current_line: &mut CurrentLine,
    lines: &mut Vec<Polyline>,
) -> (r: Result<Option<Curve>, PathError>)
    ensures
        final(current_line).min_step() == old(current_line).min_step(),
        match step(*cmd, acc_of(*old(current_line), old(lines)@), old(current_line).min_step()) {
            Err(e) => r == Err::<Option<Curve>, PathError>(e) && final(current_line).points() == old(
                current_line,
            ).points() && final(current_line).prev_end() == old(current_line).prev_end()
                && final(lines)@ == old(lines)@,
            Ok((a2, c)) => r == Ok::<Option<Curve>, PathError>(c) && acc_of(
                *final(current_line),
                final(lines)@,
            ) == a2,
        },
{
    match *cmd {
        PathCommand::MoveTo { abs, x, y } => {
            match current_line.move_target(abs, CoordinatePair { x, y }) {
                None => Err(PathError::Overflow),
                Some(p) => {
                    if current_line.is_valid() {
                        let ghost before = lines@;
                        let finished = current_line.finish();
                        lines.push(finished);
                        proof {
                            lemma_all_points_push(before, finished);
                        }
                    } else {
                        let _ = current_line.finish();
                    }
                    current_line.add_absolute(p);
                    assert(current_line.points() =~= seq![p]);
                    Ok(None)
                },
            }
        },
        PathCommand::LineTo { abs, x, y } => {
            match current_line.add(abs, CoordinatePair { x, y }) {
                Ok(()) => Ok(None),
                Err(e) => Err(e),
            }
        },
        PathCommand::HorizontalLineTo { abs, x } => {
            match current_line.last_y() {
                None => Err(PathError::InvalidState(InvalidState::HorizontalOnEmpty)),
                Some(y) => {
                    if abs {
                        current_line.add_absolute(CoordinatePair { x, y });
                        Ok(None)
                    } else {
                        match current_line.add_relative(CoordinatePair { x, y: 0 }) {
                            Ok(()) => Ok(None),
                            Err(e) => Err(e),
                        }
                    }
                },
            }
        },
        PathCommand::VerticalLineTo { abs, y } => {
            match current_line.last_x() {
                None => Err(PathError::InvalidState(InvalidState::VerticalOnEmpty)),
                Some(x) => {
                    if abs {
                        current_line.add_absolute(CoordinatePair { x, y });
                        Ok(None)
                    } else {
                        match current_line.add_relative(CoordinatePair { x: 0, y }) {
                            Ok(()) => Ok(None),
                            Err(e) => Err(e),
                        }
                    }
                },
            }
        },
        PathCommand::CurveTo { abs, x1, y1, x2, y2, x, y } => {
            match current_line.last_pair() {
                None => Err(PathError::InvalidState(InvalidState::CurveOnEmpty)),
                Some(from) => {
                    match (
                        current_line.target(abs, CoordinatePair { x: x1, y: y1 }),
                        current_line.target(abs, CoordinatePair { x: x2, y: y2 }),
                        current_line.target(abs, CoordinatePair { x, y }),
                    ) {
                        (Some(ctrl1), Some(ctrl2), Some(to)) => Ok(
                            Some(Curve::Cubic { from, ctrl1, ctrl2, to }),
                        ),
                        _ => Err(PathError::Overflow),
                    }
                },
            }
        },
        PathCommand::Quadratic { abs, x1, y1, x, y } => {
            match current_line.last_pair() {
                None => Err(PathError::InvalidState(InvalidState::QuadraticOnEmpty)),
                Some(from) => {
                    match (
                        current_line.target(abs, CoordinatePair { x: x1, y: y1 }),
                        current_line.target(abs, CoordinatePair { x, y }),
                    ) {
                        (Some(ctrl), Some(to)) => Ok(Some(Curve::Quadratic { from, ctrl, to })),
                        _ => Err(PathError::Overflow),
                    }
                },
            }
        },
        PathCommand::ClosePath { .. } => match current_line.close() {
            Ok(()) => Ok(None),
            Err(e) => Err(e),
        },
        PathCommand::Unsupported { kind } => Err(PathError::Unsupported { kind }),
    }
}


/// The driver of one path element. It reads the path data when made;
/// `advance` then runs the commands up to the next curve, which the caller
/// flattens and hands back with `add_flattened`, until `advance` returns
/// `None`; `finish` then gives the polylines.
pub struct PathParser {
    text: Ghost<Seq<u8>>,
    commands: Vec<PathCommand>,
    end_error: Option<PathError>,
    next: usize,
    current_line: CurrentLine,
    lines: Vec<Polyline>,
    pending: Option<Curve>,
    result: Option<Option<PathError>>,
    supplied: Ghost<Seq<Seq<CoordinatePair>>>,
}

impl PathParser {
    /// The path data.
    pub closed spec fn text(&self) -> Seq<u8> {
        self.text@
    }

    /// The flattened curves handed back so far, in order.
    pub closed spec fn supplied(&self) -> Seq<Seq<CoordinatePair>> {
        self.supplied@
    }

    /// The minimum step of the LineTo point filter, when it is on.
    pub closed spec fn min_step(&self) -> Option<i64> {
        self.current_line.min_step()
    }

    /// The curve that waits for its flattened points.
    pub closed spec fn pending(&self) -> Option<Curve> {
        self.pending
    }

    /// Whether all commands have been run, or an error ended the run.
    pub closed spec fn is_done(&self) -> bool {
        self.result is Some
    }

    spec fn acc(&self) -> Acc {
        acc_of(self.current_line, self.lines@)
    }

    /// The driver's state matches a run of the commands over the points
    /// handed back so far.
    pub closed spec fn wf(&self) -> bool {
        let cmds = self.commands@;
        let ee = self.end_error;
        let ms = self.current_line.min_step();
        &&& cmds == lex(self.text@).0
        &&& ee == lex_failure(lex(self.text@).1)
        &&& self.next <= cmds.len()
        &&& self.result is Some ==> self.pending is None
        &&& self.result is Some ==> forall|h: Seq<Seq<CoordinatePair>>| #[trigger]
            run(cmds, 0, initial_acc(), self.supplied@ + h, ee, ms) == (
            None::<Curve>,
            all_points(self.lines@),
            self.result->Some_0,
        )
        &&& self.result is None ==> forall|h: Seq<Seq<CoordinatePair>>| #[trigger]
            run(cmds, 0, initial_acc(), self.supplied@ + h, ee, ms) == run(
            cmds,
            self.next as int,
            self.acc(),
            h,
            ee,
            ms,
        )
        &&& self.pending is Some ==> {
            &&& self.next < cmds.len()
            &&& step(cmds[self.next as int], self.acc(), ms) == Ok::<(Acc, Option<Curve>), PathError>(
                (self.acc(), self.pending),
            )
        }
    }

    fn start(d: &str, current_line: CurrentLine) -> (r: PathParser)
        requires
            current_line.points() == Seq::<CoordinatePair>::empty(),
            current_line.prev_end() is None,
        ensures
            r.wf(),
            r.text() == d.spec_bytes(),
            r.supplied() == Seq::<Seq<CoordinatePair>>::empty(),
            r.min_step() == current_line.min_step(),
            r.pending() is None,
            !r.is_done(),
    {
        let lexed = lex_path(d);
        let end_error = match lexed.error {
            Some(e) => Some(PathError::Lexical { pos: e.pos }),
            None => None,
        };
        let r = PathParser {
            text: Ghost(d.spec_bytes()),
            commands: lexed.commands,
            end_error,
            next: 0,
            current_line,
            lines: Vec::new(),
            pending: None,
            result: None,
            supplied: Ghost(Seq::empty()),
        };
        assert(all_points(r.lines@) =~= Seq::<Seq<CoordinatePair>>::empty());
        assert forall|h: Seq<Seq<CoordinatePair>>|
            #[trigger] run(r.commands@, 0, initial_acc(), r.supplied@ + h, r.end_error, r.min_step())
                == run(r.commands@, 0, r.acc(), h, r.end_error, r.min_step()) by {
            assert(r.supplied@ + h =~= h);
        }
        r
    }

    /// A driver for the path data `d`, with the point filter off.
    pub fn new(d: &str) -> (r: PathParser)
        ensures
            r.wf(),
            r.text() == d.spec_bytes(),
            r.supplied() == Seq::<Seq<CoordinatePair>>::empty(),
            r.min_step() is None,
            r.pending() is None,
            !r.is_done(),
    {
        PathParser::start(d, CurrentLine::new())
    }

    /// A driver for the path data `d` whose LineTo commands skip a point
    /// that lies closer than `min_step` to the last one along both axes.
    pub fn with_min_step(d: &str, min_step: i64) -> (r: PathParser)
        ensures
            r.wf(),
            r.text() == d.spec_bytes(),
            r.supplied() == Seq::<Seq<CoordinatePair>>::empty(),
            r.min_step() == Some(min_step),
            r.pending() is None,
            !r.is_done(),
    {
        PathParser::start(d, CurrentLine::with_min_step(min_step))
    }

    /// Runs the commands up to the next curve and returns it, in absolute
    /// coordinates; `None` once the run is over.
    pub fn advance(&mut self) -> (r: Option<Curve>)
        requires
            old(self).wf(),
        ensures
            final(self).wf(),
            final(self).text() == old(self).text(),
            final(self).supplied() == old(self).supplied(),
            final(self).min_step() == old(self).min_step(),
            r == final(self).pending(),
            r == path_outcome(final(self).text(), final(self).supplied(), final(self).min_step()).0,
            r is None <==> final(self).is_done(),
    {
        proof {
            let e = Seq::<Seq<CoordinatePair>>::empty();
            assert(self.supplied@ + e =~= self.supplied@);
            assert(run(self.commands@, 0, initial_acc(), self.supplied@ + e, self.end_error, self.min_step())
                == run(self.commands@, 0, initial_acc(), self.supplied@, self.end_error, self.min_step()));
        }
        if self.pending.is_some() {
            return self.pending;
        }
        if self.result.is_some() {
            return None;
        }
        loop
            invariant
                self.wf(),
                self.text() == old(self).text(),
                self.supplied() == old(self).supplied(),
                self.min_step() == old(self).min_step(),
                self.result is None,
                self.pending is None,
                self.supplied@ + Seq::<Seq<CoordinatePair>>::empty() == self.supplied@,
            decreases self.commands@.len() - self.next,
        {
            if self.next >= self.commands.len() {
                match self.end_error {
                    Some(e) => {
                        self.result = Some(Some(e));
                    },
                    None => {
                        if self.current_line.is_valid() {
                            let ghost before = self.lines@;
                            let finished = self.current_line.finish();
                            self.lines.push(finished);
                            proof {
                                lemma_all_points_push(before, finished);
                            }
                        }
                        self.result = Some(None);
                    },
                }
                return None;
            }
            let cmd = self.commands[self.next];
            match parse_path_token(&cmd, &mut self.current_line, &mut self.lines) {
                Err(e) => {
                    self.result = Some(Some(e));
                    return None;
                },
                Ok(None) => {
                    self.next = self.next + 1;
                },
                Ok(Some(c)) => {
                    self.pending = Some(c);
                    return Some(c);
                },
            }
        }
    }

    /// Hands back the flattened points of the pending curve: the points
    /// after its start, ending at its end. They are appended as they are.
    pub fn add_flattened(&mut self, points: &Vec<CoordinatePair>)
        requires
            old(self).wf(),
            old(self).pending() is Some,
        ensures
            final(self).wf(),
            final(self).text() == old(self).text(),
            final(self).supplied() == old(self).supplied().push(points@),
            final(self).min_step() == old(self).min_step(),
            final(self).pending() is None,
            !final(self).is_done(),
    {
        let ghost old_sup = self.supplied@;
        assert(self.next < self.commands.len());
        self.current_line.add_all(points);
        self.pending = None;
        self.next = self.next + 1;
        self.supplied = Ghost(self.supplied@.push(points@));
        assert forall|h: Seq<Seq<CoordinatePair>>|
            #[trigger] run(self.commands@, 0, initial_acc(), self.supplied@ + h, self.end_error, self.min_step())
                == run(self.commands@, self.next as int, self.acc(), h, self.end_error, self.min_step()) by {
            assert(self.supplied@ + h =~= old_sup + (seq![points@] + h));
            assert((seq![points@] + h).drop_first() =~= h);
            assert((seq![points@] + h)[0] == points@);
        }
    }

    /// The polylines of the path element, and the error that ended its run
    /// early, if any: after an error, only the polylines finished before it.
    pub fn finish(self) -> (r: (Vec<Polyline>, Option<PathError>))
        requires
            self.wf(),
            self.is_done(),
        ensures
            all_points(r.0@) == path_outcome(self.text(), self.supplied(), self.min_step()).1,
            r.1 == path_outcome(self.text(), self.supplied(), self.min_step()).2,
    {
        proof {
            let e = Seq::<Seq<CoordinatePair>>::empty();
            assert(self.supplied@ + e =~= self.supplied@);
            assert(run(self.commands@, 0, initial_acc(), self.supplied@ + e, self.end_error, self.min_step())
                == run(self.commands@, 0, initial_acc(), self.supplied@, self.end_error, self.min_step()));
        }
        let e = match self.result {
            Some(e) => e,
            None => None,
        };
        (self.lines, e)
    }
}


/// An absolute MoveTo to `p`.
pub open spec fn move_to(p: CoordinatePair) -> PathCommand {
    PathCommand::MoveTo { abs: true, x: p.x, y: p.y }
}

/// An absolute LineTo to `p`.
pub open spec fn line_to(p: CoordinatePair) -> PathCommand {
    PathCommand::LineTo { abs: true, x: p.x, y: p.y }
}

/// Absolute LineTo commands to the points of `pts` from index `k` on.
pub open spec fn line_tos(pts: Seq<CoordinatePair>, k: int) -> Seq<PathCommand> {
    pts.subrange(k, pts.len() as int).map_values(|p: CoordinatePair| line_to(p))
}

/// The commands that draw the sub-path `pts` in absolute coordinates: a
/// MoveTo to its first point, then a LineTo to each other point. In path
/// data this is `M` followed by the coordinate pairs.
pub open spec fn subpath_commands(pts: Seq<CoordinatePair>) -> Seq<PathCommand> {
    seq![move_to(pts[0])] + line_tos(pts, 1)
}

/// The commands that draw each of `subs` in turn.
pub open spec fn subpaths_commands(subs: Seq<Seq<CoordinatePair>>) -> Seq<PathCommand>
    decreases subs.len(),
{
    if subs.len() == 0 {
        Seq::<PathCommand>::empty()
    } else {
        subpath_commands(subs[0]) + subpaths_commands(subs.drop_first())
    }
}

proof fn lemma_drawable_concat(a: Seq<Seq<CoordinatePair>>, b: Seq<Seq<CoordinatePair>>)
    ensures
        drawable(a + b) == drawable(a) + drawable(b),
    decreases b.len(),
{
    if b.len() == 0 {
        assert(a + b =~= a);
        assert(drawable(a) + drawable(b) =~= drawable(a));
    } else {
        lemma_drawable_concat(a, b.drop_last());
        assert((a + b).drop_last() =~= a + b.drop_last());
        assert((a + b).last() == b.last());
        if b.last().len() > 1 {
            assert(drawable(a) + drawable(b) =~= (drawable(a) + drawable(b.drop_last())).push(
                b.last(),
            ));
        }
    }
}

proof fn lemma_drawable_one(p: Seq<CoordinatePair>)
    ensures
        drawable(seq![p]) == if p.len() > 1 {
            seq![p]
        } else {
            Seq::<Seq<CoordinatePair>>::empty()
        },
{
    let e = Seq::<Seq<CoordinatePair>>::empty();
    assert(seq![p].drop_last() =~= e);
    assert(seq![p].last() == p);
    assert(drawable(e) == e);
    assert(e.push(p) =~= seq![p]);
}

/// Running the LineTos of the sub-path `pts` from its point `k` on, then
/// the sub-paths `subs`, from the state where the first `k` points of `pts`
/// are drawn.
proof fn lemma_run_subpaths_from(
    cmds: Seq<PathCommand>,
    i: int,
    pts: Seq<CoordinatePair>,
    k: int,
    done: Seq<Seq<CoordinatePair>>,
    subs: Seq<Seq<CoordinatePair>>,
    flats: Seq<Seq<CoordinatePair>>,
)
    requires
        0 <= i <= cmds.len(),
        1 <= k <= pts.len(),
        forall|j: int| 0 <= j < subs.len() ==> (#[trigger] subs[j]).len() >= 1,
        cmds.subrange(i, cmds.len() as int) == line_tos(pts, k) + subpaths_commands(subs),
    ensures
        run(cmds, i, (pts.subrange(0, k), None, done), flats, None, None) == (
            None::<Curve>,
            done + drawable(seq![pts] + subs),
            None::<PathError>,
        ),
    decreases cmds.len() - i,
{
    let rest = cmds.subrange(i, cmds.len() as int);
    if k < pts.len() {
        assert(rest[0] == line_tos(pts, k)[0]);
        assert(cmds[i] == rest[0]);
        assert(pts.subrange(0, k).push(pts[k]) =~= pts.subrange(0, k + 1));
        assert(cmds.subrange(i + 1, cmds.len() as int) =~= rest.drop_first());
        assert(line_tos(pts, k).drop_first() =~= line_tos(pts, k + 1));
        assert(rest.drop_first() =~= line_tos(pts, k + 1) + subpaths_commands(subs));
        lemma_run_subpaths_from(cmds, i + 1, pts, k + 1, done, subs, flats);
    } else {
        assert(line_tos(pts, k) =~= Seq::<PathCommand>::empty());
        assert(rest =~= subpaths_commands(subs));
        assert(pts.subrange(0, k) =~= pts);
        lemma_drawable_concat(seq![pts], subs);
        lemma_drawable_one(pts);
        let committed = if pts.len() > 1 {
            done.push(pts)
        } else {
            done
        };
        assert(committed =~= done + drawable(seq![pts]));
        if subs.len() == 0 {
            assert(rest.len() == 0);
            assert(subs =~= Seq::<Seq<CoordinatePair>>::empty());
            assert(seq![pts] + subs =~= seq![pts]);
            assert(committed + drawable(subs) =~= committed);
        } else {
            let q = subs[0];
            assert(q.len() >= 1);
            assert(rest[0] == move_to(q[0]));
            assert(cmds[i] == rest[0]);
            assert(seq![q[0]] =~= q.subrange(0, 1));
            assert(cmds.subrange(i + 1, cmds.len() as int) =~= rest.drop_first());
            assert(rest.drop_first() =~= line_tos(q, 1) + subpaths_commands(subs.drop_first()));
            assert forall|j: int| 0 <= j < subs.drop_first().len() implies (
            #[trigger] subs.drop_first()[j]).len() >= 1 by {
                assert(subs.drop_first()[j] == subs[j + 1]);
            }
            lemma_run_subpaths_from(cmds, i + 1, q, 1, committed, subs.drop_first(), flats);
            lemma_drawable_concat(seq![q], subs.drop_first());
            assert(seq![q] + subs.drop_first() =~= subs);
            assert(committed + drawable(seq![q] + subs.drop_first()) =~= done + (drawable(seq![pts])
                + drawable(subs)));
        }
    }
}

/// A path made of absolute sub-paths, each a MoveTo to its first point and
/// a LineTo to each other point, gives exactly the sub-paths of two points
/// or more, in order: a MoveTo finishes the sub-path before it when that
/// has two points or more, and drops a single point; the last sub-path is
/// kept only if it has two points or more.
pub proof fn lemma_subpaths_give_polylines(
    subs: Seq<Seq<CoordinatePair>>,
    flats: Seq<Seq<CoordinatePair>>,
)
    requires
        forall|j: int| 0 <= j < subs.len() ==> (#[trigger] subs[j]).len() >= 1,
    ensures
        run(subpaths_commands(subs), 0, initial_acc(), flats, None, None) == (
            None::<Curve>,
            drawable(subs),
            None::<PathError>,
        ),
{
    let cmds = subpaths_commands(subs);
    if subs.len() == 0 {
        assert(cmds.len() == 0);
    } else {
        let q = subs[0];
        assert(q.len() >= 1);
        assert(cmds[0] == move_to(q[0]));
        assert(seq![q[0]] =~= q.subrange(0, 1));
        assert(cmds.subrange(1, cmds.len() as int) =~= line_tos(q, 1) + subpaths_commands(
            subs.drop_first(),
        ));
        assert forall|j: int| 0 <= j < subs.drop_first().len() implies (
        #[trigger] subs.drop_first()[j]).len() >= 1 by {
            assert(subs.drop_first()[j] == subs[j + 1]);
        }
        lemma_run_subpaths_from(
            cmds,
            1,
            q,
            1,
            Seq::<Seq<CoordinatePair>>::empty(),
            subs.drop_first(),
            flats,
        );
        assert(seq![q] + subs.drop_first() =~= subs);
        assert(Seq::<Seq<CoordinatePair>>::empty() + drawable(subs) =~= drawable(subs));
    }
}

/// A single absolute sub-path of `N >= 2` points, a MoveTo to the first
/// and a LineTo to each other one, gives exactly one polyline: its `N`
/// points, in order.
pub proof fn lemma_one_subpath(pts: Seq<CoordinatePair>, flats: Seq<Seq<CoordinatePair>>)
    requires
        pts.len() >= 2,
    ensures
        run(subpath_commands(pts), 0, initial_acc(), flats, None, None) == (
            None::<Curve>,
            seq![pts],
            None::<PathError>,
        ),
{
    let subs = seq![pts];
    assert(subs.drop_first() =~= Seq::<Seq<CoordinatePair>>::empty());
    assert(subpaths_commands(subs.drop_first()) =~= Seq::<PathCommand>::empty());
    assert(subpaths_commands(subs) =~= subpath_commands(pts));
    lemma_subpaths_give_polylines(subs, flats);
    lemma_drawable_one(pts);
}

/// An unsupported command ends the run of its path element with an error
/// that names it, and keeps the polylines finished before it; the buffer
/// being drawn is dropped.
pub proof fn lemma_unsupported_ends_element(
    cmds: Seq<PathCommand>,
    i: int,
    a: Acc,
    flats: Seq<Seq<CoordinatePair>>,
    end_error: Option<PathError>,
    min_step: Option<i64>,
)
    requires
        0 <= i < cmds.len(),
        cmds[i] is Unsupported,
    ensures
        run(cmds, i, a, flats, end_error, min_step) == (
            None::<Curve>,
            a.2,
            Some(PathError::Unsupported { kind: cmds[i]->Unsupported_kind }),
        ),
{
}


/// A ClosePath on a sub-path of `L >= 2` points appends its first point:
/// the sub-path then has `L + 1` points, its first and last equal, and
/// relative coordinates start from that point once a MoveTo empties it.
pub proof fn lemma_close_appends_first(a: Acc, abs: bool, min_step: Option<i64>)
    requires
        a.0.len() >= 2,
    ensures
        step(PathCommand::ClosePath { abs }, a, min_step) is Ok,
        ({
            let a2 = step(PathCommand::ClosePath { abs }, a, min_step)->Ok_0.0;
            &&& a2.0.len() == a.0.len() + 1
            &&& a2.0[0] == a.0[0]
            &&& a2.0.last() == a.0[0]
            &&& a2.0.subrange(0, a.0.len() as int) == a.0
            &&& a2.1 == Some(a.0[0])
            &&& a2.2 == a.2
        }),
{
    let a2 = step(PathCommand::ClosePath { abs }, a, min_step)->Ok_0.0;
    assert(a2.0.subrange(0, a.0.len() as int) =~= a.0);
}


/// Whether every polyline of `ls` has two points or more.
pub open spec fn all_valid(ls: Seq<Seq<CoordinatePair>>) -> bool {
    forall|k: int| 0 <= k < ls.len() ==> (#[trigger] ls[k]).len() > 1
}

proof fn lemma_run_keeps_valid(
    cmds: Seq<PathCommand>,
    i: int,
    a: Acc,
    flats: Seq<Seq<CoordinatePair>>,
    end_error: Option<PathError>,
    min_step: Option<i64>,
)
    requires
        all_valid(a.2),
    ensures
        all_valid(run(cmds, i, a, flats, end_error, min_step).1),
    decreases cmds.len() - i,
{
    if i < 0 || i >= cmds.len() {
        if a.0.len() > 1 {
            assert(all_valid(a.2.push(a.0)));
        }
    } else {
        match step(cmds[i], a, min_step) {
            Err(e) => {},
            Ok((a2, c)) => {
                if let PathCommand::MoveTo { .. } = cmds[i] {
                    if a.0.len() > 1 {
                        assert(all_valid(a.2.push(a.0)));
                    }
                }
                assert(all_valid(a2.2));
                match c {
                    None => lemma_run_keeps_valid(cmds, i + 1, a2, flats, end_error, min_step),
                    Some(_) => if flats.len() > 0 {
                        lemma_run_keeps_valid(
                            cmds,
                            i + 1,
                            (a2.0 + flats[0], a2.1, a2.2),
                            flats.drop_first(),
                            end_error,
                            min_step,
                        );
                    },
                }
            },
        }
    }
}

/// Every polyline that a path element gives has two points or more,
/// whatever its path data and whatever points its curves were flattened
/// to.
pub proof fn lemma_polylines_have_two_points(
    text: Seq<u8>,
    flats: Seq<Seq<CoordinatePair>>,
    min_step: Option<i64>,
)
    ensures
        all_valid(path_outcome(text, flats, min_step).1),
{
    lemma_run_keeps_valid(
        lex(text).0,
        0,
        initial_acc(),
        flats,
        lex_failure(lex(text).1),
        min_step,
    );
}


/// A HorizontalLineTo or VerticalLineTo right after a point keeps the
/// other coordinate of that point: an absolute one appends `(x, l.y)` or
/// `(l.x, y)`, a relative one `(l.x + x, l.y)` or `(l.x, l.y + y)`, where
/// `l` is the last point; nothing else changes.
pub proof fn lemma_horizontal_vertical(a: Acc, abs: bool, v: i64, min_step: Option<i64>)
    requires
        a.0.len() > 0,
        fits_i64(a.0.last().x + v),
        fits_i64(a.0.last().y + v),
    ensures
        ({
            let l = a.0.last();
            &&& step(PathCommand::HorizontalLineTo { abs, x: v }, a, min_step) == Ok::<
                (Acc, Option<Curve>),
                PathError,
            >(
                (
                    push_point(
                        a,
                        if abs {
                            CoordinatePair { x: v, y: l.y }
                        } else {
                            CoordinatePair { x: (l.x + v) as i64, y: l.y }
                        },
                    ),
                    None,
                ),
            )
            &&& step(PathCommand::VerticalLineTo { abs, y: v }, a, min_step) == Ok::<
                (Acc, Option<Curve>),
                PathError,
            >(
                (
                    push_point(
                        a,
                        if abs {
                            CoordinatePair { x: l.x, y: v }
                        } else {
                            CoordinatePair { x: l.x, y: (l.y + v) as i64 }
                        },
                    ),
                    None,
                ),
            )
        }),
{
}

/// After a ClosePath, a relative MoveTo finishes the closed sub-path and
/// starts the next one at the closed sub-path's first point moved by the
/// offset: `M 10,10 20,15 10,20 Z m 0,40` starts at `(10, 50)`.
pub proof fn lemma_relative_move_after_close(a: Acc, x: i64, y: i64, min_step: Option<i64>)
    requires
        a.0.len() >= 2,
        fits_i64(a.0[0].x + x),
        fits_i64(a.0[0].y + y),
    ensures
        ({
            let closed = step(PathCommand::ClosePath { abs: true }, a, min_step)->Ok_0.0;
            let start = CoordinatePair { x: (a.0[0].x + x) as i64, y: (a.0[0].y + y) as i64 };
            step(PathCommand::MoveTo { abs: false, x, y }, closed, min_step) == Ok::<
                (Acc, Option<Curve>),
                PathError,
            >(((seq![start], Some(a.0[0]), a.2.push(a.0.push(a.0[0]))), None))
        }),
{
}

} // verus!

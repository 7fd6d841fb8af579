//! The path-data lexer: the text of a `d` attribute to path commands.
//!
//! Grammar, on the bytes of the text:
//! - spaces (space, tab, line feed, carriage return) separate tokens;
//! - a command letter is case-sensitive: upper case is absolute, lower case
//!   relative; the first command must be a MoveTo (`M` or `m`);
//! - operands are numbers `[+-]? digits* ('.' digits*)?` with at least one
//!   digit, each followed by optional spaces, an optional comma and optional
//!   spaces; there is no exponent notation;
//! - a number where a command letter is expected repeats the previous
//!   command (after a MoveTo: a LineTo of the same case); after a ClosePath
//!   that is an error;
//! - `S`, `T` and `A` (either case) are known but not supported: they give an
//!   `Unsupported` command, which ends the sequence;
//! - anything else is a lexical error, which also ends the sequence.
//!
//! A number's value is kept in units of `1 / UNITS_PER_WHOLE`: digits after
//! the ninth decimal place are dropped. A number whose magnitude does not
//! fit in an `i64` in these units is a lexical error.
use vstd::prelude::*;
use crate::coord::UNITS_PER_WHOLE;
use vstd::string::StringSliceAdditionalSpecFns;

verus! {

/// One command of path data. Coordinates are in fixed-point units.
#[derive(Debug, Clone, Copy, PartialEq, Eq, Structural)]
pub enum PathCommand {
    MoveTo { abs: bool, x: i64, y: i64 },
    LineTo { abs: bool, x: i64, y: i64 },
    HorizontalLineTo { abs: bool, x: i64 },
    VerticalLineTo { abs: bool, y: i64 },
    CurveTo { abs: bool, x1: i64, y1: i64, x2: i64, y2: i64, x: i64, y: i64 },
    Quadratic { abs: bool, x1: i64, y1: i64, x: i64, y: i64 },
    ClosePath { abs: bool },
    /// A known command that is not supported; `kind` is its letter.
    Unsupported { kind: u8 },
}

/// Where the text stopped being path data: the byte offset of the token
/// that could not be read.
#[derive(Debug, Clone, Copy, PartialEq, Eq, Structural)]
pub struct LexError {
    pub pos: usize,
}

/// What the lexer found: the commands read, and the error that ended the
/// text early, if one did.
#[derive(Debug)]
pub struct Lexed {
    pub commands: Vec<PathCommand>,
    pub error: Option<LexError>,
}

pub open spec fn is_space(c: u8) -> bool {
    c == 0x20 || c == 0x09 || c == 0x0a || c == 0x0d
}

pub open spec fn is_digit(c: u8) -> bool {
    0x30 <= c <= 0x39
}

/// The first position at or after `i` that is not a space.
pub open spec fn skip_spaces(b: Seq<u8>, i: int) -> int
    decreases b.len() - i,
{
    if 0 <= i < b.len() && is_space(b[i]) {
        skip_spaces(b, i + 1)
    } else {
        i
    }
}

/// The first position at or after `i` that is not a digit.
pub open spec fn digits_end(b: Seq<u8>, i: int) -> int
    decreases b.len() - i,
{
    if 0 <= i < b.len() && is_digit(b[i]) {
        digits_end(b, i + 1)
    } else {
        i
    }
}

/// The decimal value of the digits `b[i..j]`.
pub open spec fn digits_value(b: Seq<u8>, i: int, j: int) -> int
    decreases j - i,
{
    if i < j {
        digits_value(b, i, j - 1) * 10 + (b[j - 1] - 0x30)
    } else {
        0
    }
}

/// The digits `b[i..j]` after a decimal point, in fixed-point units: the
/// digit at `i` is worth `place` units, each next one a tenth of that, and
/// digits worth less than a unit are dropped.
pub open spec fn fraction_units(b: Seq<u8>, i: int, j: int, place: int) -> int
    decreases j - i,
{
    if i < j && place > 0 {
        (b[i] - 0x30) * place + fraction_units(b, i + 1, j, place / 10)
    } else {
        0
    }
}

/// Value of the first digit after the decimal point.
pub open spec fn first_place() -> int {
    (UNITS_PER_WHOLE as int) / 10
}

/// The position after a number's separator: spaces, an optional comma,
/// spaces.
pub open spec fn after_separator(b: Seq<u8>, i: int) -> int {
    let j = skip_spaces(b, i);
    if 0 <= j < b.len() && b[j] == 0x2c {
        skip_spaces(b, j + 1)
    } else {
        j
    }
}

/// The number that starts at `i` after optional spaces, as its value in
/// fixed-point units and the position after its separator; `None` where no
/// number stands there or its magnitude does not fit in an `i64`.
pub open spec fn number_at(b: Seq<u8>, i: int) -> Option<(int, int)> {
    let s0 = skip_spaces(b, i);
    let signed = s0 < b.len() && (b[s0] == 0x2b || b[s0] == 0x2d);
    let negative = s0 < b.len() && b[s0] == 0x2d;
    let s = if signed { s0 + 1 } else { s0 };
    let ie = digits_end(b, s);
    let has_dot = ie < b.len() && b[ie] == 0x2e;
    let fs = if has_dot { ie + 1 } else { ie };
    let fe = digits_end(b, fs);
    let magnitude = digits_value(b, s, ie) * (UNITS_PER_WHOLE as int) + fraction_units(b, fs, fe, first_place());
    if ie == s && fe == fs {
        None
    } else if magnitude > i64::MAX {
        None
    } else {
        Some((if negative { -magnitude } else { magnitude }, after_separator(b, fe)))
    }
}

/// `n` numbers in a row from `i`, and the position after the last one.
pub open spec fn numbers_at(b: Seq<u8>, i: int, n: nat) -> Option<(Seq<int>, int)>
    decreases n,
{
    if n == 0 {
        Some((seq![], i))
    } else {
        match number_at(b, i) {
            None => None,
            Some((v, e)) => match numbers_at(b, e, (n - 1) as nat) {
                None => None,
                Some((vs, e2)) => Some((seq![v] + vs, e2)),
            },
        }
    }
}

pub open spec fn is_command_letter(c: u8) -> bool {
    c == 0x4d || c == 0x6d || c == 0x5a || c == 0x7a || c == 0x4c || c == 0x6c || c == 0x48
        || c == 0x68 || c == 0x56 || c == 0x76 || c == 0x43 || c == 0x63 || c == 0x53 || c
        == 0x73 || c == 0x51 || c == 0x71 || c == 0x54 || c == 0x74 || c == 0x41 || c == 0x61
}

/// The lower-case form of a command letter.
pub open spec fn lower(c: u8) -> u8 {
    if 0x41 <= c <= 0x5a {
        (c + 0x20) as u8
    } else {
        c
    }
}

pub open spec fn is_upper(c: u8) -> bool {
    0x41 <= c <= 0x5a
}

/// How many numbers follow a supported command letter.
pub open spec fn arity(l: u8) -> nat {
    if l == 0x6d || l == 0x6c {
        2
    } else if l == 0x68 || l == 0x76 {
        1
    } else if l == 0x63 {
        6
    } else if l == 0x71 {
        4
    } else {
        0
    }
}

/// Whether a letter names a command this library does not support.
pub open spec fn is_unsupported_letter(c: u8) -> bool {
    let l = lower(c);
    l == 0x73 || l == 0x74 || l == 0x61
}

/// The command named by `letter`, with operands `ns`.
pub open spec fn build_command(letter: u8, ns: Seq<int>) -> PathCommand {
    let abs = is_upper(letter);
    let l = lower(letter);
    if l == 0x6d {
        PathCommand::MoveTo { abs, x: ns[0] as i64, y: ns[1] as i64 }
    } else if l == 0x6c {
        PathCommand::LineTo { abs, x: ns[0] as i64, y: ns[1] as i64 }
    } else if l == 0x68 {
        PathCommand::HorizontalLineTo { abs, x: ns[0] as i64 }
    } else if l == 0x76 {
        PathCommand::VerticalLineTo { abs, y: ns[0] as i64 }
    } else if l == 0x63 {
        PathCommand::CurveTo {
            abs,
            x1: ns[0] as i64,
            y1: ns[1] as i64,
            x2: ns[2] as i64,
            y2: ns[3] as i64,
            x: ns[4] as i64,
            y: ns[5] as i64,
        }
    } else if l == 0x71 {
        PathCommand::Quadratic {
            abs,
            x1: ns[0] as i64,
            y1: ns[1] as i64,
            x: ns[2] as i64,
            y: ns[3] as i64,
        }
    } else {
        PathCommand::ClosePath { abs }
    }
}

/// The command `letter` with its operands read from `k`, and the position
/// after them.
pub open spec fn operands_at(b: Seq<u8>, k: int, letter: u8) -> Option<(PathCommand, int)> {
    if is_unsupported_letter(letter) {
        Some((PathCommand::Unsupported { kind: letter }, k))
    } else {
        match numbers_at(b, k, arity(lower(letter))) {
            None => None,
            Some((ns, e)) => Some((build_command(letter, ns), e)),
        }
    }
}

/// The letter of the command that a bare number after `prev` repeats.
pub open spec fn repeated_letter(prev: u8) -> u8 {
    if prev == 0x4d {
        0x4c
    } else if prev == 0x6d {
        0x6c
    } else {
        prev
    }
}

/// The command at `j` (a position that is not a space), given the letter of
/// the previous command: the command, the position after it, and its letter.
pub open spec fn command_at(b: Seq<u8>, j: int, prev: Option<u8>) -> Option<(PathCommand, int, u8)> {
    let c = b[j];
    if is_command_letter(c) {
        if prev is None && c != 0x4d && c != 0x6d {
            None
        } else {
            match operands_at(b, j + 1, c) {
                None => None,
                Some((cmd, e)) => Some((cmd, e, c)),
            }
        }
    } else if (is_digit(c) || c == 0x2e || c == 0x2d || c == 0x2b) && prev is Some {
        let p = prev->Some_0;
        if lower(p) == 0x7a {
            None
        } else {
            let letter = repeated_letter(p);
            match operands_at(b, j, letter) {
                None => None,
                Some((cmd, e)) => Some((cmd, e, letter)),
            }
        }
    } else {
        None
    }
}

/// The commands of `b` from position `i` on, after a command with letter
/// `prev`, and the error that ends them early, if any.
pub open spec fn lex_from(b: Seq<u8>, i: int, prev: Option<u8>) -> (Seq<PathCommand>, Option<LexError>)
    decreases b.len() - i,
{
    let j = skip_spaces(b, i);
    if !(0 <= i <= j) || j >= b.len() {
        (seq![], None)
    } else {
        match command_at(b, j, prev) {
            None => (seq![], Some(LexError { pos: j as usize })),
            Some((cmd, k, letter)) => if cmd is Unsupported {
                (seq![cmd], None)
            } else if j < k <= b.len() {
                let rest = lex_from(b, k, Some(letter));
                (seq![cmd] + rest.0, rest.1)
            } else {
                (seq![], Some(LexError { pos: j as usize }))
            },
        }
    }
}

/// The commands of the path data `b`, and the error that ends them early.
pub open spec fn lex(b: Seq<u8>) -> (Seq<PathCommand>, Option<LexError>) {
    lex_from(b, 0, None)
}


proof fn lemma_digits_end_after(b: Seq<u8>, i: int)
    ensures
        digits_end(b, i) >= i,
    decreases b.len() - i,
{
    if 0 <= i < b.len() && is_digit(b[i]) {
        lemma_digits_end_after(b, i + 1);
    }
}

/// Largest whole part whose value in units fits in an `i64`.
const MAX_WHOLE: i64 = 9_223_372_036;

const FIRST_PLACE: i64 = 100_000_000;

fn is_space_byte(c: u8) -> (r: bool)
    ensures
        r == is_space(c),
{
    c == 0x20 || c == 0x09 || c == 0x0a || c == 0x0d
}

fn is_digit_byte(c: u8) -> (r: bool)
    ensures
        r == is_digit(c),
{
    0x30 <= c && c <= 0x39
}

fn skip_spaces_at(b: &[u8], i: usize) -> (r: usize)
    requires
        i <= b@.len(),
    ensures
        r as int == skip_spaces(b@, i as int),
        i <= r <= b@.len(),
{
    let mut j = i;
    while j < b.len() && is_space_byte(b[j])
        invariant
            i <= j <= b@.len(),
            skip_spaces(b@, j as int) == skip_spaces(b@, i as int),
        decreases b@.len() - j,
    {
        j = j + 1;
    }
    j
}

fn after_separator_at(b: &[u8], i: usize) -> (r: usize)
    requires
        i <= b@.len(),
    ensures
        r as int == after_separator(b@, i as int),
        i <= r <= b@.len(),
{
    let j = skip_spaces_at(b, i);
    if j < b.len() && b[j] == 0x2c {
        skip_spaces_at(b, j + 1)
    } else {
        j
    }
}

/// Reads the number that starts at `i` after optional spaces, with the
/// separator after it.
pub fn parse_number(b: &[u8], i: usize) -> (r: Option<(i64, usize)>)
    requires
        i <= b@.len(),
    ensures
        match r {
            None => number_at(b@, i as int) is None,
            Some((v, e)) => number_at(b@, i as int) == Some((v as int, e as int)) && e <= b@.len(),
        },
{
    let n = b.len();
    let s0 = skip_spaces_at(b, i);
    let negative = s0 < n && b[s0] == 0x2d;
    let signed = s0 < n && (b[s0] == 0x2b || b[s0] == 0x2d);
    let s = if signed { s0 + 1 } else { s0 };
    let mut p = s;
    let mut whole: i64 = 0;
    let mut big = false;
    while p < n && is_digit_byte(b[p])
        invariant
            s <= p <= n,
            n == b@.len(),
            digits_end(b@, p as int) == digits_end(b@, s as int),
            digits_value(b@, s as int, p as int) >= 0,
            !big ==> whole == digits_value(b@, s as int, p as int) && whole <= MAX_WHOLE,
            big ==> digits_value(b@, s as int, p as int) > MAX_WHOLE,
        decreases n - p,
    {
        let d = (b[p] - 0x30) as i64;
        if !big {
            let next = whole * 10 + d;
            if next > MAX_WHOLE {
                big = true;
            } else {
                whole = next;
            }
        }
        p = p + 1;
    }
    let ie = p;
    let has_dot = ie < n && b[ie] == 0x2e;
    let fs = if has_dot { ie + 1 } else { ie };
    let mut q = fs;
    let mut frac: i64 = 0;
    let mut place: i64 = FIRST_PLACE;
    while q < n && is_digit_byte(b[q])
        invariant
            fs <= q <= n,
            n == b@.len(),
            digits_end(b@, q as int) == digits_end(b@, fs as int),
            0 <= place,
            0 <= frac,
            frac + place * 10 <= UNITS_PER_WHOLE,
            frac + fraction_units(b@, q as int, digits_end(b@, q as int), place as int)
                == fraction_units(b@, fs as int, digits_end(b@, fs as int), first_place()),
        decreases n - q,
    {
        let d = (b[q] - 0x30) as i64;
        proof {
            lemma_digits_end_after(b@, q as int + 1);
        }
        assert(fraction_units(b@, q as int, digits_end(b@, q as int), place as int) == if place > 0 {
            d * place + fraction_units(b@, q + 1, digits_end(b@, q + 1), place / 10)
        } else {
            0
        });
        if place > 0 {
            assert(d * place <= 9 * place) by (nonlinear_arith)
                requires
                    0 <= d <= 9,
                    0 <= place,
            ;
            frac = frac + d * place;
        }
        place = place / 10;
        q = q + 1;
    }
    let fe = q;
    if ie == s && fe == fs {
        return None;
    }
    if big {
        return None;
    }
    let scaled = whole * UNITS_PER_WHOLE;
    if frac > i64::MAX - scaled {
        return None;
    }
    let magnitude = scaled + frac;
    let value = if negative { -magnitude } else { magnitude };
    let e = after_separator_at(b, fe);
    Some((value, e))
}

/// Reads `n` numbers in a row from `k`.
fn read_numbers(b: &[u8], k: usize, n: usize) -> (r: Option<(Vec<i64>, usize)>)
    requires
        k <= b@.len(),
    ensures
        match r {
            None => numbers_at(b@, k as int, n as nat) is None,
            Some((vs, e)) => {
                &&& numbers_at(b@, k as int, n as nat) is Some
                &&& numbers_at(b@, k as int, n as nat)->Some_0.0 == vs@.map_values(|v: i64| v as int)
                &&& numbers_at(b@, k as int, n as nat)->Some_0.1 == e as int
                &&& vs@.len() == n
                &&& e <= b@.len()
            },
        },
    decreases n,
{
    if n == 0 {
        let empty: Vec<i64> = Vec::new();
        assert(empty@.map_values(|v: i64| v as int) =~= seq![]);
        return Some((empty, k));
    }
    match parse_number(b, k) {
        None => None,
        Some((v, e)) => match read_numbers(b, e, n - 1) {
            None => None,
            Some((vs, e2)) => {
                let mut out = vs;
                let ghost rest = out@;
                out.insert(0, v);
                assert(out@.map_values(|v: i64| v as int) =~= seq![v as int] + rest.map_values(
                    |v: i64| v as int,
                ));
                Some((out, e2))
            },
        },
    }
}

fn is_command_byte(c: u8) -> (r: bool)
    ensures
        r == is_command_letter(c),
{
    c == 0x4d || c == 0x6d || c == 0x5a || c == 0x7a || c == 0x4c || c == 0x6c || c == 0x48
        || c == 0x68 || c == 0x56 || c == 0x76 || c == 0x43 || c == 0x63 || c == 0x53 || c
        == 0x73 || c == 0x51 || c == 0x71 || c == 0x54 || c == 0x74 || c == 0x41 || c == 0x61
}

fn lower_byte(c: u8) -> (r: u8)
    ensures
        r == lower(c),
{
    if 0x41 <= c && c <= 0x5a {
        c + 0x20
    } else {
        c
    }
}

fn arity_of(l: u8) -> (r: usize)
    ensures
        r as nat == arity(l),
{
    if l == 0x6d || l == 0x6c {
        2
    } else if l == 0x68 || l == 0x76 {
        1
    } else if l == 0x63 {
        6
    } else if l == 0x71 {
        4
    } else {
        0
    }
}

fn build(letter: u8, ns: &Vec<i64>) -> (r: PathCommand)
    requires
        ns@.len() == arity(lower(letter)),
    ensures
        r == build_command(letter, ns@.map_values(|v: i64| v as int)),
{
    let abs = 0x41 <= letter && letter <= 0x5a;
    let l = lower_byte(letter);
    if l == 0x6d {
        PathCommand::MoveTo { abs, x: ns[0], y: ns[1] }
    } else if l == 0x6c {
        PathCommand::LineTo { abs, x: ns[0], y: ns[1] }
    } else if l == 0x68 {
        PathCommand::HorizontalLineTo { abs, x: ns[0] }
    } else if l == 0x76 {
        PathCommand::VerticalLineTo { abs, y: ns[0] }
    } else if l == 0x63 {
        PathCommand::CurveTo { abs, x1: ns[0], y1: ns[1], x2: ns[2], y2: ns[3], x: ns[4], y: ns[5] }
    } else if l == 0x71 {
        PathCommand::Quadratic { abs, x1: ns[0], y1: ns[1], x: ns[2], y: ns[3] }
    } else {
        PathCommand::ClosePath { abs }
    }
}

fn operands(b: &[u8], k: usize, letter: u8) -> (r: Option<(PathCommand, usize)>)
    requires
        k <= b@.len(),
    ensures
        match r {
            None => operands_at(b@, k as int, letter) is None,
            Some((c, e)) => operands_at(b@, k as int, letter) == Some((c, e as int)) && e
                <= b@.len(),
        },
{
    let l = lower_byte(letter);
    if l == 0x73 || l == 0x74 || l == 0x61 {
        return Some((PathCommand::Unsupported { kind: letter }, k));
    }
    match read_numbers(b, k, arity_of(l)) {
        None => None,
        Some((ns, e)) => Some((build(letter, &ns), e)),
    }
}

fn command(b: &[u8], j: usize, prev: Option<u8>) -> (r: Option<(PathCommand, usize, u8)>)
    requires
        j < b@.len(),
    ensures
        match r {
            None => command_at(b@, j as int, prev) is None,
            Some((c, k, l)) => command_at(b@, j as int, prev) == Some((c, k as int, l)) && k
                <= b@.len(),
        },
{
    let c = b[j];
    if is_command_byte(c) {
        if prev.is_none() && c != 0x4d && c != 0x6d {
            return None;
        }
        match operands(b, j + 1, c) {
            None => None,
            Some((cmd, e)) => Some((cmd, e, c)),
        }
    } else if is_digit_byte(c) || c == 0x2e || c == 0x2d || c == 0x2b {
        match prev {
            None => None,
            Some(p) => {
                if lower_byte(p) == 0x7a {
                    return None;
                }
                let letter = if p == 0x4d {
                    0x4c
                } else if p == 0x6d {
                    0x6c
                } else {
                    p
                };
                match operands(b, j, letter) {
                    None => None,
                    Some((cmd, e)) => Some((cmd, e, letter)),
                }
            },
        }
    } else {
        None
    }
}

/// Reads the path data `d` into commands. Stops at the first token that
/// cannot be read, and after an unsupported command.
pub fn lex_path(d: &str) -> (r: Lexed)
    ensures
        (r.commands@, r.error) == lex(d.spec_bytes()),
{
    let b = d.as_bytes();
    let mut cmds: Vec<PathCommand> = Vec::new();
    let mut i: usize = 0;
    let mut prev: Option<u8> = None;
    loop
        invariant
            i <= b@.len(),
            b@ == d.spec_bytes(),
            cmds@ + lex_from(b@, i as int, prev).0 == lex(b@).0,
            lex_from(b@, i as int, prev).1 == lex(b@).1,
        decreases b@.len() - i,
    {
        let j = skip_spaces_at(b, i);
        if j >= b.len() {
            assert(cmds@ + seq![] =~= cmds@);
            return Lexed { commands: cmds, error: None };
        }
        match command(b, j, prev) {
            None => {
                assert(cmds@ + seq![] =~= cmds@);
                return Lexed { commands: cmds, error: Some(LexError { pos: j }) };
            },
            Some((cmd, k, letter)) => {
                if let PathCommand::Unsupported { .. } = cmd {
                    cmds.push(cmd);
                    return Lexed { commands: cmds, error: None };
                }
                if k <= j {
                    assert(cmds@ + seq![] =~= cmds@);
                    return Lexed { commands: cmds, error: Some(LexError { pos: j }) };
                }
                let ghost before = cmds@;
                let ghost rest = lex_from(b@, k as int, Some(letter));
                cmds.push(cmd);
                assert(before + (seq![cmd] + rest.0) =~= cmds@ + rest.0);
                i = k;
                prev = Some(letter);
            },
        }
    }
}

} // verus!

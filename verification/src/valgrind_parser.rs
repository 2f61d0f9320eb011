//! Grammar of the profiler's trace format.
//!
//! The trace is line oriented. The lines that carry call-graph information
//! are: function assignments (`fn=`), call records (an optional `cob=` line,
//! a `cfn=` line, a `calls=` line and a cost line), and bare cost lines whose
//! leading marker moves the running instruction pointer. Every other line is
//! recognized and discarded.
//!
//! Each recognizer has a specification twin over `Seq<char>`; the executable
//! functions are proved to return exactly what the specification says.

use vstd::prelude::*;

verus! {

use crate::numtext::str_to_char_vec;

/// A compressed reference to a function or object name: a numeric id, a
/// textual label, either, or both.
#[derive(Clone, Debug, PartialEq, Eq)]
pub struct PositionName {
    pub number: Option<u64>,
    pub trailing: Option<String>,
}

/// Mathematical model of a [`PositionName`]: the label is a character
/// sequence.
pub struct SpecPositionName {
    pub number: Option<u64>,
    pub trailing: Option<Seq<char>>,
}

impl View for PositionName {
    type V = SpecPositionName;

    open spec fn view(&self) -> SpecPositionName {
        SpecPositionName {
            number: self.number,
            trailing: match self.trailing {
                Some(s) => Some(s@),
                None => None,
            },
        }
    }
}

/// The three encodings of a position in a cost line: a full address, a
/// signed delta against the running instruction pointer, or "same as
/// before".
#[derive(Clone, Debug, PartialEq, Eq, Structural)]
pub enum InstrCounter {
    Absolute(u64),
    Relative(i64),
    Same(),
}

/// A full call record: the callee's name reference, the target position,
/// the origin position, and the `cob=` object-file line that precedes the
/// record when the callee lives in another object file.
#[derive(Clone, Debug, PartialEq, Eq)]
pub struct CfnLine {
    pub position_name: PositionName,
    pub target_instr: InstrCounter,
    pub from_instr: InstrCounter,
    pub next_object_file: Option<PositionName>,
}

/// Mathematical model of a [`CfnLine`].
pub struct SpecCfnLine {
    pub position_name: SpecPositionName,
    pub target_instr: InstrCounter,
    pub from_instr: InstrCounter,
    pub next_object_file: Option<SpecPositionName>,
}

impl View for CfnLine {
    type V = SpecCfnLine;

    open spec fn view(&self) -> SpecCfnLine {
        SpecCfnLine {
            position_name: self.position_name@,
            target_instr: self.target_instr,
            from_instr: self.from_instr,
            next_object_file: match self.next_object_file {
                Some(pn) => Some(pn@),
                None => None,
            },
        }
    }
}

/// One recognized line (or line group) of the trace that carries call-graph
/// information.
#[derive(Clone, Debug, PartialEq, Eq)]
pub enum ValgrindLine {
    FnLine(PositionName),
    CfnLine(CfnLine),
    InstrCounter(InstrCounter),
}

/// Mathematical model of a [`ValgrindLine`].
pub enum SpecValgrindLine {
    FnLine(SpecPositionName),
    CfnLine(SpecCfnLine),
    InstrCounter(InstrCounter),
}

impl View for ValgrindLine {
    type V = SpecValgrindLine;

    open spec fn view(&self) -> SpecValgrindLine {
        match self {
            ValgrindLine::FnLine(pn) => SpecValgrindLine::FnLine(pn@),
            ValgrindLine::CfnLine(c) => SpecValgrindLine::CfnLine(c@),
            ValgrindLine::InstrCounter(c) => SpecValgrindLine::InstrCounter(*c),
        }
    }
}

// ---------------------------------------------------------------------------
// Character classes and scans
// ---------------------------------------------------------------------------

pub open spec fn is_dec_digit(c: char) -> bool {
    48 <= c as u32 <= 57
}

pub open spec fn dec_digit_val(c: char) -> nat {
    (c as u32 - 48) as nat
}

pub open spec fn is_hex_digit(c: char) -> bool {
    is_dec_digit(c) || 97 <= c as u32 <= 102 || 65 <= c as u32 <= 70
}

pub open spec fn hex_digit_val(c: char) -> nat {
    if is_dec_digit(c) {
        dec_digit_val(c)
    } else if 97 <= c as u32 <= 102 {
        (c as u32 - 87) as nat
    } else {
        (c as u32 - 55) as nat
    }
}

pub open spec fn is_space_char(c: char) -> bool {
    c == ' ' || c == '\t'
}

/// First position at or after `pos` whose character is not a decimal digit.
pub open spec fn dec_run_end(s: Seq<char>, pos: int) -> int
    decreases s.len() - pos,
{
    if pos < 0 || pos >= s.len() || !is_dec_digit(s[pos]) {
        pos
    } else {
        dec_run_end(s, pos + 1)
    }
}

/// First position at or after `pos` whose character is not a hexadecimal
/// digit.
pub open spec fn hex_run_end(s: Seq<char>, pos: int) -> int
    decreases s.len() - pos,
{
    if pos < 0 || pos >= s.len() || !is_hex_digit(s[pos]) {
        pos
    } else {
        hex_run_end(s, pos + 1)
    }
}

/// First position at or after `pos` whose character is not a space or tab.
pub open spec fn space_run_end(s: Seq<char>, pos: int) -> int
    decreases s.len() - pos,
{
    if pos < 0 || pos >= s.len() || !is_space_char(s[pos]) {
        pos
    } else {
        space_run_end(s, pos + 1)
    }
}

/// Position of the first `'\n'` at or after `pos`, if any.
pub open spec fn newline_pos(s: Seq<char>, pos: int) -> Option<int>
    decreases s.len() - pos,
{
    if pos < 0 || pos >= s.len() {
        None
    } else if s[pos] == '\n' {
        Some(pos)
    } else {
        newline_pos(s, pos + 1)
    }
}

/// Value of the decimal digits `s[i..j]`, most significant first.
pub open spec fn dec_value(s: Seq<char>, i: int, j: int) -> nat
    decreases j - i,
{
    if j <= i {
        0
    } else {
        dec_value(s, i, j - 1) * 10 + dec_digit_val(s[j - 1])
    }
}

/// Value of the hexadecimal digits `s[i..j]`, most significant first.
pub open spec fn hex_value(s: Seq<char>, i: int, j: int) -> nat
    decreases j - i,
{
    if j <= i {
        0
    } else {
        hex_value(s, i, j - 1) * 16 + hex_digit_val(s[j - 1])
    }
}

// ---------------------------------------------------------------------------
// Specification parsers
// ---------------------------------------------------------------------------

/// One or more decimal digits read as a `u64`; no match when there is no
/// digit or the run's value does not fit.
pub open spec fn spec_parse_u64(s: Seq<char>, pos: int) -> Option<(u64, int)> {
    let end = dec_run_end(s, pos);
    if end == pos || dec_value(s, pos, end) > u64::MAX {
        None
    } else {
        Some((dec_value(s, pos, end) as u64, end))
    }
}

/// One or more hexadecimal digits read as a `u64`; no match when there is
/// no digit or the run's value does not fit.
pub open spec fn spec_parse_hex64(s: Seq<char>, pos: int) -> Option<(u64, int)> {
    let end = hex_run_end(s, pos);
    if end == pos || hex_value(s, pos, end) > u64::MAX {
        None
    } else {
        Some((hex_value(s, pos, end) as u64, end))
    }
}

/// `"(" digits ")"`.
pub open spec fn spec_parse_paren_number(s: Seq<char>, pos: int) -> Option<(u64, int)> {
    if pos < s.len() && s[pos] == '(' {
        match spec_parse_u64(s, pos + 1) {
            Some((n, p)) => if p < s.len() && s[p] == ')' {
                Some((n, p + 1))
            } else {
                None
            },
            None => None,
        }
    } else {
        None
    }
}

/// Everything up to (not including) the next `'\n'`, which must exist, then
/// the `'\n'` itself.
pub open spec fn spec_parse_till_eol(s: Seq<char>, pos: int) -> Option<int> {
    match newline_pos(s, pos) {
        Some(nl) => Some(nl + 1),
        None => None,
    }
}

/// A line terminator: `"\n"` or `"\r\n"`.
pub open spec fn spec_parse_line_ending(s: Seq<char>, pos: int) -> Option<int> {
    if pos < s.len() && s[pos] == '\n' {
        Some(pos + 1)
    } else if pos + 1 < s.len() && s[pos] == '\r' && s[pos + 1] == '\n' {
        Some(pos + 2)
    } else {
        None
    }
}

/// An optional parenthesized id, then an optional label: one or more spaces
/// followed by the rest of the line (only when a `'\n'` terminates it).
/// Never fails; both parts may be absent.
pub open spec fn spec_parse_position_name(s: Seq<char>, pos: int) -> (SpecPositionName, int) {
    let number = match spec_parse_paren_number(s, pos) {
        Some((n, _)) => Some(n),
        None => None,
    };
    let p1 = match spec_parse_paren_number(s, pos) {
        Some((_, p)) => p,
        None => pos,
    };
    let se = space_run_end(s, p1);
    if se > p1 {
        match newline_pos(s, se) {
            Some(nl) => (SpecPositionName { number, trailing: Some(s.subrange(se, nl)) }, nl),
            None => (SpecPositionName { number, trailing: None }, p1),
        }
    } else {
        (SpecPositionName { number, trailing: None }, p1)
    }
}

pub open spec fn tag_fn_at(s: Seq<char>, pos: int) -> bool {
    pos + 3 <= s.len() && s[pos] == 'f' && s[pos + 1] == 'n' && s[pos + 2] == '='
}

pub open spec fn tag_cfn_at(s: Seq<char>, pos: int) -> bool {
    pos + 4 <= s.len() && s[pos] == 'c' && s[pos + 1] == 'f' && s[pos + 2] == 'n' && s[pos + 3]
        == '='
}

pub open spec fn tag_cob_at(s: Seq<char>, pos: int) -> bool {
    pos + 4 <= s.len() && s[pos] == 'c' && s[pos + 1] == 'o' && s[pos + 2] == 'b' && s[pos + 3]
        == '='
}

pub open spec fn tag_calls_at(s: Seq<char>, pos: int) -> bool {
    pos + 6 <= s.len() && s[pos] == 'c' && s[pos + 1] == 'a' && s[pos + 2] == 'l' && s[pos + 3]
        == 'l' && s[pos + 4] == 's' && s[pos + 5] == '='
}

/// `"fn="` then a position name then a line terminator.
pub open spec fn spec_parse_fn_line(s: Seq<char>, pos: int) -> Option<(SpecPositionName, int)> {
    if tag_fn_at(s, pos) {
        let pn = spec_parse_position_name(s, pos + 3).0;
        let p = spec_parse_position_name(s, pos + 3).1;
        match spec_parse_line_ending(s, p) {
            Some(p2) => Some((pn, p2)),
            None => None,
        }
    } else {
        None
    }
}

/// `"cob="` then a position name then a line terminator.
pub open spec fn spec_parse_cob_line(s: Seq<char>, pos: int) -> Option<(SpecPositionName, int)> {
    if tag_cob_at(s, pos) {
        let pn = spec_parse_position_name(s, pos + 4).0;
        let p = spec_parse_position_name(s, pos + 4).1;
        match spec_parse_line_ending(s, p) {
            Some(p2) => Some((pn, p2)),
            None => None,
        }
    } else {
        None
    }
}

/// `"cfn="` then a position name then a line terminator.
pub open spec fn spec_parse_cfn_header(s: Seq<char>, pos: int) -> Option<(SpecPositionName, int)> {
    if tag_cfn_at(s, pos) {
        let pn = spec_parse_position_name(s, pos + 4).0;
        let p = spec_parse_position_name(s, pos + 4).1;
        match spec_parse_line_ending(s, p) {
            Some(p2) => Some((pn, p2)),
            None => None,
        }
    } else {
        None
    }
}

/// A position marker: `"+"digits` (forward delta), `"-"digits` (backward
/// delta), `"0x"hexdigits` (absolute address) or `"*"` (unchanged). The
/// leading character decides; the alternatives cannot overlap.
pub open spec fn spec_parse_subposition(s: Seq<char>, pos: int) -> Option<(InstrCounter, int)> {
    if pos >= s.len() {
        None
    } else if s[pos] == '+' {
        match spec_parse_u64(s, pos + 1) {
            Some((v, p)) => Some((InstrCounter::Relative(crate::spec_as_signed64(v)), p)),
            None => None,
        }
    } else if s[pos] == '-' {
        match spec_parse_u64(s, pos + 1) {
            Some((v, p)) => Some(
                (
                    InstrCounter::Relative(
                        vstd::wrapping::i64_specs::wrapping_sub(0i64, crate::spec_as_signed64(v)),
                    ),
                    p,
                ),
            ),
            None => None,
        }
    } else if pos + 1 < s.len() && s[pos] == '0' && s[pos + 1] == 'x' {
        match spec_parse_hex64(s, pos + 2) {
            Some((v, p)) => Some((InstrCounter::Absolute(v), p)),
            None => None,
        }
    } else if s[pos] == '*' {
        Some((InstrCounter::Same(), pos + 1))
    } else {
        None
    }
}

/// A cost line: a subposition, optional spaces, and the rest of the line
/// (costs), discarded through the terminator.
pub open spec fn spec_parse_costline(s: Seq<char>, pos: int) -> Option<(InstrCounter, int)> {
    match spec_parse_subposition(s, pos) {
        Some((c, p)) => match spec_parse_till_eol(s, space_run_end(s, p)) {
            Some(p2) => Some((c, p2)),
            None => None,
        },
        None => None,
    }
}

/// `"calls="` then a count, spaces, and the target subposition with the rest
/// of its line.
pub open spec fn spec_parse_calls_line(s: Seq<char>, pos: int) -> Option<(InstrCounter, int)> {
    if tag_calls_at(s, pos) {
        match spec_parse_u64(s, pos + 6) {
            Some((_, p)) => {
                let se = space_run_end(s, p);
                if se > p {
                    spec_parse_costline(s, se)
                } else {
                    None
                }
            },
            None => None,
        }
    } else {
        None
    }
}

/// A whole call record: an optional `cob=` line, the `cfn=` line, the
/// `calls=` line giving the target, and the cost line giving the origin.
pub open spec fn spec_parse_cfn(s: Seq<char>, pos: int) -> Option<(SpecCfnLine, int)> {
    let next_object_file = match spec_parse_cob_line(s, pos) {
        Some((pn, _)) => Some(pn),
        None => None,
    };
    let p0 = match spec_parse_cob_line(s, pos) {
        Some((_, p)) => p,
        None => pos,
    };
    match spec_parse_cfn_header(s, p0) {
        Some((pn, p1)) => match spec_parse_calls_line(s, p1) {
            Some((target, p2)) => match spec_parse_costline(s, p2) {
                Some((from, p3)) => Some(
                    (
                        SpecCfnLine {
                            position_name: pn,
                            target_instr: target,
                            from_instr: from,
                            next_object_file,
                        },
                        p3,
                    ),
                ),
                None => None,
            },
            None => None,
        },
        None => None,
    }
}

/// One line of the trace: a cost line, a function assignment, a call
/// record, or — failing those — any line consumed and discarded.
pub open spec fn spec_parse_line(s: Seq<char>, pos: int) -> Option<
    (Option<SpecValgrindLine>, int),
> {
    match spec_parse_costline(s, pos) {
        Some((c, p)) => Some((Some(SpecValgrindLine::InstrCounter(c)), p)),
        None => match spec_parse_fn_line(s, pos) {
            Some((pn, p)) => Some((Some(SpecValgrindLine::FnLine(pn)), p)),
            None => match spec_parse_cfn(s, pos) {
                Some((c, p)) => Some((Some(SpecValgrindLine::CfnLine(c)), p)),
                None => match spec_parse_till_eol(s, pos) {
                    Some(p) => Some((None, p)),
                    None => None,
                },
            },
        },
    }
}

/// The whole trace: lines parsed left to right until one cannot be consumed
/// (end of input, or a final line without a terminator). `None` entries are
/// lines that carry no call-graph information.
pub open spec fn spec_parse_file(s: Seq<char>, pos: int) -> Seq<Option<SpecValgrindLine>>
    decreases s.len() - pos,
{
    if pos < 0 || pos > s.len() {
        Seq::empty()
    } else {
        match spec_parse_line(s, pos) {
            Some((l, p)) => if pos < p <= s.len() {
                seq![l] + spec_parse_file(s, p)
            } else {
                Seq::empty()
            },
            None => Seq::empty(),
        }
    }
}

/// The recognized lines of a parse, in order.
pub open spec fn collect_lines(parsed: Seq<Option<SpecValgrindLine>>) -> Seq<SpecValgrindLine>
    decreases parsed.len(),
{
    if parsed.len() == 0 {
        Seq::empty()
    } else {
        collect_lines(parsed.drop_last()) + match parsed.last() {
            Some(l) => seq![l],
            None => Seq::empty(),
        }
    }
}

/// How many lines of a parse were consumed and discarded.
pub open spec fn count_skips(parsed: Seq<Option<SpecValgrindLine>>) -> nat
    decreases parsed.len(),
{
    if parsed.len() == 0 {
        0
    } else {
        count_skips(parsed.drop_last()) + match parsed.last() {
            Some(_) => 0nat,
            None => 1nat,
        }
    }
}

/// The views of a sequence of parsed lines.
pub open spec fn lines_views(lines: Seq<ValgrindLine>) -> Seq<SpecValgrindLine> {
    lines.map_values(|l: ValgrindLine| l@)
}

// ---------------------------------------------------------------------------
// Executable scanners
// ---------------------------------------------------------------------------

fn find_newline(chars: &Vec<char>, pos: usize) -> (r: Option<usize>)
    requires
        pos <= chars.len(),
    ensures
        r is None ==> newline_pos(chars@, pos as int) is None,
        r matches Some(nl) ==> newline_pos(chars@, pos as int) == Some(nl as int) && pos <= nl
            < chars.len(),
{
    let mut i = pos;
    while i < chars.len()
        invariant
            pos <= i <= chars.len(),
            newline_pos(chars@, pos as int) == newline_pos(chars@, i as int),
        decreases chars.len() - i,
    {
        if chars[i] == '\n' {
            return Some(i);
        }
        i = i + 1;
    }
    None
}

fn dec_run_end_at(chars: &Vec<char>, pos: usize) -> (end: usize)
    requires
        pos <= chars.len(),
    ensures
        end as int == dec_run_end(chars@, pos as int),
        pos <= end <= chars.len(),
        forall|k: int| pos <= k < end ==> is_dec_digit(chars@[k]),
{
    let mut i = pos;
    while i < chars.len() && is_dec_digit_exec(chars[i])
        invariant
            pos <= i <= chars.len(),
            dec_run_end(chars@, pos as int) == dec_run_end(chars@, i as int),
            forall|k: int| pos <= k < i ==> is_dec_digit(chars@[k]),
        decreases chars.len() - i,
    {
        i = i + 1;
    }
    i
}

fn hex_run_end_at(chars: &Vec<char>, pos: usize) -> (end: usize)
    requires
        pos <= chars.len(),
    ensures
        end as int == hex_run_end(chars@, pos as int),
        pos <= end <= chars.len(),
        forall|k: int| pos <= k < end ==> is_hex_digit(chars@[k]),
{
    let mut i = pos;
    while i < chars.len() && is_hex_digit_exec(chars[i])
        invariant
            pos <= i <= chars.len(),
            hex_run_end(chars@, pos as int) == hex_run_end(chars@, i as int),
            forall|k: int| pos <= k < i ==> is_hex_digit(chars@[k]),
        decreases chars.len() - i,
    {
        i = i + 1;
    }
    i
}

fn space_run_end_at(chars: &Vec<char>, pos: usize) -> (end: usize)
    requires
        pos <= chars.len(),
    ensures
        end as int == space_run_end(chars@, pos as int),
        pos <= end <= chars.len(),
{
    let mut i = pos;
    while i < chars.len() && (chars[i] == ' ' || chars[i] == '\t')
        invariant
            pos <= i <= chars.len(),
            space_run_end(chars@, pos as int) == space_run_end(chars@, i as int),
        decreases chars.len() - i,
    {
        i = i + 1;
    }
    i
}

#[verifier::when_used_as_spec(is_dec_digit)]
fn is_dec_digit_exec(c: char) -> (r: bool)
    ensures
        r == is_dec_digit(c),
{
    let v = c as u32;
    48 <= v && v <= 57
}

#[verifier::when_used_as_spec(is_hex_digit)]
fn is_hex_digit_exec(c: char) -> (r: bool)
    ensures
        r == is_hex_digit(c),
{
    let v = c as u32;
    (48 <= v && v <= 57) || (97 <= v && v <= 102) || (65 <= v && v <= 70)
}

// ---------------------------------------------------------------------------
// Value monotonicity: a digit run's value only grows with its length
// ---------------------------------------------------------------------------

proof fn lemma_dec_value_monotone(s: Seq<char>, i: int, j: int, k: int)
    requires
        i <= j <= k,
    ensures
        dec_value(s, i, j) <= dec_value(s, i, k),
    decreases k - j,
{
    if j < k {
        lemma_dec_value_monotone(s, i, j, k - 1);
        assert(dec_value(s, i, k - 1) * 10 >= dec_value(s, i, k - 1));
    }
}

proof fn lemma_hex_value_monotone(s: Seq<char>, i: int, j: int, k: int)
    requires
        i <= j <= k,
    ensures
        hex_value(s, i, j) <= hex_value(s, i, k),
    decreases k - j,
{
    if j < k {
        lemma_hex_value_monotone(s, i, j, k - 1);
        assert(hex_value(s, i, k - 1) * 16 >= hex_value(s, i, k - 1));
    }
}

// ---------------------------------------------------------------------------
// Executable parsers
// ---------------------------------------------------------------------------

fn parse_u64_at(chars: &Vec<char>, pos: usize) -> (r: Option<(u64, usize)>)
    requires
        pos <= chars.len(),
    ensures
        r is None ==> spec_parse_u64(chars@, pos as int) is None,
        r matches Some(v) ==> spec_parse_u64(chars@, pos as int) == Some((v.0, v.1 as int)) && pos
            <= v.1 <= chars.len(),
{
    let end = dec_run_end_at(chars, pos);
    if end == pos {
        return None;
    }
    let mut acc: u64 = 0;
    let mut i = pos;
    while i < end
        invariant
            pos <= i <= end <= chars.len(),
            end as int == dec_run_end(chars@, pos as int),
            forall|k: int| pos <= k < end ==> is_dec_digit(chars@[k]),
            acc == dec_value(chars@, pos as int, i as int),
        decreases end - i,
    {
        let c = chars[i];
        let d: u64 = (c as u32 - 48) as u64;
        let next = match acc.checked_mul(10) {
            Some(m) => m.checked_add(d),
            None => None,
        };
        match next {
            Some(n) => {
                acc = n;
            },
            None => {
                proof {
                    assert(dec_value(chars@, pos as int, i + 1) > u64::MAX);
                    lemma_dec_value_monotone(chars@, pos as int, i + 1, end as int);
                }
                return None;
            },
        }
        i = i + 1;
    }
    Some((acc, end))
}

pub(crate) fn parse_hex64_at(chars: &Vec<char>, pos: usize) -> (r: Option<(u64, usize)>)
    requires
        pos <= chars.len(),
    ensures
        r is None ==> spec_parse_hex64(chars@, pos as int) is None,
        r matches Some(v) ==> spec_parse_hex64(chars@, pos as int) == Some((v.0, v.1 as int)) && pos
            <= v.1 <= chars.len(),
{
    let end = hex_run_end_at(chars, pos);
    if end == pos {
        return None;
    }
    let mut acc: u64 = 0;
    let mut i = pos;
    while i < end
        invariant
            pos <= i <= end <= chars.len(),
            end as int == hex_run_end(chars@, pos as int),
            forall|k: int| pos <= k < end ==> is_hex_digit(chars@[k]),
            acc == hex_value(chars@, pos as int, i as int),
        decreases end - i,
    {
        let c = chars[i];
        let v = c as u32;
        let d: u64 = if 48 <= v && v <= 57 {
            (v - 48) as u64
        } else if 97 <= v && v <= 102 {
            (v - 87) as u64
        } else {
            (v - 55) as u64
        };
        let next = match acc.checked_mul(16) {
            Some(m) => m.checked_add(d),
            None => None,
        };
        match next {
            Some(n) => {
                acc = n;
            },
            None => {
                proof {
                    assert(hex_value(chars@, pos as int, i + 1) > u64::MAX);
                    lemma_hex_value_monotone(chars@, pos as int, i + 1, end as int);
                }
                return None;
            },
        }
        i = i + 1;
    }
    Some((acc, end))
}

fn parse_paren_number_at(chars: &Vec<char>, pos: usize) -> (r: Option<(u64, usize)>)
    requires
        pos <= chars.len(),
    ensures
        r is None ==> spec_parse_paren_number(chars@, pos as int) is None,
        r matches Some(v) ==> spec_parse_paren_number(chars@, pos as int) == Some(
            (v.0, v.1 as int),
        ) && pos <= v.1 <= chars.len(),
{
    if pos < chars.len() && chars[pos] == '(' {
        match parse_u64_at(chars, pos + 1) {
            Some((n, p)) => {
                if p < chars.len() && chars[p] == ')' {
                    Some((n, p + 1))
                } else {
                    None
                }
            },
            None => None,
        }
    } else {
        None
    }
}

fn parse_line_ending_at(chars: &Vec<char>, pos: usize) -> (r: Option<usize>)
    requires
        pos <= chars.len(),
    ensures
        r is None ==> spec_parse_line_ending(chars@, pos as int) is None,
        r matches Some(p) ==> spec_parse_line_ending(chars@, pos as int) == Some(p as int) && pos
            < p <= chars.len(),
{
    if pos < chars.len() && chars[pos] == '\n' {
        Some(pos + 1)
    } else if pos < chars.len() && chars.len() - pos >= 2 && chars[pos] == '\r' && chars[pos + 1]
        == '\n' {
        Some(pos + 2)
    } else {
        None
    }
}

fn parse_till_eol_at(chars: &Vec<char>, pos: usize) -> (r: Option<usize>)
    requires
        pos <= chars.len(),
    ensures
        r is None ==> spec_parse_till_eol(chars@, pos as int) is None,
        r matches Some(p) ==> spec_parse_till_eol(chars@, pos as int) == Some(p as int) && pos < p
            <= chars.len(),
{
    match find_newline(chars, pos) {
        Some(nl) => Some(nl + 1),
        None => None,
    }
}

fn parse_position_name_at(input: &str, chars: &Vec<char>, pos: usize) -> (r: (PositionName, usize))
    requires
        chars@ == input@,
        pos <= chars.len(),
    ensures
        r.0@ == spec_parse_position_name(chars@, pos as int).0,
        r.1 as int == spec_parse_position_name(chars@, pos as int).1,
        pos <= r.1 <= chars.len(),
{
    broadcast use vstd::string::group_string_axioms;

    let (number, p1) = match parse_paren_number_at(chars, pos) {
        Some((n, p)) => (Some(n), p),
        None => (None, pos),
    };
    let se = space_run_end_at(chars, p1);
    if se > p1 {
        match find_newline(chars, se) {
            Some(nl) => {
                let t = input.substring_char(se, nl).to_owned();
                (PositionName { number, trailing: Some(t) }, nl)
            },
            None => (PositionName { number, trailing: None }, p1),
        }
    } else {
        (PositionName { number, trailing: None }, p1)
    }
}

fn tag_fn_check(chars: &Vec<char>, pos: usize) -> (r: bool)
    requires
        pos <= chars.len(),
    ensures
        r == tag_fn_at(chars@, pos as int),
{
    chars.len() - pos >= 3 && chars[pos] == 'f' && chars[pos + 1] == 'n' && chars[pos + 2] == '='
}

fn tag_cfn_check(chars: &Vec<char>, pos: usize) -> (r: bool)
    requires
        pos <= chars.len(),
    ensures
        r == tag_cfn_at(chars@, pos as int),
{
    chars.len() - pos >= 4 && chars[pos] == 'c' && chars[pos + 1] == 'f' && chars[pos + 2] == 'n'
        && chars[pos + 3] == '='
}

fn tag_cob_check(chars: &Vec<char>, pos: usize) -> (r: bool)
    requires
        pos <= chars.len(),
    ensures
        r == tag_cob_at(chars@, pos as int),
{
    chars.len() - pos >= 4 && chars[pos] == 'c' && chars[pos + 1] == 'o' && chars[pos + 2] == 'b'
        && chars[pos + 3] == '='
}

fn tag_calls_check(chars: &Vec<char>, pos: usize) -> (r: bool)
    requires
        pos <= chars.len(),
    ensures
        r == tag_calls_at(chars@, pos as int),
{
    chars.len() - pos >= 6 && chars[pos] == 'c' && chars[pos + 1] == 'a' && chars[pos + 2] == 'l'
        && chars[pos + 3] == 'l' && chars[pos + 4] == 's' && chars[pos + 5] == '='
}

fn parse_fn_line_at(input: &str, chars: &Vec<char>, pos: usize) -> (r: Option<(PositionName, usize)>)
    requires
        chars@ == input@,
        pos <= chars.len(),
    ensures
        r is None ==> spec_parse_fn_line(chars@, pos as int) is None,
        r matches Some(v) ==> spec_parse_fn_line(chars@, pos as int) == Some((v.0@, v.1 as int))
            && pos <= v.1 <= chars.len(),
{
    if tag_fn_check(chars, pos) {
        let (pn, p) = parse_position_name_at(input, chars, pos + 3);
        match parse_line_ending_at(chars, p) {
            Some(p2) => Some((pn, p2)),
            None => None,
        }
    } else {
        None
    }
}

fn parse_cob_line_at(input: &str, chars: &Vec<char>, pos: usize) -> (r: Option<
    (PositionName, usize),
>)
    requires
        chars@ == input@,
        pos <= chars.len(),
    ensures
        r is None ==> spec_parse_cob_line(chars@, pos as int) is None,
        r matches Some(v) ==> spec_parse_cob_line(chars@, pos as int) == Some((v.0@, v.1 as int))
            && pos <= v.1 <= chars.len(),
{
    if tag_cob_check(chars, pos) {
        let (pn, p) = parse_position_name_at(input, chars, pos + 4);
        match parse_line_ending_at(chars, p) {
            Some(p2) => Some((pn, p2)),
            None => None,
        }
    } else {
        None
    }
}

fn parse_cfn_header_at(input: &str, chars: &Vec<char>, pos: usize) -> (r: Option<
    (PositionName, usize),
>)
    requires
        chars@ == input@,
        pos <= chars.len(),
    ensures
        r is None ==> spec_parse_cfn_header(chars@, pos as int) is None,
        r matches Some(v) ==> spec_parse_cfn_header(chars@, pos as int) == Some((v.0@, v.1 as int))
            && pos <= v.1 <= chars.len(),
{
    if tag_cfn_check(chars, pos) {
        let (pn, p) = parse_position_name_at(input, chars, pos + 4);
        match parse_line_ending_at(chars, p) {
            Some(p2) => Some((pn, p2)),
            None => None,
        }
    } else {
        None
    }
}

fn parse_subposition_at(chars: &Vec<char>, pos: usize) -> (r: Option<(InstrCounter, usize)>)
    requires
        pos <= chars.len(),
    ensures
        r is None ==> spec_parse_subposition(chars@, pos as int) is None,
        r matches Some(v) ==> spec_parse_subposition(chars@, pos as int) == Some((v.0, v.1 as int))
            && pos <= v.1 <= chars.len(),
{
    if pos >= chars.len() {
        return None;
    }
    let c = chars[pos];
    if c == '+' {
        match parse_u64_at(chars, pos + 1) {
            Some((v, p)) => Some((InstrCounter::Relative(crate::as_signed64(v)), p)),
            None => None,
        }
    } else if c == '-' {
        match parse_u64_at(chars, pos + 1) {
            Some((v, p)) => {
                let sv = crate::as_signed64(v);
                Some((InstrCounter::Relative(0i64.wrapping_sub(sv)), p))
            },
            None => None,
        }
    } else if c == '0' && chars.len() - pos >= 2 && chars[pos + 1] == 'x' {
        match parse_hex64_at(chars, pos + 2) {
            Some((v, p)) => Some((InstrCounter::Absolute(v), p)),
            None => None,
        }
    } else if c == '*' {
        Some((InstrCounter::Same(), pos + 1))
    } else {
        None
    }
}

fn parse_costline_at(chars: &Vec<char>, pos: usize) -> (r: Option<(InstrCounter, usize)>)
    requires
        pos <= chars.len(),
    ensures
        r is None ==> spec_parse_costline(chars@, pos as int) is None,
        r matches Some(v) ==> spec_parse_costline(chars@, pos as int) == Some((v.0, v.1 as int))
            && pos <= v.1 <= chars.len(),
{
    match parse_subposition_at(chars, pos) {
        Some((c, p)) => {
            let se = space_run_end_at(chars, p);
            match parse_till_eol_at(chars, se) {
                Some(p2) => Some((c, p2)),
                None => None,
            }
        },
        None => None,
    }
}

fn parse_calls_line_at(chars: &Vec<char>, pos: usize) -> (r: Option<(InstrCounter, usize)>)
    requires
        pos <= chars.len(),
    ensures
        r is None ==> spec_parse_calls_line(chars@, pos as int) is None,
        r matches Some(v) ==> spec_parse_calls_line(chars@, pos as int) == Some((v.0, v.1 as int))
            && pos <= v.1 <= chars.len(),
{
    if tag_calls_check(chars, pos) {
        match parse_u64_at(chars, pos + 6) {
            Some((_, p)) => {
                let se = space_run_end_at(chars, p);
                if se > p {
                    parse_costline_at(chars, se)
                } else {
                    None
                }
            },
            None => None,
        }
    } else {
        None
    }
}

fn parse_cfn_at(input: &str, chars: &Vec<char>, pos: usize) -> (r: Option<(CfnLine, usize)>)
    requires
        chars@ == input@,
        pos <= chars.len(),
    ensures
        r is None ==> spec_parse_cfn(chars@, pos as int) is None,
        r matches Some(v) ==> spec_parse_cfn(chars@, pos as int) == Some((v.0@, v.1 as int)) && pos
            <= v.1 <= chars.len(),
{
    let (next_object_file, p0) = match parse_cob_line_at(input, chars, pos) {
        Some((pn, p)) => (Some(pn), p),
        None => (None, pos),
    };
    match parse_cfn_header_at(input, chars, p0) {
        Some((pn, p1)) => match parse_calls_line_at(chars, p1) {
            Some((target, p2)) => match parse_costline_at(chars, p2) {
                Some((from, p3)) => Some(
                    (
                        CfnLine {
                            position_name: pn,
                            target_instr: target,
                            from_instr: from,
                            next_object_file,
                        },
                        p3,
                    ),
                ),
                None => None,
            },
            None => None,
        },
        None => None,
    }
}

fn parse_line_at(input: &str, chars: &Vec<char>, pos: usize) -> (r: Option<
    (Option<ValgrindLine>, usize),
>)
    requires
        chars@ == input@,
        pos <= chars.len(),
    ensures
        r is None ==> spec_parse_line(chars@, pos as int) is None,
        r matches Some(v) ==> ({
            let sl = match v.0 {
                Some(l) => Some(l@),
                None => None,
            };
            spec_parse_line(chars@, pos as int) == Some((sl, v.1 as int)) && pos <= v.1
                <= chars.len()
        }),
{
    match parse_costline_at(chars, pos) {
        Some((c, p)) => Some((Some(ValgrindLine::InstrCounter(c)), p)),
        None => match parse_fn_line_at(input, chars, pos) {
            Some((pn, p)) => Some((Some(ValgrindLine::FnLine(pn)), p)),
            None => match parse_cfn_at(input, chars, pos) {
                Some((c, p)) => Some((Some(ValgrindLine::CfnLine(c)), p)),
                None => match parse_till_eol_at(chars, pos) {
                    Some(p) => Some((None, p)),
                    None => None,
                },
            },
        },
    }
}

// ---------------------------------------------------------------------------
// Public entry points
// ---------------------------------------------------------------------------

/// Parse a position name (an optional parenthesized id, then an optional
/// label) at the start of the input. Never fails; returns how many
/// characters were consumed.
pub fn parse_position_name(input: &str) -> (r: (PositionName, usize))
    ensures
        r.0@ == spec_parse_position_name(input@, 0).0,
        r.1 as int == spec_parse_position_name(input@, 0).1,
{
    let chars = str_to_char_vec(input);
    parse_position_name_at(input, &chars, 0)
}

/// Parse one whole call record at the start of the input: an optional
/// `cob=` line, a `cfn=` line, a `calls=` line and a cost line.
pub fn parse_cfn(input: &str) -> (r: Option<(CfnLine, usize)>)
    ensures
        r is None ==> spec_parse_cfn(input@, 0) is None,
        r matches Some(v) ==> spec_parse_cfn(input@, 0) == Some((v.0@, v.1 as int)),
{
    let chars = str_to_char_vec(input);
    parse_cfn_at(input, &chars, 0)
}

/// Parse a whole trace: every line from the start until one cannot be
/// consumed (a truncated final line stops the parse, it never fails).
/// Returns the recognized lines in order and how many lines were consumed
/// and discarded.
pub fn parse_valgrind_file(input: &str) -> (r: (Vec<ValgrindLine>, usize))
    ensures
        lines_views(r.0@) == collect_lines(spec_parse_file(input@, 0)),
        r.1 == count_skips(spec_parse_file(input@, 0)),
{
    let chars = str_to_char_vec(input);
    let mut lines: Vec<ValgrindLine> = Vec::new();
    let mut skipped: usize = 0;
    let mut pos: usize = 0;
    let ghost mut done: Seq<Option<SpecValgrindLine>> = Seq::empty();
    proof {
        assert(done + spec_parse_file(chars@, 0) =~= spec_parse_file(chars@, 0));
    }
    loop
        invariant_except_break
            chars@ == input@,
            pos <= chars.len(),
            skipped <= pos,
            spec_parse_file(chars@, 0) == done + spec_parse_file(chars@, pos as int),
            lines_views(lines@) == collect_lines(done),
            skipped == count_skips(done),
        ensures
            lines_views(lines@) == collect_lines(spec_parse_file(chars@, 0)),
            skipped == count_skips(spec_parse_file(chars@, 0)),
        decreases chars.len() - pos,
    {
        match parse_line_at(input, &chars, pos) {
            Some((line, p)) => {
                if p <= pos {
                    proof {
                        assert(spec_parse_file(chars@, pos as int) =~= Seq::<
                            Option<SpecValgrindLine>,
                        >::empty());
                        assert(spec_parse_file(chars@, 0) =~= done);
                    }
                    break ;
                }
                let ghost sl: Option<SpecValgrindLine> = match &line {
                    Some(l) => Some(l@),
                    None => None,
                };
                proof {
                    assert(spec_parse_file(chars@, pos as int) == seq![sl] + spec_parse_file(
                        chars@,
                        p as int,
                    ));
                    assert(done + spec_parse_file(chars@, pos as int) =~= done.push(sl)
                        + spec_parse_file(chars@, p as int));
                    assert(done.push(sl).drop_last() =~= done);
                }
                match line {
                    Some(l) => {
                        lines.push(l);
                        proof {
                            assert(lines_views(lines@) =~= collect_lines(done.push(sl)));
                        }
                    },
                    None => {
                        skipped = skipped + 1;
                        proof {
                            assert(lines_views(lines@) =~= collect_lines(done.push(sl)));
                        }
                    },
                }
                proof {
                    done = done.push(sl);
                }
                pos = p;
            },
            None => {
                proof {
                    assert(spec_parse_file(chars@, pos as int) =~= Seq::<
                        Option<SpecValgrindLine>,
                    >::empty());
                    assert(spec_parse_file(chars@, 0) =~= done);
                }
                break ;
            },
        }
    }
    (lines, skipped)
}

// ---------------------------------------------------------------------------
// Resolving a counter against the running instruction pointer
// ---------------------------------------------------------------------------

/// The absolute address a counter denotes against a base address: an
/// absolute counter stands alone, a relative one is added to the base
/// modulo 2^64, an unchanged one is the base.
pub open spec fn spec_resolve(c: InstrCounter, base: u64) -> u64 {
    match c {
        InstrCounter::Absolute(a) => a,
        InstrCounter::Relative(d) => vstd::wrapping::u64_specs::wrapping_add_signed(base, d),
        InstrCounter::Same() => base,
    }
}

impl InstrCounter {
    /// Resolve this counter against a base address.
    pub fn resolve(&self, base: u64) -> (r: u64)
        ensures
            r == spec_resolve(*self, base),
    {
        match self {
            InstrCounter::Absolute(a) => *a,
            InstrCounter::Relative(d) => base.wrapping_add_signed(*d),
            InstrCounter::Same() => base,
        }
    }
}

/// Resolution round-trips with the encoding: a relative counter lands on
/// `base + d` whenever that sum is a representable address, an absolute
/// counter ignores the base, and an unchanged counter returns it.
pub proof fn lemma_resolve_round_trip(c: InstrCounter, base: u64)
    ensures
        match c {
            InstrCounter::Absolute(a) => spec_resolve(c, base) == a,
            InstrCounter::Relative(d) => 0 <= base + d <= u64::MAX ==> spec_resolve(c, base) == base
                + d,
            InstrCounter::Same() => spec_resolve(c, base) == base,
        },
{
}

} // verus!

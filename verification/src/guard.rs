//! Which diffs the parser may be handed.
//!
//! The parser reads a diff line by line and panics in three places: at a
//! target header that no source header came before, at a hunk header with a
//! number that a `usize` cannot hold or whose start and length add up beyond
//! one, and at a line of a hunk that would count a line number beyond what a
//! `usize` holds. Whether a diff leads it there depends on how it reads the
//! lines before, so the reading is followed here line by line: which lines
//! it takes for headers, which lines a hunk takes up, and where it stops
//! with an error of its own. A diff is readable if the parser, so followed,
//! meets none of the three. The sums are held to the bound whether or not
//! the parser was built to check them.

use vstd::prelude::*;
use crate::parser::{parser_header, taken_for_header};
use crate::text::{is_single_line, lemma_lines_are_single, lines_of, split_lines};

verus! {

/// The line begins with `--- ` and a character that is no tab: it names the
/// old file.
pub open spec fn is_source_header(line: Seq<char>) -> bool {
    &&& line.len() >= 5
    &&& line[0] == '-'
    &&& line[1] == '-'
    &&& line[2] == '-'
    &&& line[3] == ' '
    &&& line[4] != '\t'
}

/// The line begins with `+++ ` and a character that is no tab: it names the
/// new file.
pub open spec fn is_target_header(line: Seq<char>) -> bool {
    &&& line.len() >= 5
    &&& line[0] == '+'
    &&& line[1] == '+'
    &&& line[2] == '+'
    &&& line[3] == ' '
    &&& line[4] != '\t'
}

/// The line begins with `@@ -`, as every hunk header does.
pub open spec fn has_hunk_mark(line: Seq<char>) -> bool {
    &&& line.len() >= 4
    &&& line[0] == '@'
    &&& line[1] == '@'
    &&& line[2] == ' '
    &&& line[3] == '-'
}

/// One of the ten digits `0` to `9`.
pub open spec fn is_digit(c: char) -> bool {
    '0' <= c <= '9'
}

/// A character of the first 128.
pub open spec fn is_plain(c: char) -> bool {
    (c as u32) < 128
}

/// A character that the parser may take for a digit: one of the ten, or a
/// character beyond the first 128, of which only the parser knows.
pub open spec fn may_be_digit(c: char) -> bool {
    is_digit(c) || !is_plain(c)
}

/// The index at which the row of possible digits from `from` on ends.
pub open spec fn run_end(line: Seq<char>, from: int) -> int
    decreases line.len() - from,
{
    if 0 <= from < line.len() && may_be_digit(line[from]) {
        run_end(line, from + 1)
    } else {
        from
    }
}

/// The index behind a comma at `at` and the row of possible digits after
/// it, or `at` itself where no comma stands there.
pub open spec fn after_length(line: Seq<char>, at: int) -> int {
    if 0 <= at < line.len() && line[at] == ',' {
        run_end(line, at + 1)
    } else {
        at
    }
}

/// Where the four numbers of a header end, if the line is one: the source
/// start from index 4, the source length behind a comma, the target start
/// behind ` +`, and the target length behind a comma.
pub open spec fn marks(line: Seq<char>) -> (int, int, int, int) {
    let a = run_end(line, 4);
    let b = after_length(line, a);
    let c = run_end(line, b + 2);
    let d = after_length(line, c);
    (a, b, c, d)
}

/// The line is laid out as a hunk header: `@@ -`, a number, perhaps a comma
/// and a number, ` +`, a number, perhaps a comma and a number, and ` @@`,
/// each number a row of possible digits.
pub open spec fn has_shape(line: Seq<char>) -> bool {
    let (a, b, c, d) = marks(line);
    &&& has_hunk_mark(line)
    &&& a > 4
    &&& (b == a || b > a + 1)
    &&& b + 1 < line.len()
    &&& line[b] == ' '
    &&& line[b + 1] == '+'
    &&& c > b + 2
    &&& (d == c || d > c + 1)
    &&& d + 2 < line.len()
    &&& line[d] == ' '
    &&& line[d + 1] == '@'
    &&& line[d + 2] == '@'
}

/// The characters from `from` up to `to` are among the ten digits.
pub open spec fn plain_run(line: Seq<char>, from: int, to: int) -> bool {
    forall|i: int| from <= i < to ==> is_digit(#[trigger] line[i])
}

/// The four numbers of the line are written with the ten digits alone.
pub open spec fn plain_numbers(line: Seq<char>) -> bool {
    let (a, b, c, d) = marks(line);
    &&& plain_run(line, 4, a)
    &&& plain_run(line, a + 1, b)
    &&& plain_run(line, b + 2, c)
    &&& plain_run(line, c + 1, d)
}

/// What a digit counts.
pub open spec fn digit_value(c: char) -> nat {
    (c as u32 - '0' as u32) as nat
}

/// The number that the digits from `from` up to `to` write, leading zeros
/// counting nothing.
pub open spec fn run_value(line: Seq<char>, from: int, to: int) -> nat
    decreases to - from,
{
    if to <= from {
        0
    } else {
        run_value(line, from, to - 1) * 10 + digit_value(line[to - 1])
    }
}

/// The four numbers of a header: source start, source length, target start
/// and target length. A length that is not written is one.
pub open spec fn header_numbers(line: Seq<char>) -> (nat, nat, nat, nat) {
    let (a, b, c, d) = marks(line);
    (
        run_value(line, 4, a),
        if b > a {
            run_value(line, a + 1, b)
        } else {
            1
        },
        run_value(line, b + 2, c),
        if d > c {
            run_value(line, c + 1, d)
        } else {
            1
        },
    )
}

/// The parser takes the line for a hunk header: it has the shape of one,
/// and its numbers are written with the ten digits or, where they are not,
/// the parser says that it does.
pub open spec fn is_hunk_header(line: Seq<char>) -> bool {
    has_shape(line) && (plain_numbers(line) || parser_header(line))
}

/// The numbers of the header are written with the ten digits, each fits in
/// a `usize`, and so does each start with its length added.
pub open spec fn header_fits(line: Seq<char>) -> bool {
    let numbers = header_numbers(line);
    &&& plain_numbers(line)
    &&& numbers.0 + numbers.1 <= usize::MAX
    &&& numbers.2 + numbers.3 <= usize::MAX
}

/// The line of a hunk stands for a line of the old file: it is removed or
/// kept.
pub open spec fn in_old(line: Seq<char>) -> bool {
    line.len() == 0 || (line[0] != '+' && line[0] != '\\')
}

/// The line of a hunk stands for a line of the new file: it is added or
/// kept.
pub open spec fn in_new(line: Seq<char>) -> bool {
    line.len() == 0 || (line[0] != '-' && line[0] != '\\')
}

/// Where the parser stands between two lines.
#[derive(Clone, Copy, Debug, PartialEq, Eq, Structural)]
pub struct Reading {
    /// A source header was read.
    pub has_source: bool,
    /// A target header has opened a file, and no source header came since.
    pub in_file: bool,
    /// The lines are taken up by a hunk.
    pub in_hunk: bool,
    /// The number of the next line of the old file in the hunk.
    pub source_line: usize,
    /// The number of the next line of the new file in the hunk.
    pub target_line: usize,
    /// The number behind the last line of the old file that the hunk
    /// declares.
    pub source_end: usize,
    /// The number behind the last line of the new file that the hunk
    /// declares.
    pub target_end: usize,
}

/// What the parser does with one line.
#[derive(Clone, Copy, Debug, PartialEq, Eq, Structural)]
pub enum Step {
    /// It goes on to the next line.
    Goes(Reading),
    /// It gives the diff back with an error of its own.
    Stops,
    /// It panics.
    Panics,
}

/// Where the parser stands before the first line.
pub open spec fn start() -> Reading {
    Reading {
        has_source: false,
        in_file: false,
        in_hunk: false,
        source_line: 0,
        target_line: 0,
        source_end: 0,
        target_end: 0,
    }
}

/// What the parser does with a line inside a hunk: it counts the line on
/// the sides it stands for, and the hunk ends once both sides have reached
/// what the header declared.
pub open spec fn step_in_hunk(state: Reading, line: Seq<char>) -> Step {
    let source_line = state.source_line + if in_old(line) {
        1int
    } else {
        0int
    };
    let target_line = state.target_line + if in_new(line) {
        1int
    } else {
        0int
    };
    if source_line > usize::MAX || target_line > usize::MAX {
        Step::Panics
    } else {
        Step::Goes(
            Reading {
                has_source: state.has_source,
                in_file: state.in_file,
                in_hunk: !(source_line >= state.source_end && target_line >= state.target_end),
                source_line: source_line as usize,
                target_line: target_line as usize,
                source_end: state.source_end,
                target_end: state.target_end,
            },
        )
    }
}

/// What the parser does with a hunk header: outside a file it gives the
/// diff back, inside one it reads the numbers and lets a hunk begin.
pub open spec fn step_at_header(state: Reading, line: Seq<char>) -> Step {
    let numbers = header_numbers(line);
    if !state.in_file {
        Step::Stops
    } else if !header_fits(line) {
        Step::Panics
    } else {
        Step::Goes(
            Reading {
                has_source: state.has_source,
                in_file: state.in_file,
                in_hunk: true,
                source_line: numbers.0 as usize,
                target_line: numbers.2 as usize,
                source_end: (numbers.0 + numbers.1) as usize,
                target_end: (numbers.2 + numbers.3) as usize,
            },
        )
    }
}

/// What the parser does with one line. Inside a hunk every line belongs to
/// the hunk. Outside, a source header closes the file that was open; a
/// target header opens one, which needs a source header before it and no
/// file still open; a hunk header begins a hunk; any other line is passed
/// over.
pub open spec fn step(state: Reading, line: Seq<char>) -> Step {
    if state.in_hunk {
        step_in_hunk(state, line)
    } else if is_source_header(line) {
        Step::Goes(
            Reading {
                has_source: true,
                in_file: false,
                in_hunk: false,
                source_line: state.source_line,
                target_line: state.target_line,
                source_end: state.source_end,
                target_end: state.target_end,
            },
        )
    } else if is_target_header(line) {
        if state.in_file {
            Step::Stops
        } else if !state.has_source {
            Step::Panics
        } else {
            Step::Goes(
                Reading {
                    has_source: true,
                    in_file: true,
                    in_hunk: false,
                    source_line: state.source_line,
                    target_line: state.target_line,
                    source_end: state.source_end,
                    target_end: state.target_end,
                },
            )
        }
    } else if is_hunk_header(line) {
        step_at_header(state, line)
    } else {
        Step::Goes(state)
    }
}

/// The parser, standing as `state` says before line `i`, reads the rest of
/// the lines without a panic.
pub open spec fn reads_on(lines: Seq<Seq<char>>, i: int, state: Reading) -> bool
    decreases lines.len() - i,
{
    if i < 0 || i >= lines.len() {
        true
    } else {
        match step(state, lines[i]) {
            Step::Goes(next) => reads_on(lines, i + 1, next),
            Step::Stops => true,
            Step::Panics => false,
        }
    }
}

/// The diff is one that the parser reads without a panic.
pub open spec fn readable(diff: Seq<char>) -> bool {
    reads_on(lines_of(diff), 0, start())
}

/// A row of digits writes no less than its beginning does.
proof fn lemma_value_grows(line: Seq<char>, from: int, mid: int, to: int)
    requires
        from <= mid <= to,
    ensures
        run_value(line, from, mid) <= run_value(line, from, to),
    decreases to - mid,
{
    if mid < to {
        lemma_value_grows(line, from, mid, to - 1);
    }
}

/// The characters of a line, one by one.
fn chars_of(line: &str) -> (chars: Vec<char>)
    ensures
        chars@ == line@,
{
    let mut chars: Vec<char> = Vec::new();
    for c in it: line.chars()
        invariant
            it.seq() == line@,
            chars@ == line@.subrange(0, it.index()),
    {
        chars.push(c);
        assert(chars@ == line@.subrange(0, it.index() + 1));
    }
    assert(line@.subrange(0, line@.len() as int) == line@);
    chars
}

fn source_header(line: &Vec<char>) -> (yes: bool)
    ensures
        yes == is_source_header(line@),
{
    line.len() >= 5 && line[0] == '-' && line[1] == '-' && line[2] == '-' && line[3] == ' '
        && line[4] != '\t'
}

fn target_header(line: &Vec<char>) -> (yes: bool)
    ensures
        yes == is_target_header(line@),
{
    line.len() >= 5 && line[0] == '+' && line[1] == '+' && line[2] == '+' && line[3] == ' '
        && line[4] != '\t'
}

fn hunk_mark(line: &Vec<char>) -> (yes: bool)
    ensures
        yes == has_hunk_mark(line@),
{
    line.len() >= 4 && line[0] == '@' && line[1] == '@' && line[2] == ' ' && line[3] == '-'
}

/// Walks the row of possible digits from `from` on, and tells where it ends
/// and whether it holds the ten digits alone.
fn walk_run(line: &Vec<char>, from: usize) -> (found: (usize, bool))
    requires
        from <= line.len(),
    ensures
        found.0 == run_end(line@, from as int),
        from <= found.0 <= line.len(),
        found.1 == plain_run(line@, from as int, found.0 as int),
{
    let mut to: usize = from;
    let mut plain = true;
    while to < line.len()
        invariant
            from <= to <= line.len(),
            run_end(line@, from as int) == run_end(line@, to as int),
            plain == plain_run(line@, from as int, to as int),
        ensures
            from <= to <= line.len(),
            run_end(line@, from as int) == to,
            plain == plain_run(line@, from as int, to as int),
        decreases line.len() - to,
    {
        let c = line[to];
        let digit = '0' <= c && c <= '9';
        if !digit && (c as u32) < 128 {
            break;
        }
        assert(may_be_digit(line@[to as int]));
        if !digit {
            plain = false;
        }
        to = to + 1;
    }
    (to, plain)
}

/// Walks a comma and the row of possible digits behind it, if a comma
/// stands at `at`.
fn walk_length(line: &Vec<char>, at: usize) -> (found: (usize, bool))
    requires
        at <= line.len(),
    ensures
        found.0 == after_length(line@, at as int),
        at <= found.0 <= line.len(),
        found.1 == plain_run(line@, at + 1, found.0 as int),
{
    if at < line.len() && line[at] == ',' {
        walk_run(line, at + 1)
    } else {
        (at, true)
    }
}

/// Where the four numbers of a header end, if the line has the shape of
/// one, and whether they are written with the ten digits alone.
fn read_shape(line: &Vec<char>) -> (found: Option<((usize, usize, usize, usize), bool)>)
    ensures
        found is Some <==> has_shape(line@),
        found matches Some(shape) ==> {
            &&& marks(line@) == (
                shape.0.0 as int,
                shape.0.1 as int,
                shape.0.2 as int,
                shape.0.3 as int,
            )
            &&& shape.1 == plain_numbers(line@)
        },
{
    if !hunk_mark(line) {
        return None;
    }
    let (a, plain_a) = walk_run(line, 4);
    let (b, plain_b) = walk_length(line, a);
    if a == 4 || (b > a && b - a == 1) || line.len() - b < 2 || line[b] != ' ' || line[b + 1] != '+' {
        return None;
    }
    let (c, plain_c) = walk_run(line, b + 2);
    let (d, plain_d) = walk_length(line, c);
    if c == b + 2 || (d > c && d - c == 1) || line.len() - d < 3 || line[d] != ' ' || line[d + 1] != '@'
        || line[d + 2] != '@' {
        return None;
    }
    Some(((a, b, c, d), plain_a && plain_b && plain_c && plain_d))
}

/// The number that the digits from `from` up to `to` write, or nothing
/// where a `usize` cannot hold it.
fn read_number(line: &Vec<char>, from: usize, to: usize) -> (value: Option<usize>)
    requires
        from <= to <= line.len(),
        plain_run(line@, from as int, to as int),
    ensures
        match value {
            Some(number) => number == run_value(line@, from as int, to as int),
            None => run_value(line@, from as int, to as int) > usize::MAX,
        },
{
    let mut number: usize = 0;
    let mut i: usize = from;
    while i < to
        invariant
            from <= i <= to <= line.len(),
            plain_run(line@, from as int, to as int),
            number == run_value(line@, from as int, i as int),
        decreases to - i,
    {
        let c = line[i];
        assert(is_digit(line@[i as int]));
        let digit: usize = (c as u32 - '0' as u32) as usize;
        assert(digit == digit_value(line@[i as int]));
        if number > (usize::MAX - digit) / 10 {
            proof {
                lemma_value_grows(line@, from as int, i + 1, to as int);
            }
            return None;
        }
        number = number * 10 + digit;
        i = i + 1;
    }
    Some(number)
}

/// A length behind a comma, or one where none is written.
fn read_length(line: &Vec<char>, at: usize, to: usize) -> (value: Option<usize>)
    requires
        at <= to <= line.len(),
        to > at ==> plain_run(line@, at + 1, to as int),
    ensures
        match value {
            Some(number) => number == if to > at {
                run_value(line@, at + 1, to as int)
            } else {
                1
            },
            None => to > at && run_value(line@, at + 1, to as int) > usize::MAX,
        },
{
    if to > at {
        read_number(line, at + 1, to)
    } else {
        Some(1)
    }
}

/// What a line outside a hunk is to the parser, as far as hunks go.
enum Header {
    /// No hunk header.
    Absent,
    /// A hunk header whose numbers make the parser panic.
    Unfit,
    /// A hunk header with the numbers of its first lines and of the lines
    /// behind its last ones.
    Fit(usize, usize, usize, usize),
}

/// Reads a line as a hunk header.
fn read_header(chars: &Vec<char>, line: &str) -> (header: Header)
    requires
        chars@ == line@,
        is_single_line(line@),
    ensures
        header is Absent <==> !is_hunk_header(line@),
        header is Unfit ==> !header_fits(line@),
        header matches Header::Fit(source_line, source_end, target_line, target_end) ==> {
            let numbers = header_numbers(line@);
            &&& header_fits(line@)
            &&& source_line == numbers.0
            &&& source_end == numbers.0 + numbers.1
            &&& target_line == numbers.2
            &&& target_end == numbers.2 + numbers.3
        },
{
    let ((a, b, c, d), plain) = match read_shape(chars) {
        Some(shape) => shape,
        None => {
            return Header::Absent;
        },
    };
    if !plain {
        if taken_for_header(line) {
            return Header::Unfit;
        }
        return Header::Absent;
    }
    let source_start = read_number(chars, 4, a);
    let source_length = read_length(chars, a, b);
    let target_start = read_number(chars, b + 2, c);
    let target_length = read_length(chars, c, d);
    match (source_start, source_length, target_start, target_length) {
        (Some(source_line), Some(source_count), Some(target_line), Some(target_count)) => {
            if source_count > usize::MAX - source_line || target_count > usize::MAX - target_line {
                Header::Unfit
            } else {
                Header::Fit(
                    source_line,
                    source_line + source_count,
                    target_line,
                    target_line + target_count,
                )
            }
        },
        _ => Header::Unfit,
    }
}

/// Follows the parser over one line.
fn advance(state: Reading, chars: &Vec<char>, line: &str) -> (next: Step)
    requires
        chars@ == line@,
        is_single_line(line@),
    ensures
        next == step(state, line@),
{
    if state.in_hunk {
        let old = chars.len() == 0 || (chars[0] != '+' && chars[0] != '\\');
        let new = chars.len() == 0 || (chars[0] != '-' && chars[0] != '\\');
        if (old && state.source_line == usize::MAX) || (new && state.target_line == usize::MAX) {
            return Step::Panics;
        }
        let source_line = if old {
            state.source_line + 1
        } else {
            state.source_line
        };
        let target_line = if new {
            state.target_line + 1
        } else {
            state.target_line
        };
        Step::Goes(
            Reading {
                has_source: state.has_source,
                in_file: state.in_file,
                in_hunk: !(source_line >= state.source_end && target_line >= state.target_end),
                source_line,
                target_line,
                source_end: state.source_end,
                target_end: state.target_end,
            },
        )
    } else if source_header(chars) {
        Step::Goes(
            Reading {
                has_source: true,
                in_file: false,
                in_hunk: false,
                source_line: state.source_line,
                target_line: state.target_line,
                source_end: state.source_end,
                target_end: state.target_end,
            },
        )
    } else if target_header(chars) {
        if state.in_file {
            Step::Stops
        } else if !state.has_source {
            Step::Panics
        } else {
            Step::Goes(
                Reading {
                    has_source: true,
                    in_file: true,
                    in_hunk: false,
                    source_line: state.source_line,
                    target_line: state.target_line,
                    source_end: state.source_end,
                    target_end: state.target_end,
                },
            )
        }
    } else {
        match read_header(chars, line) {
            Header::Absent => Step::Goes(state),
            Header::Unfit => if state.in_file {
                Step::Panics
            } else {
                Step::Stops
            },
            Header::Fit(source_line, source_end, target_line, target_end) => if state.in_file {
                Step::Goes(
                    Reading {
                        has_source: state.has_source,
                        in_file: state.in_file,
                        in_hunk: true,
                        source_line,
                        target_line,
                        source_end,
                        target_end,
                    },
                )
            } else {
                Step::Stops
            },
        }
    }
}

/// Tells whether the diff is one that the parser reads without a panic.
pub fn is_readable(diff: &str) -> (ok: bool)
    ensures
        ok == readable(diff@),
{
    let lines = split_lines(diff);
    let ghost model = lines.deep_view();
    proof {
        lemma_lines_are_single(diff@);
    }
    let mut state = Reading {
        has_source: false,
        in_file: false,
        in_hunk: false,
        source_line: 0,
        target_line: 0,
        source_end: 0,
        target_end: 0,
    };
    let mut i: usize = 0;
    while i < lines.len()
        invariant
            i <= lines.len(),
            model == lines.deep_view(),
            model == lines_of(diff@),
            forall|k: int| 0 <= k < model.len() ==> is_single_line(#[trigger] model[k]),
            readable(diff@) == reads_on(model, i as int, state),
        decreases lines.len() - i,
    {
        let chars = chars_of(lines[i].as_str());
        assert(lines[i as int]@ == model[i as int]);
        match advance(state, &chars, lines[i].as_str()) {
            Step::Goes(next) => {
                state = next;
            },
            Step::Stops => {
                return true;
            },
            Step::Panics => {
                return false;
            },
        }
        i = i + 1;
    }
    true
}

} // verus!

//! The failure of a hunk to apply, with the words that report it, and the
//! failure of a diff to be read.

use vstd::prelude::*;

verus! {

/// Model of an [`ApplyError`].
pub struct Failure {
    pub target_start: nat,
    pub fuzz: nat,
}

/// A hunk fitted nowhere within reach of its recorded place.
#[derive(Clone, Copy, Debug, PartialEq, Eq, Structural)]
pub struct ApplyError {
    /// The line of the new text that the hunk declares.
    pub target_start: usize,
    /// The reach within which the hunk was looked for.
    pub fuzz: usize,
}

impl View for ApplyError {
    type V = Failure;

    open spec fn view(&self) -> Failure {
        Failure { target_start: self.target_start as nat, fuzz: self.fuzz as nat }
    }
}

/// Why a diff could not be read.
#[derive(Clone, Debug, PartialEq, Eq)]
pub enum ParseError {
    /// The parser would panic on the diff, and was not handed it.
    Unreadable,
    /// A target header follows another one with no source header between
    /// them; the line is given.
    TargetWithoutSource(String),
    /// A hunk header stands where no target header has opened a file; the
    /// line is given.
    UnexpectedHunk(String),
    /// A line of a hunk could not be read; the line is given.
    ExpectLine(String),
}

/// Model of a [`ParseError`].
pub enum ParseFailure {
    Unreadable,
    TargetWithoutSource(Seq<char>),
    UnexpectedHunk(Seq<char>),
    ExpectLine(Seq<char>),
}

impl View for ParseError {
    type V = ParseFailure;

    open spec fn view(&self) -> ParseFailure {
        match self {
            ParseError::Unreadable => ParseFailure::Unreadable,
            ParseError::TargetWithoutSource(line) => ParseFailure::TargetWithoutSource(line@),
            ParseError::UnexpectedHunk(line) => ParseFailure::UnexpectedHunk(line@),
            ParseError::ExpectLine(line) => ParseFailure::ExpectLine(line@),
        }
    }
}

/// The character that writes a digit.
pub open spec fn digit(d: nat) -> char
    recommends
        d < 10,
{
    seq!['0', '1', '2', '3', '4', '5', '6', '7', '8', '9'][d as int]
}

/// A number written in base ten, without leading zeros.
pub open spec fn decimal(n: nat) -> Seq<char>
    decreases n,
{
    if n < 10 {
        seq![digit(n)]
    } else {
        decimal(n / 10).push(digit(n % 10))
    }
}

/// The sentence that reports a failure.
pub open spec fn report(failure: Failure) -> Seq<char> {
    "Failed to apply hunk near line "@ + decimal(failure.target_start) + " with fuzz "@ + decimal(
        failure.fuzz,
    )
}

fn digit_char(d: usize) -> (c: char)
    requires
        d < 10,
    ensures
        c == digit(d as nat),
{
    if d == 0 {
        '0'
    } else if d == 1 {
        '1'
    } else if d == 2 {
        '2'
    } else if d == 3 {
        '3'
    } else if d == 4 {
        '4'
    } else if d == 5 {
        '5'
    } else if d == 6 {
        '6'
    } else if d == 7 {
        '7'
    } else if d == 8 {
        '8'
    } else {
        '9'
    }
}

/// Appends `n`, written in base ten, to `text`.
fn push_decimal(text: &mut String, n: usize)
    ensures
        final(text)@ == old(text)@ + decimal(n as nat),
    decreases n,
{
    if n >= 10 {
        push_decimal(text, n / 10);
    }
    text.push(digit_char(n % 10));
}

impl ApplyError {
    /// The sentence that reports this failure to a reader.
    pub fn message(&self) -> (text: String)
        ensures
            text@ == report(self@),
    {
        let mut text = String::new();
        text.append("Failed to apply hunk near line ");
        push_decimal(&mut text, self.target_start);
        text.append(" with fuzz ");
        push_decimal(&mut text, self.fuzz);
        text
    }
}

} // verus!

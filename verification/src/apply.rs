//! Applying the hunks of one file to its text.
//!
//! The text is split into lines once, each hunk in turn is looked for and
//! applied to what the hunks before it left, and the lines are joined once
//! at the end. The first hunk that fits nowhere ends the whole application:
//! no text is returned and no later hunk is tried.
//!
//! Hunks are taken as they come. They are neither sorted nor checked for
//! overlap, and a later hunk is looked for at the place it records, in the
//! lines as the earlier hunks rewrote them.

use vstd::prelude::*;
use crate::error::{ApplyError, Failure};
use crate::hunk::{Hunk, HunkModel};
use crate::splice::{applied, apply_hunk};
use crate::text::{join_lines, joined, lines_of, split_lines};

verus! {

/// The reach within which a hunk is looked for when the caller names none.
pub const DEFAULT_FUZZ: usize = 3;

/// The number of context lines that a hunk must have when the caller names
/// none.
pub const DEFAULT_MIN_CONTEXT_MATCHES: usize = 1;

/// The lines after one hunk was looked for and applied, or the failure that
/// names its target line and the reach.
pub open spec fn hunk_outcome(
    text: Seq<Seq<char>>,
    hunk: HunkModel,
    fuzz: nat,
    min_context: nat,
) -> Result<Seq<Seq<char>>, Failure> {
    match applied(text, hunk, fuzz, min_context) {
        Some(next) => Ok(next),
        None => Err(Failure { target_start: hunk.target_start, fuzz }),
    }
}

/// The lines after the first `n` hunks were applied in turn, or the failure
/// of the first among them that fits nowhere.
pub open spec fn patched_upto(
    text: Seq<Seq<char>>,
    hunks: Seq<HunkModel>,
    fuzz: nat,
    min_context: nat,
    n: int,
) -> Result<Seq<Seq<char>>, Failure>
    decreases n,
{
    if n <= 0 {
        Ok(text)
    } else {
        match patched_upto(text, hunks, fuzz, min_context, n - 1) {
            Ok(lines) => hunk_outcome(lines, hunks[n - 1], fuzz, min_context),
            Err(failure) => Err(failure),
        }
    }
}

/// The lines after all hunks were applied in turn.
pub open spec fn patched(
    text: Seq<Seq<char>>,
    hunks: Seq<HunkModel>,
    fuzz: nat,
    min_context: nat,
) -> Result<Seq<Seq<char>>, Failure> {
    patched_upto(text, hunks, fuzz, min_context, hunks.len() as int)
}

/// The text after all hunks were applied in turn to its lines.
pub open spec fn patched_text(
    input: Seq<char>,
    hunks: Seq<HunkModel>,
    fuzz: nat,
    min_context: nat,
) -> Result<Seq<char>, Failure> {
    match patched(lines_of(input), hunks, fuzz, min_context) {
        Ok(lines) => Ok(joined(lines)),
        Err(failure) => Err(failure),
    }
}

/// What a result of lines stands for in contracts.
pub open spec fn lines_outcome(
    done: Result<Vec<String>, ApplyError>,
) -> Result<Seq<Seq<char>>, Failure> {
    match done {
        Ok(lines) => Ok(lines.deep_view()),
        Err(error) => Err(error@),
    }
}

/// What a result of text stands for in contracts.
pub open spec fn text_outcome(done: Result<String, ApplyError>) -> Result<Seq<char>, Failure> {
    match done {
        Ok(text) => Ok(text@),
        Err(error) => Err(error@),
    }
}

/// Once a hunk has failed, the hunks after it change nothing.
pub proof fn lemma_failure_stays(
    text: Seq<Seq<char>>,
    hunks: Seq<HunkModel>,
    fuzz: nat,
    min_context: nat,
    failed: int,
    n: int,
)
    requires
        failed <= n,
        patched_upto(text, hunks, fuzz, min_context, failed) is Err,
    ensures
        patched_upto(text, hunks, fuzz, min_context, n) == patched_upto(
            text,
            hunks,
            fuzz,
            min_context,
            failed,
        ),
    decreases n - failed,
{
    if failed < n {
        lemma_failure_stays(text, hunks, fuzz, min_context, failed, n - 1);
    }
}

/// Applies the hunks in the order given, each to the lines that the hunks
/// before it left. The first hunk that fits nowhere ends the application
/// with its failure.
pub fn apply_hunks(
    text: Vec<String>,
    hunks: &Vec<Hunk>,
    fuzz: usize,
    min_context_matches: usize,
) -> (done: Result<Vec<String>, ApplyError>)
    ensures
        lines_outcome(done) == patched(
            text.deep_view(),
            hunks.deep_view(),
            fuzz as nat,
            min_context_matches as nat,
        ),
{
    let ghost start = text.deep_view();
    let ghost models = hunks.deep_view();
    let mut lines = text;
    let mut i: usize = 0;
    while i < hunks.len()
        invariant
            i <= hunks.len(),
            models == hunks.deep_view(),
            start == text.deep_view(),
            patched_upto(start, models, fuzz as nat, min_context_matches as nat, i as int) == Ok::<
                Seq<Seq<char>>,
                Failure,
            >(lines.deep_view()),
        decreases hunks.len() - i,
    {
        assert(models[i as int] == hunks[i as int]@);
        let ghost before = lines.deep_view();
        match apply_hunk(&mut lines, &hunks[i], fuzz, min_context_matches) {
            Ok(()) => {},
            Err(error) => {
                proof {
                    assert(hunk_outcome(
                        before,
                        models[i as int],
                        fuzz as nat,
                        min_context_matches as nat,
                    ) == Err::<Seq<Seq<char>>, Failure>(error@));
                    lemma_failure_stays(
                        start,
                        models,
                        fuzz as nat,
                        min_context_matches as nat,
                        i + 1,
                        models.len() as int,
                    );
                }
                return Err(error);
            },
        }
        i = i + 1;
    }
    Ok(lines)
}

/// Applies the hunks of one file to `input`: splits it into lines, applies
/// the hunks in the order given, and joins the lines with single line feeds.
pub fn apply_with_fuzz(
    input: &str,
    hunks: &Vec<Hunk>,
    fuzz: usize,
    min_context_matches: usize,
) -> (done: Result<String, ApplyError>)
    ensures
        text_outcome(done) == patched_text(
            input@,
            hunks.deep_view(),
            fuzz as nat,
            min_context_matches as nat,
        ),
{
    let lines = split_lines(input);
    match apply_hunks(lines, hunks, fuzz, min_context_matches) {
        Ok(lines) => Ok(join_lines(&lines)),
        Err(error) => Err(error),
    }
}

/// Applies the hunks of one file to `input` with a reach of three lines,
/// asking for one context line in each hunk.
pub fn apply(input: &str, hunks: &Vec<Hunk>) -> (done: Result<String, ApplyError>)
    ensures
        text_outcome(done) == patched_text(input@, hunks.deep_view(), 3, 1),
{
    apply_with_fuzz(input, hunks, DEFAULT_FUZZ, DEFAULT_MIN_CONTEXT_MATCHES)
}

} // verus!

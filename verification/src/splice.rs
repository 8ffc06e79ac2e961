//! Rewriting the lines that a placed hunk covers.
//!
//! The hunk is walked once more from the place that was found. A context
//! line hands on the line of the text under it, a removed line hands on
//! nothing, an added line hands on its own text. What was handed on then
//! takes the place of as many lines of the text as the hunk declares.

use vstd::prelude::*;
use crate::error::ApplyError;
use crate::hunk::{Hunk, HunkLine, HunkModel, LineKind, LineModel};
use crate::search::{aligns, consumed, position, search, trimmed_texts, trimmed_values};
use crate::text::without_trailing_newlines;

verus! {

/// What the first `n` lines of a hunk laid at `start` put into the new text.
pub open spec fn replacement(
    text: Seq<Seq<char>>,
    lines: Seq<LineModel>,
    start: int,
    n: int,
) -> Seq<Seq<char>>
    decreases n,
{
    if n <= 0 {
        Seq::empty()
    } else {
        let before = replacement(text, lines, start, n - 1);
        match lines[n - 1].kind {
            LineKind::Context => before.push(text[start + consumed(lines, n - 1)]),
            LineKind::Removed => before,
            LineKind::Added => before.push(without_trailing_newlines(lines[n - 1].text)),
        }
    }
}

/// `text` with `with` in place of the `length` lines from `start` on, or of
/// those up to the end of the text where it has fewer.
pub open spec fn splice(
    text: Seq<Seq<char>>,
    start: int,
    length: int,
    with: Seq<Seq<char>>,
) -> Seq<Seq<char>> {
    let end = if start + length <= text.len() {
        start + length
    } else {
        text.len() as int
    };
    text.subrange(0, start) + with + text.subrange(end, text.len() as int)
}

/// `text` after the hunk was applied at `start`.
pub open spec fn rewritten(text: Seq<Seq<char>>, hunk: HunkModel, start: int) -> Seq<Seq<char>> {
    splice(
        text,
        start,
        hunk.source_length as int,
        replacement(text, hunk.lines, start, hunk.lines.len() as int),
    )
}

/// `text` after the hunk was looked for and applied, or nothing where it
/// fits nowhere in reach.
pub open spec fn applied(
    text: Seq<Seq<char>>,
    hunk: HunkModel,
    fuzz: nat,
    min_context: nat,
) -> Option<Seq<Seq<char>>> {
    match position(text, hunk, fuzz, min_context) {
        Some(start) => Some(rewritten(text, hunk, start)),
        None => None,
    }
}

/// Walks the hunk laid at `start`, where it aligns, and collects the lines
/// that it puts into the new text.
pub(crate) fn collect_replacement(
    text: &Vec<String>,
    lines: &Vec<HunkLine>,
    trimmed: &Vec<String>,
    start: usize,
) -> (output: Vec<String>)
    requires
        trimmed.deep_view() == trimmed_texts(lines.deep_view()),
        aligns(text.deep_view(), lines.deep_view(), start as int),
    ensures
        output.deep_view() == replacement(
            text.deep_view(),
            lines.deep_view(),
            start as int,
            lines.len() as int,
        ),
{
    let ghost model = lines.deep_view();
    let ghost old_text = text.deep_view();
    let length = text.len();
    let mut output: Vec<String> = Vec::new();
    let mut cursor: usize = if start < length {
        start
    } else {
        length
    };
    let mut i: usize = 0;
    assert(trimmed.deep_view().len() == model.len());
    while i < lines.len()
        invariant
            i <= lines.len(),
            trimmed.len() == lines.len(),
            consumed(model, i as int) >= 0,
            model == lines.deep_view(),
            old_text == text.deep_view(),
            length == text.len(),
            trimmed.deep_view() == trimmed_texts(model),
            aligns(old_text, model, start as int),
            cursor == if start + consumed(model, i as int) < length {
                start + consumed(model, i as int)
            } else {
                length as int
            },
            output.deep_view() == replacement(old_text, model, start as int, i as int),
        decreases lines.len() - i,
    {
        let ghost before = output.deep_view();
        assert(trimmed.deep_view()[i as int] == without_trailing_newlines(model[i as int].text));
        assert(trimmed.deep_view()[i as int] == trimmed[i as int]@);
        assert(model[i as int].kind == lines[i as int].kind);
        match lines[i].kind {
            LineKind::Context => {
                assert(old_text[cursor as int] == text[cursor as int]@);
                output.push(text[cursor].clone());
                cursor = cursor + 1;
                assert(output.deep_view() == before.push(old_text[cursor - 1]));
            },
            LineKind::Removed => {
                if cursor < length {
                    cursor = cursor + 1;
                }
            },
            LineKind::Added => {
                output.push(trimmed[i].clone());
                assert(output.deep_view() == before.push(trimmed[i as int]@));
            },
        }
        i = i + 1;
    }
    output
}

/// Puts `with` in place of the `length` lines of `text` from `start` on, or
/// of those up to the end of the text where it has fewer.
pub(crate) fn splice_lines(text: &mut Vec<String>, start: usize, length: usize, with: Vec<String>)
    requires
        start <= old(text).len(),
    ensures
        final(text).deep_view() == splice(
            old(text).deep_view(),
            start as int,
            length as int,
            with.deep_view(),
        ),
{
    let ghost old_lines = text@;
    let count = text.len();
    let end: usize = if length <= count - start {
        start + length
    } else {
        count
    };
    let mut tail = text.split_off(end);
    text.truncate(start);
    let mut with = with;
    let ghost inserted = with@;
    text.append(&mut with);
    text.append(&mut tail);
    assert(text@ == old_lines.subrange(0, start as int) + inserted + old_lines.subrange(
        end as int,
        count as int,
    ));
    assert(text.deep_view() =~= splice(
        old(text).deep_view(),
        start as int,
        length as int,
        inserted.map_values(|line: String| line@),
    ));
}

/// Looks for the hunk within `fuzz` lines of its recorded place and rewrites
/// the text at the first place that fits. Where none fits the text is left
/// as it is, and the error names the hunk's target line and the fuzz.
pub fn apply_hunk(
    text: &mut Vec<String>,
    hunk: &Hunk,
    fuzz: usize,
    min_context_matches: usize,
) -> (done: Result<(), ApplyError>)
    ensures
        match done {
            Ok(()) => applied(
                old(text).deep_view(),
                hunk@,
                fuzz as nat,
                min_context_matches as nat,
            ) == Some(final(text).deep_view()),
            Err(error) => {
                &&& applied(old(text).deep_view(), hunk@, fuzz as nat, min_context_matches as nat)
                    is None
                &&& final(text)@ == old(text)@
                &&& error == (ApplyError { target_start: hunk.target_start, fuzz })
            },
        },
{
    let trimmed = trimmed_values(&hunk.lines);
    match search(text, hunk, &trimmed, fuzz, min_context_matches) {
        Some(start) => {
            let output = collect_replacement(text, &hunk.lines, &trimmed, start);
            splice_lines(text, start, hunk.source_length, output);
            Ok(())
        },
        None => Err(ApplyError { target_start: hunk.target_start, fuzz }),
    }
}

} // verus!

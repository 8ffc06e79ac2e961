//! Looking for the place of a hunk in a text that may have drifted.
//!
//! A hunk laid at a start index walks the text with a cursor: a context line
//! and a removed line each take one line of the text, an added line takes
//! none. The hunk fits where every context line meets its own text under the
//! cursor. The places tried are those within `fuzz` lines of the recorded
//! one, from the lowest upwards, and the first that fits is taken.

use vstd::prelude::*;
use crate::hunk::{Hunk, HunkLine, HunkModel, LineKind, LineModel};
use crate::text::{trim_newlines, without_trailing_newlines};

verus! {

/// How many of the first `n` lines of a hunk stand in the old text.
pub open spec fn consumed(lines: Seq<LineModel>, n: int) -> int
    decreases n,
{
    if n <= 0 {
        0
    } else {
        consumed(lines, n - 1) + if lines[n - 1].kind == LineKind::Added {
            0int
        } else {
            1int
        }
    }
}

/// How many of the first `n` lines of a hunk are context lines.
pub open spec fn context_count(lines: Seq<LineModel>, n: int) -> int
    decreases n,
{
    if n <= 0 {
        0
    } else {
        context_count(lines, n - 1) + if lines[n - 1].kind == LineKind::Context {
            1int
        } else {
            0int
        }
    }
}

/// With the hunk laid at `start`, each context line finds its own text, the
/// line feeds at its end left aside, in the line of `text` that it falls on.
pub open spec fn aligns(text: Seq<Seq<char>>, lines: Seq<LineModel>, start: int) -> bool {
    forall|i: int|
        0 <= i < lines.len() && (#[trigger] lines[i]).kind == LineKind::Context ==> {
            let at = start + consumed(lines, i);
            at < text.len() && text[at] == without_trailing_newlines(lines[i].text)
        }
}

/// The hunk can be applied at `start`: the index lies in the text, the hunk
/// aligns there, and it has at least `min_context` context lines.
pub open spec fn fits(
    text: Seq<Seq<char>>,
    hunk: HunkModel,
    min_context: nat,
    start: int,
) -> bool {
    &&& 0 <= start < text.len()
    &&& aligns(text, hunk.lines, start)
    &&& context_count(hunk.lines, hunk.lines.len() as int) >= min_context
}

/// `start` is at most `fuzz` lines away from the recorded place of the hunk.
pub open spec fn in_reach(hunk: HunkModel, fuzz: nat, start: int) -> bool {
    hunk.source_start - fuzz <= start <= hunk.source_start + fuzz
}

/// `start` is the lowest index in reach at which the hunk fits.
pub open spec fn first_fit(
    text: Seq<Seq<char>>,
    hunk: HunkModel,
    fuzz: nat,
    min_context: nat,
    start: int,
) -> bool {
    &&& in_reach(hunk, fuzz, start)
    &&& fits(text, hunk, min_context, start)
    &&& forall|lower: int|
        in_reach(hunk, fuzz, lower) && lower < start ==> !#[trigger] fits(
            text,
            hunk,
            min_context,
            lower,
        )
}

/// The index at which the hunk is applied: the lowest one in reach at which
/// it fits, or nothing where it fits nowhere in reach.
pub open spec fn position(
    text: Seq<Seq<char>>,
    hunk: HunkModel,
    fuzz: nat,
    min_context: nat,
) -> Option<int> {
    if exists|start: int| first_fit(text, hunk, fuzz, min_context, start) {
        Some(choose|start: int| first_fit(text, hunk, fuzz, min_context, start))
    } else {
        None
    }
}

/// An index is the position if and only if it is the lowest one in reach
/// at which the hunk fits.
pub proof fn lemma_position_is_first_fit(
    text: Seq<Seq<char>>,
    hunk: HunkModel,
    fuzz: nat,
    min_context: nat,
    start: int,
)
    ensures
        position(text, hunk, fuzz, min_context) == Some(start) <==> first_fit(
            text,
            hunk,
            fuzz,
            min_context,
            start,
        ),
{
    if first_fit(text, hunk, fuzz, min_context, start) {
        let chosen = choose|s: int| first_fit(text, hunk, fuzz, min_context, s);
        assert(first_fit(text, hunk, fuzz, min_context, chosen));
        if chosen < start {
            assert(!fits(text, hunk, min_context, chosen));
        }
        if start < chosen {
            assert(!fits(text, hunk, min_context, start));
        }
    }
}

/// Where the hunk fits at no index in reach there is no position, and the
/// other way round.
pub proof fn lemma_position_none(
    text: Seq<Seq<char>>,
    hunk: HunkModel,
    fuzz: nat,
    min_context: nat,
)
    ensures
        position(text, hunk, fuzz, min_context) is None <==> forall|start: int|
            in_reach(hunk, fuzz, start) ==> !#[trigger] fits(text, hunk, min_context, start),
{
    if exists|start: int| in_reach(hunk, fuzz, start) && fits(text, hunk, min_context, start) {
        let some = choose|start: int|
            in_reach(hunk, fuzz, start) && fits(text, hunk, min_context, start);
        lemma_lowest_fit(text, hunk, fuzz, min_context, some, some - (hunk.source_start - fuzz));
    }
    if position(text, hunk, fuzz, min_context) is Some {
        let chosen = choose|s: int| first_fit(text, hunk, fuzz, min_context, s);
        assert(in_reach(hunk, fuzz, chosen) && fits(text, hunk, min_context, chosen));
    }
}

/// Below an index in reach at which the hunk fits there is a lowest one.
proof fn lemma_lowest_fit(
    text: Seq<Seq<char>>,
    hunk: HunkModel,
    fuzz: nat,
    min_context: nat,
    start: int,
    distance: int,
)
    requires
        in_reach(hunk, fuzz, start),
        fits(text, hunk, min_context, start),
        distance == start - (hunk.source_start - fuzz),
    ensures
        exists|lowest: int| first_fit(text, hunk, fuzz, min_context, lowest),
    decreases distance,
{
    if exists|lower: int|
        in_reach(hunk, fuzz, lower) && lower < start && fits(text, hunk, min_context, lower) {
        let lower = choose|lower: int|
            in_reach(hunk, fuzz, lower) && lower < start && fits(text, hunk, min_context, lower);
        lemma_lowest_fit(
            text,
            hunk,
            fuzz,
            min_context,
            lower,
            lower - (hunk.source_start - fuzz),
        );
    } else {
        assert(first_fit(text, hunk, fuzz, min_context, start));
    }
}

/// The text of each line of the hunk without the line feeds at its end.
pub open spec fn trimmed_texts(lines: Seq<LineModel>) -> Seq<Seq<char>> {
    lines.map_values(|line: LineModel| without_trailing_newlines(line.text))
}

/// The value of each line without the line feeds at its end.
pub(crate) fn trimmed_values(lines: &Vec<HunkLine>) -> (values: Vec<String>)
    ensures
        values.deep_view() == trimmed_texts(lines.deep_view()),
{
    let mut values: Vec<String> = Vec::new();
    let mut i: usize = 0;
    while i < lines.len()
        invariant
            i <= lines.len(),
            values.len() == i,
            forall|j: int|
                0 <= j < i ==> (#[trigger] values[j])@ == without_trailing_newlines(
                    lines[j].value@,
                ),
        decreases lines.len() - i,
    {
        values.push(trim_newlines(lines[i].value.as_str()));
        i = i + 1;
    }
    assert(values.deep_view() =~= trimmed_texts(lines.deep_view()));
    values
}

/// Walks the hunk laid at `start` and counts its context lines; nothing
/// where a context line does not meet its text.
pub(crate) fn count_context(
    text: &Vec<String>,
    lines: &Vec<HunkLine>,
    trimmed: &Vec<String>,
    start: usize,
) -> (count: Option<usize>)
    requires
        trimmed.deep_view() == trimmed_texts(lines.deep_view()),
    ensures
        count is Some <==> aligns(text.deep_view(), lines.deep_view(), start as int),
        count matches Some(c) ==> c == context_count(lines.deep_view(), lines.len() as int),
{
    let ghost model = lines.deep_view();
    let ghost old_text = text.deep_view();
    let length = text.len();
    let mut cursor: usize = if start < length {
        start
    } else {
        length
    };
    let mut count: usize = 0;
    let mut i: usize = 0;
    assert(trimmed.deep_view().len() == model.len());
    while i < lines.len()
        invariant
            i <= lines.len(),
            trimmed.len() == lines.len(),
            consumed(model, i as int) >= 0,
            model == lines.deep_view(),
            old_text == text.deep_view(),
            length == text.len(),
            trimmed.deep_view() == trimmed_texts(model),
            cursor <= length,
            cursor == if start + consumed(model, i as int) < length {
                start + consumed(model, i as int)
            } else {
                length as int
            },
            count == context_count(model, i as int),
            count <= i,
            forall|j: int|
                0 <= j < i && (#[trigger] model[j]).kind == LineKind::Context ==> {
                    let at = start + consumed(model, j);
                    at < old_text.len() && old_text[at] == without_trailing_newlines(model[j].text)
                },
        decreases lines.len() - i,
    {
        assert(trimmed.deep_view()[i as int] == without_trailing_newlines(model[i as int].text));
        assert(model[i as int].kind == lines[i as int].kind);
        match lines[i].kind {
            LineKind::Context => {
                if cursor >= length || !(text[cursor] == trimmed[i]) {
                    assert(!aligns(old_text, model, start as int)) by {
                        let at = start + consumed(model, i as int);
                        assert(model[i as int].kind == LineKind::Context);
                        if cursor < length {
                            assert(old_text[at] == text[cursor as int]@);
                            assert(trimmed.deep_view()[i as int] == trimmed[i as int]@);
                        }
                        assert(!(at < old_text.len() && old_text[at] == without_trailing_newlines(
                            model[i as int].text,
                        )));
                    }
                    return None;
                }
                count = count + 1;
                cursor = cursor + 1;
            },
            LineKind::Removed => {
                if cursor < length {
                    cursor = cursor + 1;
                }
            },
            LineKind::Added => {},
        }
        i = i + 1;
    }
    Some(count)
}

/// The number behind an index, for contracts.
pub open spec fn index_model(found: Option<usize>) -> Option<int> {
    match found {
        Some(index) => Some(index as int),
        None => None,
    }
}

/// Looks for the hunk among the lines at most `fuzz` away from its recorded
/// place, lowest first, with the trimmed values of its lines at hand.
pub(crate) fn search(
    text: &Vec<String>,
    hunk: &Hunk,
    trimmed: &Vec<String>,
    fuzz: usize,
    min_context_matches: usize,
) -> (found: Option<usize>)
    requires
        trimmed.deep_view() == trimmed_texts(hunk@.lines),
    ensures
        index_model(found) == position(
            text.deep_view(),
            hunk@,
            fuzz as nat,
            min_context_matches as nat,
        ),
        found matches Some(start) ==> start < text.len(),
{
    let ghost lines = text.deep_view();
    let ghost model = hunk@;
    let length = text.len();
    if length == 0 {
        proof {
            lemma_position_none(lines, model, fuzz as nat, min_context_matches as nat);
        }
        return None;
    }
    let lowest: usize = if fuzz <= hunk.source_start {
        hunk.source_start - fuzz
    } else {
        0
    };
    let highest: usize = if hunk.source_start > length - 1 || fuzz > length - 1
        - hunk.source_start {
        length - 1
    } else {
        hunk.source_start + fuzz
    };
    let mut start: usize = lowest;
    while start <= highest
        invariant
            lines == text.deep_view(),
            model == hunk@,
            length == text.len(),
            highest < length,
            lowest <= start,
            trimmed.deep_view() == trimmed_texts(model.lines),
            lowest == if fuzz <= model.source_start {
                model.source_start - fuzz
            } else {
                0
            },
            highest == if model.source_start + fuzz < length {
                model.source_start + fuzz
            } else {
                length - 1
            },
            forall|lower: int|
                in_reach(model, fuzz as nat, lower) && lower < start ==> !#[trigger] fits(
                    lines,
                    model,
                    min_context_matches as nat,
                    lower,
                ),
        decreases highest + 1 - start,
    {
        match count_context(text, &hunk.lines, trimmed, start) {
            Some(count) => {
                if count >= min_context_matches {
                    proof {
                        assert(first_fit(
                            lines,
                            model,
                            fuzz as nat,
                            min_context_matches as nat,
                            start as int,
                        ));
                        lemma_position_is_first_fit(
                            lines,
                            model,
                            fuzz as nat,
                            min_context_matches as nat,
                            start as int,
                        );
                    }
                    return Some(start);
                }
            },
            None => {},
        }
        start = start + 1;
    }
    proof {
        lemma_position_none(lines, model, fuzz as nat, min_context_matches as nat);
    }
    None
}

/// Looks for the hunk among the lines at most `fuzz` away from its recorded
/// place, lowest first.
pub fn find_position(
    text: &Vec<String>,
    hunk: &Hunk,
    fuzz: usize,
    min_context_matches: usize,
) -> (found: Option<usize>)
    ensures
        index_model(found) == position(
            text.deep_view(),
            hunk@,
            fuzz as nat,
            min_context_matches as nat,
        ),
{
    let trimmed = trimmed_values(&hunk.lines);
    search(text, hunk, &trimmed, fuzz, min_context_matches)
}

} // verus!

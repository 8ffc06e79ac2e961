//! What holds of every application of hunks, proved from the definitions
//! that the contracts of this crate use.
//!
//! The laws speak of `patched`, the lines after all hunks were applied. The
//! text that an application returns is `patched` of the lines of the input,
//! joined again.

use vstd::prelude::*;
use crate::apply::{hunk_outcome, patched, patched_upto};
use crate::error::Failure;
use crate::hunk::{HunkModel, LineKind, LineModel};
use crate::search::{
    aligns,
    consumed,
    context_count,
    first_fit,
    fits,
    in_reach,
    lemma_position_is_first_fit,
    lemma_position_none,
};
use crate::splice::{replacement, rewritten};
use crate::text::{
    is_single_line,
    joined,
    lemma_pieces_nonempty,
    lines_of,
    pieces,
    without_carriage_return,
    without_trailing_newlines,
};

verus! {

/// The lines of the old text that the first `n` lines of a hunk stand for:
/// its context lines and its removed lines, in their order.
pub open spec fn old_side(lines: Seq<LineModel>, n: int) -> Seq<Seq<char>>
    decreases n,
{
    if n <= 0 {
        Seq::empty()
    } else if lines[n - 1].kind == LineKind::Added {
        old_side(lines, n - 1)
    } else {
        old_side(lines, n - 1).push(without_trailing_newlines(lines[n - 1].text))
    }
}

/// The lines of the new text that the first `n` lines of a hunk stand for:
/// its context lines and its added lines, in their order.
pub open spec fn new_side(lines: Seq<LineModel>, n: int) -> Seq<Seq<char>>
    decreases n,
{
    if n <= 0 {
        Seq::empty()
    } else if lines[n - 1].kind == LineKind::Removed {
        new_side(lines, n - 1)
    } else {
        new_side(lines, n - 1).push(without_trailing_newlines(lines[n - 1].text))
    }
}

/// How many of the first `n` lines of a hunk stand in the new text.
pub open spec fn produced(lines: Seq<LineModel>, n: int) -> int
    decreases n,
{
    if n <= 0 {
        0
    } else {
        produced(lines, n - 1) + if lines[n - 1].kind == LineKind::Removed {
            0int
        } else {
            1int
        }
    }
}

/// The file that a hunk was made from: the lines before it, its old side,
/// and the lines after it.
pub open spec fn file_around(
    before: Seq<Seq<char>>,
    hunk: HunkModel,
    after: Seq<Seq<char>>,
) -> Seq<Seq<char>> {
    before + old_side(hunk.lines, hunk.lines.len() as int) + after
}

/// The file that a hunk asks for: the lines before it, its new side, and
/// the lines after it.
pub open spec fn file_wanted(
    before: Seq<Seq<char>>,
    hunk: HunkModel,
    after: Seq<Seq<char>>,
) -> Seq<Seq<char>> {
    before + new_side(hunk.lines, hunk.lines.len() as int) + after
}

/// The counts of lines are never negative, context lines are among the
/// lines of the old text, and the two sides are as long as their counts.
pub proof fn lemma_counts(lines: Seq<LineModel>, n: int)
    requires
        0 <= n <= lines.len(),
    ensures
        0 <= context_count(lines, n) <= consumed(lines, n) <= n,
        0 <= produced(lines, n) <= n,
        old_side(lines, n).len() == consumed(lines, n),
        new_side(lines, n).len() == produced(lines, n),
    decreases n,
{
    if n > 0 {
        lemma_counts(lines, n - 1);
    }
}

/// The old side grows at its end only: line `i` of the hunk, unless it is
/// an added one, stands in it at the index that the cursor has when the walk
/// reaches the line.
proof fn lemma_old_side_at(lines: Seq<LineModel>, n: int, i: int)
    requires
        0 <= i < n <= lines.len(),
        lines[i].kind != LineKind::Added,
    ensures
        0 <= consumed(lines, i) < old_side(lines, n).len(),
        old_side(lines, n)[consumed(lines, i)] == without_trailing_newlines(lines[i].text),
    decreases n,
{
    lemma_counts(lines, i);
    lemma_counts(lines, n);
    lemma_counts(lines, n - 1);
    if i < n - 1 {
        lemma_old_side_at(lines, n - 1, i);
    }
}

/// A hunk laid where its old side stands in the text aligns there.
pub proof fn lemma_aligns_on_old_side(
    before: Seq<Seq<char>>,
    hunk: HunkModel,
    after: Seq<Seq<char>>,
)
    ensures
        aligns(file_around(before, hunk, after), hunk.lines, before.len() as int),
{
    let lines = hunk.lines;
    let text = file_around(before, hunk, after);
    let side = old_side(lines, lines.len() as int);
    assert forall|i: int|
        0 <= i < lines.len() && (#[trigger] lines[i]).kind == LineKind::Context implies {
        let at = before.len() + consumed(lines, i);
        at < text.len() && text[at] == without_trailing_newlines(lines[i].text)
    } by {
        lemma_old_side_at(lines, lines.len() as int, i);
        assert(text[before.len() + consumed(lines, i)] == side[consumed(lines, i)]);
    }
}

/// Laid where its old side stands, a hunk puts its new side into the text.
proof fn lemma_replacement_is_new_side(
    before: Seq<Seq<char>>,
    hunk: HunkModel,
    after: Seq<Seq<char>>,
    n: int,
)
    requires
        0 <= n <= hunk.lines.len(),
    ensures
        replacement(file_around(before, hunk, after), hunk.lines, before.len() as int, n)
            == new_side(hunk.lines, n),
    decreases n,
{
    if n > 0 {
        let lines = hunk.lines;
        let text = file_around(before, hunk, after);
        let side = old_side(lines, lines.len() as int);
        lemma_replacement_is_new_side(before, hunk, after, n - 1);
        if lines[n - 1].kind == LineKind::Context {
            lemma_old_side_at(lines, lines.len() as int, n - 1);
            assert(text[before.len() + consumed(lines, n - 1)] == side[consumed(lines, n - 1)]);
        }
    }
}

/// Applied where its old side stands, a hunk whose declared length is that
/// of its old side leaves the lines around it and puts its new side between
/// them.
pub proof fn lemma_rewrites_old_side(
    before: Seq<Seq<char>>,
    hunk: HunkModel,
    after: Seq<Seq<char>>,
)
    requires
        hunk.source_length == consumed(hunk.lines, hunk.lines.len() as int),
    ensures
        rewritten(file_around(before, hunk, after), hunk, before.len() as int) == file_wanted(
            before,
            hunk,
            after,
        ),
{
    let lines = hunk.lines;
    let text = file_around(before, hunk, after);
    let side = old_side(lines, lines.len() as int);
    lemma_counts(lines, lines.len() as int);
    lemma_replacement_is_new_side(before, hunk, after, lines.len() as int);
    assert(text.subrange(0, before.len() as int) == before);
    assert(text.subrange((before.len() + side.len()) as int, text.len() as int) == after);
}

/// Applying a single hunk is looking for it and rewriting the text where
/// it was found.
pub proof fn lemma_single_hunk(text: Seq<Seq<char>>, hunk: HunkModel, fuzz: nat, min_context: nat)
    ensures
        patched(text, seq![hunk], fuzz, min_context) == hunk_outcome(text, hunk, fuzz, min_context),
{
    let hunks = seq![hunk];
    assert(hunks[0] == hunk);
    assert(patched_upto(text, hunks, fuzz, min_context, 0) == Ok::<Seq<Seq<char>>, Failure>(text));
}

/// The old side of a hunk stands in the file at `before.len()`, which is
/// within reach of the recorded place, and the hunk fits at no lower place
/// in reach. Then it is applied there, and the result is the file that the
/// hunk asks for. Whether or not it fits lower down, it is applied
/// somewhere.
pub proof fn lemma_drift_within_reach(
    before: Seq<Seq<char>>,
    hunk: HunkModel,
    after: Seq<Seq<char>>,
    fuzz: nat,
    min_context: nat,
)
    requires
        hunk.source_length == consumed(hunk.lines, hunk.lines.len() as int),
        context_count(hunk.lines, hunk.lines.len() as int) >= min_context,
        before.len() < file_around(before, hunk, after).len(),
        in_reach(hunk, fuzz, before.len() as int),
    ensures
        patched(file_around(before, hunk, after), seq![hunk], fuzz, min_context) is Ok,
        (forall|lower: int|
            in_reach(hunk, fuzz, lower) && lower < before.len() ==> !#[trigger] fits(
                file_around(before, hunk, after),
                hunk,
                min_context,
                lower,
            )) ==> patched(file_around(before, hunk, after), seq![hunk], fuzz, min_context) == Ok::<
            Seq<Seq<char>>,
            Failure,
        >(file_wanted(before, hunk, after)),
{
    let text = file_around(before, hunk, after);
    let place = before.len() as int;
    lemma_single_hunk(text, hunk, fuzz, min_context);
    lemma_aligns_on_old_side(before, hunk, after);
    lemma_rewrites_old_side(before, hunk, after);
    assert(fits(text, hunk, min_context, place));
    lemma_position_none(text, hunk, fuzz, min_context);
    if forall|lower: int|
        in_reach(hunk, fuzz, lower) && lower < before.len() ==> !#[trigger] fits(
            text,
            hunk,
            min_context,
            lower,
        ) {
        assert(first_fit(text, hunk, fuzz, min_context, place));
        lemma_position_is_first_fit(text, hunk, fuzz, min_context, place);
    }
}

/// A hunk whose recorded place is right and whose file has not changed is
/// applied without any reach, and the result is the file that the hunk asks
/// for. The recorded place must be a line of the file: a hunk without old
/// lines that is recorded at the very end of the file fits nowhere.
pub proof fn lemma_exact_position(
    before: Seq<Seq<char>>,
    hunk: HunkModel,
    after: Seq<Seq<char>>,
    min_context: nat,
)
    requires
        hunk.source_start == before.len(),
        hunk.source_length == consumed(hunk.lines, hunk.lines.len() as int),
        context_count(hunk.lines, hunk.lines.len() as int) >= min_context,
        before.len() < file_around(before, hunk, after).len(),
    ensures
        patched(file_around(before, hunk, after), seq![hunk], 0, min_context) == Ok::<
            Seq<Seq<char>>,
            Failure,
        >(file_wanted(before, hunk, after)),
{
    lemma_drift_within_reach(before, hunk, after, 0, min_context);
}

/// A hunk with a context line whose text stands at one index of the text
/// only aligns at no place but the one that puts the line there.
pub proof fn lemma_anchor_fixes_place(
    text: Seq<Seq<char>>,
    lines: Seq<LineModel>,
    anchor: int,
    place: int,
    start: int,
)
    requires
        0 <= anchor < lines.len(),
        lines[anchor].kind == LineKind::Context,
        forall|i: int|
            0 <= i < text.len() && i != place + consumed(lines, anchor) ==> #[trigger] text[i]
                != without_trailing_newlines(lines[anchor].text),
        0 <= start,
        aligns(text, lines, start),
    ensures
        start == place,
{
    lemma_counts(lines, anchor);
    let at = start + consumed(lines, anchor);
    assert(lines[anchor].kind == LineKind::Context);
    assert(text[at] == without_trailing_newlines(lines[anchor].text));
}

/// A file has drifted: the old side of a hunk stands at `before.len()`, not
/// at the recorded place. Where one context line of the hunk has a text that
/// stands nowhere else in the file, the hunk is applied if and only if the
/// drift is at most `fuzz`, and the result is then the file that the hunk
/// asks for.
pub proof fn lemma_fuzz_tolerance(
    before: Seq<Seq<char>>,
    hunk: HunkModel,
    after: Seq<Seq<char>>,
    fuzz: nat,
    min_context: nat,
    anchor: int,
)
    requires
        hunk.source_length == consumed(hunk.lines, hunk.lines.len() as int),
        context_count(hunk.lines, hunk.lines.len() as int) >= min_context,
        0 <= anchor < hunk.lines.len(),
        hunk.lines[anchor].kind == LineKind::Context,
        forall|i: int|
            0 <= i < file_around(before, hunk, after).len() && i != before.len() + consumed(
                hunk.lines,
                anchor,
            ) ==> #[trigger] file_around(before, hunk, after)[i] != without_trailing_newlines(
                hunk.lines[anchor].text,
            ),
    ensures
        in_reach(hunk, fuzz, before.len() as int) ==> patched(
            file_around(before, hunk, after),
            seq![hunk],
            fuzz,
            min_context,
        ) == Ok::<Seq<Seq<char>>, Failure>(file_wanted(before, hunk, after)),
        !in_reach(hunk, fuzz, before.len() as int) ==> patched(
            file_around(before, hunk, after),
            seq![hunk],
            fuzz,
            min_context,
        ) == Err::<Seq<Seq<char>>, Failure>(Failure { target_start: hunk.target_start, fuzz }),
{
    let text = file_around(before, hunk, after);
    let place = before.len() as int;
    lemma_single_hunk(text, hunk, fuzz, min_context);
    lemma_old_side_at(hunk.lines, hunk.lines.len() as int, anchor);
    assert forall|start: int| #[trigger] fits(text, hunk, min_context, start) implies start
        == place by {
        lemma_anchor_fixes_place(text, hunk.lines, anchor, place, start);
    }
    if in_reach(hunk, fuzz, place) {
        lemma_drift_within_reach(before, hunk, after, fuzz, min_context);
    } else {
        lemma_position_none(text, hunk, fuzz, min_context);
    }
}

/// A hunk without context lines is applied nowhere when one context line is
/// asked for, whatever the text and the reach. When none is asked for it is
/// applied at its recorded place, if that is a line of the text.
pub proof fn lemma_min_context_gate(
    text: Seq<Seq<char>>,
    hunk: HunkModel,
    fuzz: nat,
    min_context: nat,
)
    requires
        context_count(hunk.lines, hunk.lines.len() as int) == 0,
    ensures
        min_context >= 1 ==> patched(text, seq![hunk], fuzz, min_context) == Err::<
            Seq<Seq<char>>,
            Failure,
        >(Failure { target_start: hunk.target_start, fuzz }),
        min_context == 0 && hunk.source_start < text.len() ==> patched(
            text,
            seq![hunk],
            0,
            min_context,
        ) == Ok::<Seq<Seq<char>>, Failure>(rewritten(text, hunk, hunk.source_start as int)),
{
    lemma_single_hunk(text, hunk, fuzz, min_context);
    lemma_single_hunk(text, hunk, 0, min_context);
    if min_context >= 1 {
        lemma_position_none(text, hunk, fuzz, min_context);
    }
    if min_context == 0 && hunk.source_start < text.len() {
        let lines = hunk.lines;
        assert forall|i: int| 0 <= i < lines.len() implies (#[trigger] lines[i]).kind
            != LineKind::Context by {
            lemma_no_context(lines, lines.len() as int, i);
        }
        assert(first_fit(text, hunk, 0, min_context, hunk.source_start as int));
        lemma_position_is_first_fit(text, hunk, 0, min_context, hunk.source_start as int);
    }
}

/// Where the count of context lines is zero, no line is a context line.
proof fn lemma_no_context(lines: Seq<LineModel>, n: int, i: int)
    requires
        0 <= i < n <= lines.len(),
        context_count(lines, n) == 0,
    ensures
        lines[i].kind != LineKind::Context,
    decreases n,
{
    lemma_counts(lines, n - 1);
    if i < n - 1 {
        lemma_no_context(lines, n - 1, i);
    }
}

/// What a hunk puts into the text has one line for each of its lines that
/// stands in the new text.
pub proof fn lemma_replacement_len(text: Seq<Seq<char>>, lines: Seq<LineModel>, start: int, n: int)
    requires
        0 <= n <= lines.len(),
    ensures
        replacement(text, lines, start, n).len() == produced(lines, n),
    decreases n,
{
    if n > 0 {
        lemma_replacement_len(text, lines, start, n - 1);
    }
}

/// The end of the range that a hunk laid at `start` replaces: as many lines
/// on as it declares, or the end of the text where that comes first.
pub open spec fn range_end(text: Seq<Seq<char>>, hunk: HunkModel, start: int) -> int {
    if start + hunk.source_length <= text.len() {
        start + hunk.source_length
    } else {
        text.len() as int
    }
}

/// Applying a hunk at `start` touches no line outside the range that it
/// replaces. The lines before `start` stay where they are; the lines after
/// the range keep their order and follow what the hunk put in. The number of
/// lines changes by the lines put in less the lines replaced: a hunk that
/// declares two lines, removes two and adds three makes the text one line
/// longer.
pub proof fn lemma_splice_keeps_outside(text: Seq<Seq<char>>, hunk: HunkModel, start: int)
    requires
        0 <= start <= text.len(),
    ensures
        rewritten(text, hunk, start).len() == text.len() - (range_end(text, hunk, start) - start)
            + produced(hunk.lines, hunk.lines.len() as int),
        forall|i: int| 0 <= i < start ==> #[trigger] rewritten(text, hunk, start)[i] == text[i],
        forall|i: int|
            range_end(text, hunk, start) <= i < text.len() ==> rewritten(text, hunk, start)[i - (
            range_end(text, hunk, start) - start) + produced(hunk.lines, hunk.lines.len() as int)]
                == #[trigger] text[i],
{
    lemma_replacement_len(text, hunk.lines, start, hunk.lines.len() as int);
    lemma_counts(hunk.lines, hunk.lines.len() as int);
}

/// Hunks are applied one after the other: applying a list of hunks is
/// applying its first part and then, to the lines that this left, the rest.
/// A later hunk is therefore looked for in the text as the earlier ones
/// rewrote it, at the place it records.
pub proof fn lemma_hunks_in_sequence(
    text: Seq<Seq<char>>,
    first: Seq<HunkModel>,
    second: Seq<HunkModel>,
    fuzz: nat,
    min_context: nat,
)
    ensures
        patched(text, first + second, fuzz, min_context) == match patched(
            text,
            first,
            fuzz,
            min_context,
        ) {
            Ok(lines) => patched(lines, second, fuzz, min_context),
            Err(failure) => Err(failure),
        },
{
    lemma_sequence_upto(text, first, second, fuzz, min_context, second.len() as int);
    assert((first + second).len() == first.len() + second.len());
}

/// The hunks that follow do not change what the first hunks of a list do.
proof fn lemma_prefix_upto(
    text: Seq<Seq<char>>,
    first: Seq<HunkModel>,
    second: Seq<HunkModel>,
    fuzz: nat,
    min_context: nat,
    n: int,
)
    requires
        0 <= n <= first.len(),
    ensures
        patched_upto(text, first + second, fuzz, min_context, n) == patched_upto(
            text,
            first,
            fuzz,
            min_context,
            n,
        ),
    decreases n,
{
    if n > 0 {
        lemma_prefix_upto(text, first, second, fuzz, min_context, n - 1);
        assert((first + second)[n - 1] == first[n - 1]);
    }
}

/// Applying the first part of a list and `n` hunks of the rest is applying
/// the first part and then, to what it left, those `n` hunks.
proof fn lemma_sequence_upto(
    text: Seq<Seq<char>>,
    first: Seq<HunkModel>,
    second: Seq<HunkModel>,
    fuzz: nat,
    min_context: nat,
    n: int,
)
    requires
        0 <= n <= second.len(),
    ensures
        patched_upto(text, first + second, fuzz, min_context, first.len() + n) == match patched(
            text,
            first,
            fuzz,
            min_context,
        ) {
            Ok(lines) => patched_upto(lines, second, fuzz, min_context, n),
            Err(failure) => Err(failure),
        },
    decreases n,
{
    if n == 0 {
        lemma_prefix_upto(text, first, second, fuzz, min_context, first.len() as int);
    } else {
        lemma_sequence_upto(text, first, second, fuzz, min_context, n - 1);
        assert((first + second)[first.len() + n - 1] == second[n - 1]);
    }
}

/// Two hunks: the second is looked for in what the first one left, not in
/// the text that both were recorded against.
pub proof fn lemma_second_hunk_sees_first(
    text: Seq<Seq<char>>,
    one: HunkModel,
    two: HunkModel,
    fuzz: nat,
    min_context: nat,
)
    ensures
        patched(text, seq![one, two], fuzz, min_context) == match hunk_outcome(
            text,
            one,
            fuzz,
            min_context,
        ) {
            Ok(lines) => hunk_outcome(lines, two, fuzz, min_context),
            Err(failure) => Err(failure),
        },
{
    lemma_hunks_in_sequence(text, seq![one], seq![two], fuzz, min_context);
    lemma_single_hunk(text, one, fuzz, min_context);
    assert(seq![one] + seq![two] == seq![one, two]);
    match hunk_outcome(text, one, fuzz, min_context) {
        Ok(lines) => {
            lemma_single_hunk(lines, two, fuzz, min_context);
        },
        Err(_) => {},
    }
}

/// A hunk with a context line whose text is no line of the text is applied
/// nowhere, whatever the reach.
pub proof fn lemma_missing_context_fails(
    text: Seq<Seq<char>>,
    hunk: HunkModel,
    fuzz: nat,
    min_context: nat,
    missing: int,
)
    requires
        0 <= missing < hunk.lines.len(),
        hunk.lines[missing].kind == LineKind::Context,
        forall|i: int|
            0 <= i < text.len() ==> #[trigger] text[i] != without_trailing_newlines(
                hunk.lines[missing].text,
            ),
    ensures
        patched(text, seq![hunk], fuzz, min_context) == Err::<Seq<Seq<char>>, Failure>(
            Failure { target_start: hunk.target_start, fuzz },
        ),
{
    lemma_counts(hunk.lines, missing);
    assert forall|start: int| in_reach(hunk, fuzz, start) implies !#[trigger] fits(
        text,
        hunk,
        min_context,
        start,
    ) by {
        if fits(text, hunk, min_context, start) {
            let at = start + consumed(hunk.lines, missing);
            assert(hunk.lines[missing].kind == LineKind::Context);
            assert(text[at] == without_trailing_newlines(hunk.lines[missing].text));
        }
    }
    lemma_position_none(text, hunk, fuzz, min_context);
    lemma_single_hunk(text, hunk, fuzz, min_context);
}

/// Text without a line feed goes to the last piece.
proof fn lemma_pieces_of_appended(text: Seq<char>, line: Seq<char>)
    requires
        is_single_line(line),
    ensures
        pieces(text).len() >= 1,
        pieces(text + line) == pieces(text).update(
            pieces(text).len() - 1,
            pieces(text).last() + line,
        ),
    decreases line.len(),
{
    lemma_pieces_nonempty(text);
    if line.len() == 0 {
        assert(text + line == text);
        assert(pieces(text).last() + line == pieces(text).last());
        assert(pieces(text).update(pieces(text).len() - 1, pieces(text).last()) == pieces(text));
    } else {
        let shorter = line.drop_last();
        lemma_pieces_of_appended(text, shorter);
        assert((text + line).drop_last() == text + shorter);
        assert((text + line).last() == line.last());
        assert(line.last() == line[line.len() - 1]);
        assert((pieces(text).last() + shorter).push(line.last()) == pieces(text).last() + line);
    }
}

/// Joined lines are cut at the line feeds between them, and nowhere else.
proof fn lemma_pieces_of_joined(lines: Seq<Seq<char>>)
    requires
        lines.len() >= 1,
        forall|i: int| 0 <= i < lines.len() ==> is_single_line(#[trigger] lines[i]),
    ensures
        pieces(joined(lines)) == lines,
    decreases lines.len(),
{
    let empty = Seq::<char>::empty();
    if lines.len() == 1 {
        lemma_pieces_of_appended(empty, lines[0]);
        assert(empty + lines[0] == lines[0]);
        assert(pieces(empty) == seq![empty]);
        assert(seq![empty].update(0, empty + lines[0]) == lines);
    } else {
        let front = lines.drop_last();
        assert forall|i: int| 0 <= i < front.len() implies is_single_line(#[trigger] front[i]) by {
            assert(front[i] == lines[i]);
        }
        lemma_pieces_of_joined(front);
        let ended = joined(front) + seq!['\n'];
        assert(ended == joined(front).push('\n'));
        assert(ended.drop_last() == joined(front));
        assert(pieces(ended) == front.push(empty));
        lemma_pieces_of_appended(ended, lines.last());
        assert(empty + lines.last() == lines.last());
        assert(front.push(empty).update(front.len() as int, lines.last()) == lines);
    }
}

/// Splitting what was joined gives the lines back, if they can be lines at
/// all: none holds a line feed, none but the last ends with a carriage
/// return, and the last is not empty.
pub proof fn lemma_split_of_joined(lines: Seq<Seq<char>>)
    requires
        forall|i: int| 0 <= i < lines.len() ==> is_single_line(#[trigger] lines[i]),
        forall|i: int|
            0 <= i < lines.len() - 1 ==> without_carriage_return(#[trigger] lines[i]) == lines[i],
        lines.len() > 0 ==> lines.last().len() > 0,
    ensures
        lines_of(joined(lines)) == lines,
{
    if lines.len() == 0 {
        assert(pieces(joined(lines)) == seq![Seq::<char>::empty()]);
        assert(lines_of(joined(lines)) == lines);
    } else {
        lemma_pieces_of_joined(lines);
        let front = lines.drop_last();
        assert(front.map_values(|line: Seq<char>| without_carriage_return(line)) == front);
        assert(front.push(lines.last()) == lines);
    }
}

} // verus!

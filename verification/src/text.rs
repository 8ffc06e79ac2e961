//! Text as a sequence of lines: taking it apart, putting it together, and
//! dropping the line feeds at the end of a stored line.
//!
//! A text is split at its line feeds. A carriage return directly before a
//! line feed goes with it; any other carriage return stays in its line. A
//! line feed at the very end of the text opens no further line, so splitting
//! a text and joining its lines again may lose that last line feed, and
//! turns each carriage return and line feed into a line feed alone.

use vstd::prelude::*;

verus! {

/// `text` without the line feeds at its end.
pub open spec fn without_trailing_newlines(text: Seq<char>) -> Seq<char>
    decreases text.len(),
{
    if text.len() > 0 && text.last() == '\n' {
        without_trailing_newlines(text.drop_last())
    } else {
        text
    }
}

/// `line` without a carriage return at its end.
pub open spec fn without_carriage_return(line: Seq<char>) -> Seq<char> {
    if line.len() > 0 && line.last() == '\r' {
        line.drop_last()
    } else {
        line
    }
}

/// `text` cut at each line feed, the line feeds left out. A text with `k`
/// line feeds has `k + 1` pieces; the last one holds what follows the last
/// line feed and may be empty.
pub open spec fn pieces(text: Seq<char>) -> Seq<Seq<char>>
    decreases text.len(),
{
    if text.len() == 0 {
        seq![Seq::empty()]
    } else {
        let before = pieces(text.drop_last());
        if text.last() == '\n' {
            before.push(Seq::empty())
        } else {
            before.update(before.len() - 1, before.last().push(text.last()))
        }
    }
}

/// The lines of `text`. A line ends at a line feed, or at a carriage return
/// directly followed by one; neither belongs to the line. What follows the
/// last line feed is a line of its own unless it is empty, and keeps a
/// carriage return at its end.
pub open spec fn lines_of(text: Seq<char>) -> Seq<Seq<char>> {
    let cut = pieces(text);
    let ended = cut.drop_last().map_values(|line: Seq<char>| without_carriage_return(line));
    if cut.last().len() == 0 {
        ended
    } else {
        ended.push(cut.last())
    }
}

/// `line` holds no line feed.
pub open spec fn is_single_line(line: Seq<char>) -> bool {
    forall|i: int| 0 <= i < line.len() ==> #[trigger] line[i] != '\n'
}

/// The lines with one line feed between each two of them.
pub open spec fn joined(lines: Seq<Seq<char>>) -> Seq<char>
    decreases lines.len(),
{
    if lines.len() == 0 {
        Seq::empty()
    } else if lines.len() == 1 {
        lines[0]
    } else {
        joined(lines.drop_last()) + seq!['\n'] + lines.last()
    }
}

/// `String::push` of the standard library: the character is appended to the
/// string, which is otherwise left as it was.
pub assume_specification[ String::push ](text: &mut String, ch: char)
    ensures
        final(text)@ == old(text)@.push(ch),
;

/// Dropping trailing line feeds leaves the prefix that ends with the last
/// character that is no line feed.
proof fn lemma_trailing_newlines(text: Seq<char>, keep: int)
    requires
        0 <= keep <= text.len(),
        keep == 0 || text[keep - 1] != '\n',
        forall|j: int| keep <= j < text.len() ==> text[j] == '\n',
    ensures
        without_trailing_newlines(text) == text.subrange(0, keep),
    decreases text.len(),
{
    if keep == text.len() {
        assert(text.subrange(0, keep) == text);
    } else {
        let shorter = text.drop_last();
        lemma_trailing_newlines(shorter, keep);
        assert(shorter.subrange(0, keep) == text.subrange(0, keep));
    }
}

/// A text has one piece more than it has line feeds, so at least one.
pub proof fn lemma_pieces_nonempty(text: Seq<char>)
    ensures
        pieces(text).len() >= 1,
    decreases text.len(),
{
    if text.len() > 0 {
        lemma_pieces_nonempty(text.drop_last());
    }
}

/// No piece of a text holds a line feed.
proof fn lemma_pieces_are_single(text: Seq<char>)
    ensures
        forall|i: int| 0 <= i < pieces(text).len() ==> is_single_line(#[trigger] pieces(text)[i]),
    decreases text.len(),
{
    if text.len() > 0 {
        lemma_pieces_are_single(text.drop_last());
        lemma_pieces_nonempty(text.drop_last());
    }
}

/// No line of a text holds a line feed.
pub proof fn lemma_lines_are_single(text: Seq<char>)
    ensures
        forall|i: int| 0 <= i < lines_of(text).len() ==> is_single_line(#[trigger] lines_of(text)[i]),
{
    lemma_pieces_are_single(text);
    lemma_pieces_nonempty(text);
    let cut = pieces(text);
    assert forall|i: int| 0 <= i < lines_of(text).len() implies is_single_line(
        #[trigger] lines_of(text)[i],
    ) by {
        if i < cut.len() - 1 {
            assert(lines_of(text)[i] == without_carriage_return(cut[i]));
            assert(is_single_line(cut[i]));
        } else {
            assert(lines_of(text)[i] == cut[i]);
        }
    }
}

/// A copy of `value` without the line feeds at its end.
pub fn trim_newlines(value: &str) -> (trimmed: String)
    ensures
        trimmed@ == without_trailing_newlines(value@),
{
    let total: usize = value.unicode_len();
    let mut seen: usize = 0;
    let mut keep: usize = 0;
    for c in it: value.chars()
        invariant
            it.seq() == value@,
            total == value@.len(),
            seen == it.index(),
            keep <= seen,
            keep == 0 || value@[keep - 1] != '\n',
            forall|j: int| keep <= j < seen ==> value@[j] == '\n',
    {
        seen = seen + 1;
        if c != '\n' {
            keep = seen;
        }
    }
    proof {
        lemma_trailing_newlines(value@, keep as int);
    }
    value.substring_char(0, keep).to_owned()
}

/// Splits `input` into its lines.
pub fn split_lines(input: &str) -> (lines: Vec<String>)
    ensures
        lines.deep_view() == lines_of(input@),
{
    let mut lines: Vec<String> = Vec::new();
    let mut current = String::new();
    let mut held_cr = false;
    for c in it: input.chars()
        invariant
            it.seq() == input@,
            lines.deep_view() == pieces(input@.subrange(0, it.index())).drop_last().map_values(
                |line: Seq<char>| without_carriage_return(line),
            ),
            pieces(input@.subrange(0, it.index())).last() == if held_cr {
                current@.push('\r')
            } else {
                current@
            },
            !held_cr ==> current@.len() == 0 || current@.last() != '\r',
    {
        let ghost seen = it.index();
        let ghost before = pieces(input@.subrange(0, seen));
        let ghost old_lines = lines.deep_view();
        let ghost line = current@;
        proof {
            lemma_pieces_nonempty(input@.subrange(0, seen));
            assert(input@.subrange(0, seen + 1).drop_last() == input@.subrange(0, seen));
            assert(input@.subrange(0, seen + 1).last() == c);
        }
        if c == '\n' {
            lines.push(current);
            current = String::new();
            held_cr = false;
            proof {
                let after = pieces(input@.subrange(0, seen + 1));
                assert(after == before.push(Seq::empty()));
                assert(after.drop_last() == before);
                assert(before == before.drop_last().push(before.last()));
                assert(without_carriage_return(before.last()) == line);
                assert(lines.deep_view() == old_lines.push(line));
                assert(lines.deep_view() == after.drop_last().map_values(
                    |line: Seq<char>| without_carriage_return(line),
                ));
            }
        } else if c == '\r' {
            if held_cr {
                current.push('\r');
            }
            held_cr = true;
            proof {
                let after = pieces(input@.subrange(0, seen + 1));
                assert(after.drop_last() == before.drop_last());
            }
        } else {
            if held_cr {
                current.push('\r');
                held_cr = false;
            }
            current.push(c);
            proof {
                let after = pieces(input@.subrange(0, seen + 1));
                assert(after.drop_last() == before.drop_last());
            }
        }
    }
    proof {
        assert(input@.subrange(0, input@.len() as int) == input@);
    }
    if held_cr {
        current.push('\r');
    }
    if !current.as_str().is_empty() {
        let ghost ended = lines.deep_view();
        lines.push(current);
        assert(lines.deep_view() == ended.push(current@));
    }
    lines
}

/// Joins `lines` with one line feed between each two of them.
pub fn join_lines(lines: &Vec<String>) -> (text: String)
    ensures
        text@ == joined(lines.deep_view()),
{
    let mut text = String::new();
    let mut i: usize = 0;
    while i < lines.len()
        invariant
            i <= lines.len(),
            text@ == joined(lines.deep_view().subrange(0, i as int)),
        decreases lines.len() - i,
    {
        proof {
            reveal_strlit("\n");
            let upto = lines.deep_view().subrange(0, i + 1);
            assert(upto.drop_last() == lines.deep_view().subrange(0, i as int));
            assert(upto.last() == lines[i as int]@);
            assert(seq!['\n'] == "\n"@);
        }
        if i > 0 {
            text.append("\n");
        }
        text.append(lines[i].as_str());
        i = i + 1;
    }
    proof {
        assert(lines.deep_view().subrange(0, lines.len() as int) == lines.deep_view());
    }
    text
}

} // verus!

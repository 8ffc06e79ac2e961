use udiff::apply::{apply, apply_hunks, apply_with_fuzz, DEFAULT_FUZZ, DEFAULT_MIN_CONTEXT_MATCHES};
use udiff::error::ApplyError;
use udiff::hunk::{Hunk, HunkLine, LineKind};
use udiff::search::find_position;
use udiff::splice::apply_hunk;

fn context(value: &str) -> HunkLine {
    HunkLine { kind: LineKind::Context, value: value.to_string() }
}

fn removed(value: &str) -> HunkLine {
    HunkLine { kind: LineKind::Removed, value: value.to_string() }
}

fn added(value: &str) -> HunkLine {
    HunkLine { kind: LineKind::Added, value: value.to_string() }
}

fn hunk(source_start: usize, source_length: usize, target_start: usize, lines: Vec<HunkLine>) -> Hunk {
    Hunk { source_start, source_length, target_start, lines }
}

fn lines(text: &[&str]) -> Vec<String> {
    text.iter().map(|line| line.to_string()).collect()
}

#[test]
fn replaces_one_line_at_the_recorded_place() {
    let hunks = vec![hunk(1, 2, 1, vec![context("b"), removed("c"), added("x"), added("y")])];
    let done = apply_with_fuzz("a\nb\nc\nd", &hunks, 0, 1);
    assert_eq!(done, Ok("a\nb\nx\ny\nd".to_string()));
}

#[test]
fn fails_where_no_line_in_reach_matches() {
    let hunks = vec![hunk(5, 1, 7, vec![context("z")])];
    let done = apply_with_fuzz("a\nb", &hunks, 1, 1);
    assert_eq!(done, Err(ApplyError { target_start: 7, fuzz: 1 }));
}

#[test]
fn fails_where_the_context_stands_nowhere_whatever_the_reach() {
    let hunks = vec![hunk(0, 1, 3, vec![context("z"), added("y")])];
    assert_eq!(
        apply_with_fuzz("a\nb", &hunks, 100, 0),
        Err(ApplyError { target_start: 3, fuzz: 100 })
    );
}

#[test]
fn defaults_are_three_lines_and_one_context_line() {
    assert_eq!(DEFAULT_FUZZ, 3);
    assert_eq!(DEFAULT_MIN_CONTEXT_MATCHES, 1);
    let hunks = vec![hunk(4, 1, 5, vec![context("b"), added("x")])];
    assert_eq!(apply("a\nb\nc", &hunks), Ok("a\nb\nx\nc".to_string()));
    let too_far = vec![hunk(5, 1, 6, vec![context("b"), added("x")])];
    assert_eq!(apply("a\nb\nc", &too_far), Err(ApplyError { target_start: 6, fuzz: 3 }));
    let no_context = vec![hunk(1, 1, 2, vec![removed("b"), added("x")])];
    assert_eq!(apply("a\nb\nc", &no_context), Err(ApplyError { target_start: 2, fuzz: 3 }));
}

#[test]
fn exact_place_needs_no_reach() {
    let hunks = vec![hunk(
        2,
        3,
        3,
        vec![context("three"), removed("four"), added("4"), context("five"), added("5.5")],
    )];
    let done = apply_with_fuzz("one\ntwo\nthree\nfour\nfive\nsix", &hunks, 0, 1);
    assert_eq!(done, Ok("one\ntwo\nthree\n4\nfive\n5.5\nsix".to_string()));
}

#[test]
fn drift_within_reach_is_tolerated() {
    let hunks = vec![hunk(1, 2, 2, vec![context("b"), removed("c"), added("x")])];
    for extra in 0..=2usize {
        let mut input = String::new();
        for _ in 0..extra {
            input.push_str("new\n");
        }
        input.push_str("a\nb\nc\nd");
        let mut expected = String::new();
        for _ in 0..extra {
            expected.push_str("new\n");
        }
        expected.push_str("a\nb\nx\nd");
        assert_eq!(apply_with_fuzz(&input, &hunks, 2, 1), Ok(expected));
    }
}

#[test]
fn drift_beyond_reach_fails() {
    let hunks = vec![hunk(1, 2, 2, vec![context("b"), removed("c"), added("x")])];
    let input = "new\nnew\nnew\na\nb\nc\nd";
    assert_eq!(apply_with_fuzz(input, &hunks, 2, 1), Err(ApplyError { target_start: 2, fuzz: 2 }));
    assert_eq!(apply_with_fuzz(input, &hunks, 3, 1), Ok("new\nnew\nnew\na\nb\nx\nd".to_string()));
}

#[test]
fn drift_upwards_is_tolerated_too() {
    let hunks = vec![hunk(3, 2, 4, vec![context("b"), removed("c"), added("x")])];
    assert_eq!(apply_with_fuzz("a\nb\nc\nd", &hunks, 2, 1), Ok("a\nb\nx\nd".to_string()));
    assert_eq!(
        apply_with_fuzz("a\nb\nc\nd", &hunks, 1, 1),
        Err(ApplyError { target_start: 4, fuzz: 1 })
    );
}

#[test]
fn hunk_without_context_needs_zero_min_context() {
    let hunks = vec![hunk(1, 1, 2, vec![removed("b"), added("x")])];
    assert_eq!(apply_with_fuzz("a\nb\nc", &hunks, 0, 1), Err(ApplyError { target_start: 2, fuzz: 0 }));
    assert_eq!(apply_with_fuzz("a\nb\nc", &hunks, 0, 0), Ok("a\nx\nc".to_string()));
}

#[test]
fn min_context_counts_every_context_line_of_the_hunk() {
    let hunks = vec![hunk(0, 3, 1, vec![context("a"), removed("b"), context("c")])];
    assert_eq!(apply_with_fuzz("a\nb\nc", &hunks, 0, 2), Ok("a\nc".to_string()));
    assert_eq!(apply_with_fuzz("a\nb\nc", &hunks, 0, 3), Err(ApplyError { target_start: 1, fuzz: 0 }));
}

#[test]
fn splice_changes_only_the_declared_range() {
    let hunks = vec![hunk(
        2,
        2,
        3,
        vec![removed("c"), removed("d"), added("x"), added("y"), added("z")],
    )];
    let before = lines(&["a", "b", "c", "d", "e", "f"]);
    let after = apply_hunks(before.clone(), &hunks, 0, 0).unwrap();
    assert_eq!(after.len(), before.len() + 1);
    assert_eq!(after[..2], before[..2]);
    assert_eq!(after[2..5], lines(&["x", "y", "z"])[..]);
    assert_eq!(after[5..], before[4..]);
}

#[test]
fn second_hunk_is_looked_for_in_the_edited_lines() {
    let hunks = vec![
        hunk(1, 1, 2, vec![context("b"), added("x"), added("y")]),
        hunk(4, 2, 7, vec![context("e"), removed("f"), added("g")]),
    ];
    let input = "a\nb\nc\nd\ne\nf";
    assert_eq!(apply_with_fuzz(input, &hunks, 0, 1), Err(ApplyError { target_start: 7, fuzz: 0 }));
    assert_eq!(apply_with_fuzz(input, &hunks, 2, 1), Ok("a\nb\nx\ny\nc\nd\ne\ng".to_string()));
}

#[test]
fn second_hunk_may_match_what_the_first_one_added() {
    let hunks = vec![
        hunk(0, 1, 1, vec![context("a"), added("c")]),
        hunk(2, 1, 3, vec![context("c"), added("z")]),
    ];
    assert_eq!(apply_with_fuzz("a\nb\nc", &hunks, 1, 1), Ok("a\nc\nz\nb\nc".to_string()));
}

#[test]
fn failure_of_a_later_hunk_returns_no_text() {
    let hunks = vec![
        hunk(0, 1, 1, vec![context("a"), added("x")]),
        hunk(1, 1, 9, vec![context("missing")]),
        hunk(2, 1, 3, vec![context("c"), added("y")]),
    ];
    assert_eq!(apply_with_fuzz("a\nb\nc", &hunks, 3, 1), Err(ApplyError { target_start: 9, fuzz: 3 }));
}

#[test]
fn lowest_place_in_reach_wins() {
    let hunks = vec![hunk(1, 1, 2, vec![context("x"), added("y")])];
    assert_eq!(apply_with_fuzz("x\nx\nx", &hunks, 1, 1), Ok("x\ny\nx\nx".to_string()));
    assert_eq!(apply_with_fuzz("x\nx\nx", &hunks, 0, 1), Ok("x\nx\ny\nx".to_string()));
}

#[test]
fn places_outside_the_text_are_skipped() {
    let text = lines(&["a", "b"]);
    let at_start = hunk(0, 1, 1, vec![context("a")]);
    assert_eq!(find_position(&text, &at_start, 5, 1), Some(0));
    let past_end = hunk(7, 1, 8, vec![context("b")]);
    assert_eq!(find_position(&text, &past_end, 6, 1), Some(1));
    assert_eq!(find_position(&text, &past_end, 5, 1), None);
    let no_lines = hunk(2, 0, 3, vec![added("x")]);
    assert_eq!(find_position(&text, &no_lines, 0, 0), None);
    assert_eq!(find_position(&text, &no_lines, 1, 0), Some(1));
}

#[test]
fn whole_range_of_reach_is_usable() {
    let text = lines(&["a", "b", "c"]);
    let far = hunk(usize::MAX, 1, 1, vec![context("c")]);
    assert_eq!(find_position(&text, &far, usize::MAX, 1), Some(2));
    assert_eq!(find_position(&text, &far, usize::MAX - 3, 1), None);
    let near = hunk(1, 1, 1, vec![context("a")]);
    assert_eq!(find_position(&text, &near, usize::MAX, 1), Some(0));
}

#[test]
fn stored_values_lose_their_trailing_line_feeds() {
    let hunks = vec![hunk(0, 2, 1, vec![context("a\n"), removed("b\n"), added("x\n\n")])];
    assert_eq!(apply_with_fuzz("a\nb\nc", &hunks, 0, 1), Ok("a\nx\nc".to_string()));
    let inner = vec![hunk(0, 1, 1, vec![context("a"), added("x\ny")])];
    assert_eq!(apply_with_fuzz("a", &inner, 0, 1), Ok("a\nx\ny".to_string()));
}

#[test]
fn removed_lines_are_not_compared() {
    let hunks = vec![hunk(0, 2, 1, vec![context("a"), removed("something else")])];
    assert_eq!(apply_with_fuzz("a\nb\nc", &hunks, 0, 1), Ok("a\nc".to_string()));
}

#[test]
fn context_after_the_end_of_the_text_is_a_mismatch() {
    let hunks = vec![hunk(1, 2, 2, vec![context("b"), context("c")])];
    assert_eq!(apply_with_fuzz("a\nb", &hunks, 0, 1), Err(ApplyError { target_start: 2, fuzz: 0 }));
}

#[test]
fn declared_range_ends_with_the_text() {
    let hunks = vec![hunk(1, 5, 2, vec![context("b"), removed("c"), removed("d"), added("x")])];
    assert_eq!(apply_with_fuzz("a\nb\nc", &hunks, 0, 1), Ok("a\nb\nx".to_string()));
}

#[test]
fn declared_length_decides_what_is_replaced() {
    let short = vec![hunk(0, 1, 1, vec![context("a"), removed("b"), added("x")])];
    assert_eq!(apply_with_fuzz("a\nb\nc", &short, 0, 1), Ok("a\nx\nb\nc".to_string()));
    let none = vec![hunk(1, 0, 2, vec![added("x")])];
    assert_eq!(apply_with_fuzz("a\nb\nc", &none, 0, 0), Ok("a\nx\nb\nc".to_string()));
}

#[test]
fn empty_input_takes_no_hunk() {
    let hunks = vec![hunk(0, 0, 1, vec![added("x")])];
    assert_eq!(apply_with_fuzz("", &hunks, 3, 0), Err(ApplyError { target_start: 1, fuzz: 3 }));
}

#[test]
fn no_hunks_join_the_lines_again() {
    let none: Vec<Hunk> = Vec::new();
    assert_eq!(apply_with_fuzz("", &none, 3, 1), Ok(String::new()));
    assert_eq!(apply_with_fuzz("a\nb", &none, 3, 1), Ok("a\nb".to_string()));
    assert_eq!(apply_with_fuzz("a\nb\n", &none, 3, 1), Ok("a\nb".to_string()));
    assert_eq!(apply_with_fuzz("a\r\nb\r\n", &none, 3, 1), Ok("a\nb".to_string()));
}

#[test]
fn apply_hunk_rewrites_in_place_or_leaves_the_lines() {
    let mut text = lines(&["a", "b", "c"]);
    let fitting = hunk(1, 1, 2, vec![context("b"), added("x")]);
    assert_eq!(apply_hunk(&mut text, &fitting, 0, 1), Ok(()));
    assert_eq!(text, lines(&["a", "b", "x", "c"]));
    let missing = hunk(1, 1, 5, vec![context("q")]);
    assert_eq!(apply_hunk(&mut text, &missing, 2, 1), Err(ApplyError { target_start: 5, fuzz: 2 }));
    assert_eq!(text, lines(&["a", "b", "x", "c"]));
}

#[test]
fn apply_hunks_returns_the_lines() {
    let hunks = vec![
        hunk(0, 1, 1, vec![removed("a")]),
        hunk(0, 1, 1, vec![context("b"), added("x")]),
    ];
    assert_eq!(apply_hunks(lines(&["a", "b"]), &hunks, 0, 0), Ok(lines(&["b", "x"])));
    assert_eq!(
        apply_hunks(lines(&["a", "b"]), &hunks, 0, 1),
        Err(ApplyError { target_start: 1, fuzz: 0 })
    );
}

/// The hunks applied by a plain walk over the offsets from `-fuzz` to `fuzz`.
fn walk(input: &[String], hunks: &[Hunk], fuzz: i64, min_context_matches: usize) -> Result<Vec<String>, ApplyError> {
    let mut text: Vec<String> = input.to_vec();
    for hunk in hunks {
        let mut found = None;
        for offset in -fuzz..=fuzz {
            let start = hunk.source_start as i64 + offset;
            if start < 0 || start >= text.len() as i64 {
                continue;
            }
            let mut cursor = start as usize;
            let mut matches = 0;
            let mut mismatch = false;
            for line in &hunk.lines {
                match line.kind {
                    LineKind::Context => {
                        if cursor >= text.len() || text[cursor] != line.value.trim_end_matches('\n') {
                            mismatch = true;
                            break;
                        }
                        matches += 1;
                        cursor += 1;
                    }
                    LineKind::Removed => cursor += 1,
                    LineKind::Added => {}
                }
            }
            if !mismatch && matches >= min_context_matches {
                found = Some(start as usize);
                break;
            }
        }
        let start = match found {
            Some(start) => start,
            None => return Err(ApplyError { target_start: hunk.target_start, fuzz: fuzz as usize }),
        };
        let mut output = Vec::new();
        let mut cursor = start;
        for line in &hunk.lines {
            match line.kind {
                LineKind::Context => {
                    output.push(text[cursor].clone());
                    cursor += 1;
                }
                LineKind::Removed => cursor += 1,
                LineKind::Added => output.push(line.value.trim_end_matches('\n').to_string()),
            }
        }
        let end = (start + hunk.source_length).min(text.len());
        text.splice(start..end, output);
    }
    Ok(text)
}

fn all_hunk_lines(most: usize) -> Vec<Vec<HunkLine>> {
    let pool = [context("a"), context("b\n"), removed("a"), removed("b"), added("a"), added("c\n\n")];
    let mut all: Vec<Vec<HunkLine>> = vec![Vec::new()];
    let mut last: Vec<Vec<HunkLine>> = vec![Vec::new()];
    for _ in 0..most {
        let mut next = Vec::new();
        for lines in &last {
            for line in &pool {
                let mut longer = lines.clone();
                longer.push(line.clone());
                next.push(longer);
            }
        }
        all.extend(next.iter().cloned());
        last = next;
    }
    all
}

fn all_texts(most: usize) -> Vec<Vec<String>> {
    let mut all: Vec<Vec<String>> = vec![Vec::new()];
    let mut last: Vec<Vec<String>> = vec![Vec::new()];
    for _ in 0..most {
        let mut next = Vec::new();
        for text in &last {
            for line in ["a", "b"] {
                let mut longer = text.clone();
                longer.push(line.to_string());
                next.push(longer);
            }
        }
        all.extend(next.iter().cloned());
        last = next;
    }
    all
}

#[test]
fn single_hunks_agree_with_a_plain_walk_over_the_offsets() {
    let texts = all_texts(4);
    let mut tried = 0usize;
    for lines in all_hunk_lines(3) {
        for source_start in 0..6usize {
            for source_length in 0..4usize {
                let hunks = vec![hunk(source_start, source_length, 9, lines.clone())];
                for text in &texts {
                    for fuzz in 0..4usize {
                        for min_context_matches in 0..3usize {
                            assert_eq!(
                                apply_hunks(text.clone(), &hunks, fuzz, min_context_matches),
                                walk(text, &hunks, fuzz as i64, min_context_matches)
                            );
                            tried += 1;
                        }
                    }
                }
            }
        }
    }
    assert_eq!(tried, 259 * 6 * 4 * 31 * 4 * 3);
}

#[test]
fn pairs_of_hunks_agree_with_a_plain_walk_over_the_offsets() {
    let texts = all_texts(3);
    let bodies = all_hunk_lines(2);
    for first in &bodies {
        for second in &bodies {
            for starts in 0..9usize {
                let hunks = vec![
                    hunk(starts / 3, first.len(), 1, first.clone()),
                    hunk(starts % 3 + 1, second.len(), 2, second.clone()),
                ];
                for text in &texts {
                    for fuzz in 0..3usize {
                        assert_eq!(apply_hunks(text.clone(), &hunks, fuzz, 1), walk(text, &hunks, fuzz as i64, 1));
                    }
                }
            }
        }
    }
}

use udiff::error::ApplyError;
use udiff::guard::is_readable;
use udiff::text::{join_lines, split_lines, trim_newlines};

fn lines(text: &[&str]) -> Vec<String> {
    text.iter().map(|line| line.to_string()).collect()
}

#[test]
fn splits_at_line_feeds() {
    assert_eq!(split_lines(""), Vec::<String>::new());
    assert_eq!(split_lines("a"), lines(&["a"]));
    assert_eq!(split_lines("a\nb"), lines(&["a", "b"]));
    assert_eq!(split_lines("a\nb\n"), lines(&["a", "b"]));
    assert_eq!(split_lines("\n"), lines(&[""]));
    assert_eq!(split_lines("a\n\nb\n\n"), lines(&["a", "", "b", ""]));
}

#[test]
fn carriage_return_before_line_feed_ends_the_line() {
    assert_eq!(split_lines("a\r\nb\r\n"), lines(&["a", "b"]));
    assert_eq!(split_lines("a\r\r\nb"), lines(&["a\r", "b"]));
    assert_eq!(split_lines("a\rb\nc\r"), lines(&["a\rb", "c\r"]));
    assert_eq!(split_lines("\r"), lines(&["\r"]));
    assert_eq!(split_lines("\r\n"), lines(&[""]));
    assert_eq!(split_lines("foo\nbar\n\r\nbaz\r"), lines(&["foo", "bar", "", "baz\r"]));
}

#[test]
fn splits_as_the_standard_library_does() {
    let samples = [
        "",
        "\n",
        "\r",
        "\r\n",
        "\n\r",
        "a",
        "a\n",
        "a\r\n\r\nb",
        "\r\r\n\r",
        "é\nü\r\n→",
        "one\ntwo\r\nthree\rfour\n\n\nfive",
    ];
    for sample in samples {
        let expected: Vec<String> = sample.lines().map(|line| line.to_string()).collect();
        assert_eq!(split_lines(sample), expected);
    }
}

#[test]
fn splits_every_short_text_as_the_standard_library_does() {
    let letters = ['a', '\n', '\r'];
    let mut tried = 0usize;
    for length in 0..=8usize {
        let mut choice = vec![0usize; length];
        loop {
            let text: String = choice.iter().map(|pick| letters[*pick]).collect();
            let expected: Vec<String> = text.lines().map(|line| line.to_string()).collect();
            assert_eq!(split_lines(&text), expected);
            tried += 1;
            let mut at = 0;
            while at < length {
                choice[at] += 1;
                if choice[at] < letters.len() {
                    break;
                }
                choice[at] = 0;
                at += 1;
            }
            if at == length {
                break;
            }
        }
    }
    assert_eq!(tried, 9841);
}

#[test]
fn trims_as_the_standard_library_does() {
    for sample in ["", "\n", "a\n\n", "\n\na", "a\nb\n\n\n", "\r\n", "\n\r", "\u{e9}\n", "\n\u{2192}\n\n"] {
        assert_eq!(trim_newlines(sample), sample.trim_end_matches('\n'));
    }
}

#[test]
fn joins_as_the_standard_library_does() {
    for sample in [vec![], vec![""], vec!["a"], vec!["", ""], vec!["a", "", "b"], vec!["\n", "x"]] {
        let owned = lines(&sample);
        assert_eq!(join_lines(&owned), owned.join("\n"));
    }
}

#[test]
fn joins_with_single_line_feeds() {
    assert_eq!(join_lines(&lines(&[])), "");
    assert_eq!(join_lines(&lines(&["a"])), "a");
    assert_eq!(join_lines(&lines(&["a", "b", "c"])), "a\nb\nc");
    assert_eq!(join_lines(&lines(&["", ""])), "\n");
    assert_eq!(join_lines(&lines(&["a", ""])), "a\n");
}

#[test]
fn trims_every_trailing_line_feed() {
    assert_eq!(trim_newlines(""), "");
    assert_eq!(trim_newlines("a"), "a");
    assert_eq!(trim_newlines("a\n"), "a");
    assert_eq!(trim_newlines("a\n\n\n"), "a");
    assert_eq!(trim_newlines("\n\n"), "");
    assert_eq!(trim_newlines("a\nb\n"), "a\nb");
    assert_eq!(trim_newlines("\na"), "\na");
    assert_eq!(trim_newlines("a\r\n"), "a\r");
    assert_eq!(trim_newlines("é\n"), "é");
}

#[test]
fn failure_is_reported_in_one_sentence() {
    let error = ApplyError { target_start: 7, fuzz: 3 };
    assert_eq!(error.message(), "Failed to apply hunk near line 7 with fuzz 3");
    let large = ApplyError { target_start: 1234567890, fuzz: 0 };
    assert_eq!(large.message(), "Failed to apply hunk near line 1234567890 with fuzz 0");
    let widest = ApplyError { target_start: usize::MAX, fuzz: 10 };
    assert_eq!(
        widest.message(),
        format!("Failed to apply hunk near line {} with fuzz {}", usize::MAX, 10)
    );
}

#[test]
fn readable_diffs_put_source_before_target() {
    assert!(is_readable(""));
    assert!(is_readable("--- a\n+++ b\n@@ -1 +1 @@\n-x\n+y\n"));
    assert!(is_readable("just some text\n"));
    assert!(!is_readable("+++ b\n--- a\n"));
    assert!(!is_readable("+++ b\n"));
    assert!(!is_readable("some text\n+++ b"));
    assert!(is_readable("+++ \tb\n"));
    assert!(is_readable("+++\n"));
    assert!(is_readable("--- \ta\n") && !is_readable("--- \ta\n+++ b\n"));
    assert!(is_readable("--- a\n+++ b\n--- c\n+++ d\n"));
}

#[test]
fn readable_diffs_may_end_in_an_error_of_the_parser() {
    assert!(is_readable("@@ -1 +1 @@\n+++ b"));
    assert!(is_readable("--- a\n@@ -1 +1 @@\n+++ b\n+++ c"));
    assert!(is_readable("--- a\n+++ b\n+++ c\n@@ -99999999999999999999999999 +1 @@\n"));
    assert!(is_readable(&format!("@@ -{}0 +1 @@\n+++ b", usize::MAX)));
    assert!(!is_readable("@@ -1 +1\n+++ b"));
}

#[test]
fn header_numbers_are_judged_by_their_value() {
    let most = usize::MAX;
    let beyond = format!("{}", most as u128 + 1);
    assert!(is_readable("--- a\n+++ b\n@@ -0000000000000000000000000000001,1 +1,1 @@\n-x\n+y"));
    assert!(is_readable("--- a\n+++ b\n@@ -1234567890,1 +1234567890,1 @@\n-x\n+y"));
    assert!(is_readable(&format!("--- a\n+++ b\n@@ -{most},0 +{most},0 @@\n")));
    assert!(is_readable(&format!("--- a\n+++ b\n@@ -0,{most} +0,{most} @@\n")));
    assert!(is_readable(&format!("--- a\n+++ b\n@@ -000{most},0 +1 @@\n")));
    assert!(!is_readable(&format!("--- a\n+++ b\n@@ -{beyond},0 +1 @@\n")));
    assert!(!is_readable(&format!("--- a\n+++ b\n@@ -1,{beyond} +1 @@\n")));
    assert!(!is_readable(&format!("--- a\n+++ b\n@@ -1 +{beyond} @@\n")));
    assert!(!is_readable(&format!("--- a\n+++ b\n@@ -1 +1,{beyond} @@\n")));
    assert!(!is_readable(&format!("--- a\n+++ b\n@@ -{most},1 +1 @@\n")));
    assert!(!is_readable(&format!("--- a\n+++ b\n@@ -{most} +1 @@\n")));
    assert!(!is_readable(&format!("--- a\n+++ b\n@@ -1 +1,{most} @@\n")));
    assert!(!is_readable("--- a\n+++ b\n@@ -99999999999999999999999999 +1 @@\n"));
}

#[test]
fn lines_of_a_hunk_may_not_count_beyond_the_largest_number() {
    let most = usize::MAX;
    assert!(is_readable(&format!("--- a\n+++ b\n@@ -{most},0 +1,1 @@\n+y\n-x")));
    assert!(!is_readable(&format!("--- a\n+++ b\n@@ -{most},0 +1,1 @@\n-x\n+y")));
    assert!(!is_readable(&format!("--- a\n+++ b\n@@ -{most},0 +1,1 @@\n same")));
    assert!(!is_readable(&format!("--- a\n+++ b\n@@ -1,1 +{most},0 @@\n+y")));
    assert!(is_readable(&format!("--- a\n+++ b\n@@ -{most},0 +1,1 @@\n\\ no line\n+y")));
}

#[test]
fn only_what_the_parser_takes_for_a_header_is_held_to_the_bound() {
    assert!(is_readable("--- a\n+++ b\n@@ -99999999999999999999999999\n"));
    assert!(is_readable("--- a\n+++ b\n@@ -99999999999999999999999999 +1 @\n"));
    assert!(is_readable("--- a\n+++ b\n@@ -99999999999999999999999999, +1 @@\n"));
    assert!(is_readable("--- a\n+++ b\n@@ -1,2 +1,2 @@ caf\u{e9} 12345678901234567890000\n"));
    assert!(is_readable("--- a\n+++ b\n@@ -\u{e9} +1 @@\n"));
    assert!(is_readable("--- a\n+++ b\n@@ -1\u{e9} +1 @@\n"));
    assert!(!is_readable("--- a\n+++ b\n@@ -\u{661},1 +1 @@\n"));
    assert!(!is_readable("--- a\n+++ b\n@@ -1 +1,\u{ff11} @@\n"));
    assert!(is_readable("@@ -\u{661},1 +1 @@\n+++ b"));
    assert!(!is_readable("@@ -\u{e9},1 +1 @@\n+++ b"));
    assert!(is_readable(
        "--- a\n+++ b\n@@ -1,2 +1,2 @@\n@@ -99999999999999999999999999 +1 @@\n-x\n+y\n"
    ));
    assert!(!is_readable(
        "--- a\n+++ b\n@@ -1,1 +1,1 @@\n@@ -99999999999999999999999999 +1 @@\n@@ -99999999999999999999999999 +1 @@\n"
    ));
    assert!(is_readable("--- a\n+++ b\n@@ -1,2 +1,1 @@\n+++ c\n--- d\n+++ e\n"));
}

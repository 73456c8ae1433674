use funixtools::lines::{join, join_stepwise, room_exists, split};

fn owned(lines: &[&str]) -> Vec<String> {
    lines.iter().map(|line| line.to_string()).collect()
}

fn std_split(text: &str, sep: &str) -> Vec<String> {
    text.split(sep).map(|piece| piece.to_string()).collect()
}

#[test]
fn split_cuts_at_every_separator() {
    assert_eq!(split("a\nb\nc", "\n"), owned(&["a", "b", "c"]));
    assert_eq!(split("one, two, three", ", "), owned(&["one", "two", "three"]));
}

#[test]
fn split_of_a_text_without_the_separator_is_the_text() {
    assert_eq!(split("abc", "\n"), owned(&["abc"]));
    assert_eq!(split("ab", "abc"), owned(&["ab"]));
}

#[test]
fn split_of_the_empty_text_is_one_empty_piece() {
    assert_eq!(split("", "\n"), owned(&[""]));
    assert_eq!(split("", "long"), owned(&[""]));
}

#[test]
fn split_keeps_empty_pieces() {
    assert_eq!(split("a\n", "\n"), owned(&["a", ""]));
    assert_eq!(split("\na", "\n"), owned(&["", "a"]));
    assert_eq!(split("a\n\nb", "\n"), owned(&["a", "", "b"]));
    assert_eq!(split("\n", "\n"), owned(&["", ""]));
    assert_eq!(split("\n\n", "\n"), owned(&["", "", ""]));
    assert_eq!(split("ab", "ab"), owned(&["", ""]));
}

#[test]
fn split_takes_occurrences_from_the_left() {
    assert_eq!(split("aaa", "aa"), owned(&["", "a"]));
    assert_eq!(split("aaaa", "aa"), owned(&["", "", ""]));
    assert_eq!(split("ababa", "aba"), owned(&["", "ba"]));
    assert_eq!(split("xababay", "aba"), owned(&["x", "bay"]));
}

#[test]
fn split_at_the_empty_separator_cuts_around_every_character() {
    assert_eq!(split("abc", ""), owned(&["", "a", "b", "c", ""]));
    assert_eq!(split("", ""), owned(&["", ""]));
    assert_eq!(split("\u{e9}x", ""), owned(&["", "\u{e9}", "x", ""]));
}

#[test]
fn split_counts_characters_not_bytes() {
    assert_eq!(split("\u{e4}|\u{f6}|\u{fc}", "|"), owned(&["\u{e4}", "\u{f6}", "\u{fc}"]));
    assert_eq!(split("a\u{2192}b\u{2192}c", "\u{2192}"), owned(&["a", "b", "c"]));
    assert_eq!(split("\u{1f600}\u{1f600}", "\u{1f600}"), owned(&["", "", ""]));
}

#[test]
fn split_agrees_with_the_standard_library() {
    let texts = [
        "",
        "a",
        "\n",
        "a\nb",
        "a\r\nb\r\n",
        "aaa",
        "aaaa",
        "abababab",
        "xx--yy----zz--",
        "--",
        "-",
        "na\u{ef}ve caf\u{e9}\nna\u{ef}ve",
        "\u{1f600}a\u{1f600}",
        "mississippi",
    ];
    let seps =
        ["\n", "\r\n", "a", "aa", "ab", "aba", "--", "-", "", "ss", "issi", "\u{1f600}", "i"];
    for text in texts {
        for sep in seps {
            assert_eq!(split(text, sep), std_split(text, sep), "{:?} at {:?}", text, sep);
        }
    }
}

#[test]
fn join_puts_the_separator_between_the_lines() {
    assert_eq!(join(&owned(&["a", "b", "c"]), ", "), "a, b, c");
    assert_eq!(join(&owned(&["a", "b"]), "\n"), "a\nb");
}

#[test]
fn join_of_no_line_is_empty() {
    assert_eq!(join(&Vec::new(), ", "), "");
}

#[test]
fn join_of_one_line_is_the_line() {
    assert_eq!(join(&owned(&["only"]), ", "), "only");
    assert_eq!(join(&owned(&[""]), ", "), "");
}

#[test]
fn join_keeps_empty_lines() {
    assert_eq!(join(&owned(&["", ""]), "-"), "-");
    assert_eq!(join(&owned(&["", "a", ""]), "-"), "-a-");
}

#[test]
fn join_with_the_empty_separator_concatenates() {
    assert_eq!(join(&owned(&["a", "b", "c"]), ""), "abc");
}

#[test]
fn join_agrees_with_the_standard_library() {
    let cases: [&[&str]; 5] = [&[], &[""], &["a"], &["a", "", "b"], &["\u{e9}", "\u{1f600}"]];
    for lines in cases {
        for sep in ["", "\n", ", ", "\u{2192}"] {
            assert_eq!(join(&owned(lines), sep), lines.join(sep));
        }
    }
}

#[test]
fn join_undoes_split() {
    for text in ["", "a", "a\nb\n", "\n\n", "aaa", "x--y----z"] {
        for sep in ["\n", "aa", "--", "-"] {
            assert_eq!(join(&split(text, sep), sep), text);
        }
    }
}

#[test]
fn join_stepwise_gives_what_join_gives() {
    let cases: [&[&str]; 6] =
        [&[], &[""], &["a"], &["a", "b"], &["a", "", "b", ""], &["\u{e9}", "\u{1f600}", "x"]];
    for lines in cases {
        for sep in ["", "\n", ", ", "\u{2192}"] {
            assert_eq!(join_stepwise(&owned(lines), sep), join(&owned(lines), sep));
            assert_eq!(join_stepwise(&owned(lines), sep), lines.join(sep));
        }
    }
}

#[test]
fn room_exists_for_sizes_up_to_the_largest_of_a_string() {
    let most = isize::MAX as usize;
    assert!(room_exists(0, 0));
    assert!(room_exists(0, usize::MAX));
    assert!(room_exists(usize::MAX, 0));
    assert!(room_exists(1, most));
    assert!(room_exists(most, 1));
    assert!(room_exists(3, 5));
    assert!(room_exists(most / 2, 2));
}

#[test]
fn room_does_not_exist_beyond_the_largest_size_of_a_string() {
    let most = isize::MAX as usize;
    assert!(!room_exists(1, most + 1));
    assert!(!room_exists(most + 1, 1));
    assert!(!room_exists(most / 2 + 1, 2));
    assert!(!room_exists(2, most / 2 + 1));
    assert!(!room_exists(usize::MAX, usize::MAX));
    assert!(!room_exists(1 << 32, 1 << 32));
}

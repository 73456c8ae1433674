use funixtools::setunion::{set_union, sorted_union};
use std::collections::BTreeSet;

fn owned(lines: &[&str]) -> Vec<String> {
    lines.iter().map(|line| line.to_string()).collect()
}

fn with_tree_sets(left: &str, right: &str, sep: &str) -> String {
    let left_set: BTreeSet<&str> = left.split(sep).collect();
    let right_set: BTreeSet<&str> = right.split(sep).collect();
    let all: Vec<&str> = left_set.union(&right_set).copied().collect();
    all.join(sep)
}

#[test]
fn sorted_union_lists_every_line_once() {
    let left = owned(&["pear", "apple", "pear"]);
    let right = owned(&["fig", "apple"]);
    assert_eq!(sorted_union(&left, &right), owned(&["apple", "fig", "pear"]));
}

#[test]
fn sorted_union_of_nothing_is_empty() {
    assert_eq!(sorted_union(&Vec::new(), &Vec::new()), Vec::<String>::new());
}

#[test]
fn sorted_union_with_one_empty_side_sorts_the_other() {
    let lines = owned(&["c", "a", "b", "a"]);
    assert_eq!(sorted_union(&lines, &Vec::new()), owned(&["a", "b", "c"]));
    assert_eq!(sorted_union(&Vec::new(), &lines), owned(&["a", "b", "c"]));
}

#[test]
fn sorted_union_of_a_list_with_itself_is_the_sorted_list() {
    let lines = owned(&["d", "b", "a", "c"]);
    assert_eq!(sorted_union(&lines, &lines), owned(&["a", "b", "c", "d"]));
}

#[test]
fn sorted_union_does_not_depend_on_the_side() {
    let left = owned(&["x", "m", "a"]);
    let right = owned(&["m", "z", "b"]);
    assert_eq!(sorted_union(&left, &right), sorted_union(&right, &left));
    assert_eq!(sorted_union(&left, &right), owned(&["a", "b", "m", "x", "z"]));
}

#[test]
fn sorted_union_keeps_the_empty_line() {
    let left = owned(&["b", ""]);
    let right = owned(&["a", ""]);
    assert_eq!(sorted_union(&left, &right), owned(&["", "a", "b"]));
}

#[test]
fn sorted_union_orders_by_code_point() {
    let left = owned(&["\u{e9}", "z", "Z"]);
    let right = owned(&["a", "\u{1f600}", "\u{e000}"]);
    assert_eq!(
        sorted_union(&left, &right),
        owned(&["Z", "a", "z", "\u{e9}", "\u{e000}", "\u{1f600}"])
    );
}

#[test]
fn sorted_union_of_many_lines() {
    let left: Vec<String> = (0..500u32).map(|n| format!("line{}", (n * 7919) % 611)).collect();
    let right: Vec<String> = (0..500u32).map(|n| format!("line{}", (n * 104729) % 599)).collect();
    let all: BTreeSet<String> = left.iter().chain(right.iter()).cloned().collect();
    let expected: Vec<String> = all.into_iter().collect();
    assert_eq!(sorted_union(&left, &right), expected);
}

#[test]
fn set_union_joins_the_lines_of_both_texts() {
    assert_eq!(set_union("b\na", "c\nb", "\n"), "a\nb\nc");
}

#[test]
fn set_union_with_another_separator() {
    assert_eq!(set_union("x,y", "y,w", ","), "w,x,y");
    assert_eq!(set_union("x::y", "y::w", "::"), "w::x::y");
}

#[test]
fn set_union_counts_the_empty_line_after_a_final_separator() {
    assert_eq!(set_union("b\na\n", "c\n", "\n"), "\na\nb\nc");
}

#[test]
fn set_union_of_empty_texts_is_empty() {
    assert_eq!(set_union("", "", "\n"), "");
}

#[test]
fn set_union_of_a_text_with_itself_sorts_it() {
    assert_eq!(set_union("c\na\nb\na", "c\na\nb\na", "\n"), "a\nb\nc");
}

#[test]
fn set_union_twice_gives_the_same() {
    let left = "delta\nalpha\ncharlie\nalpha";
    let right = "bravo\ndelta\necho";
    let once = set_union(left, right, "\n");
    assert_eq!(set_union(left, right, "\n"), once);
    assert_eq!(once, "alpha\nbravo\ncharlie\ndelta\necho");
}

#[test]
fn set_union_of_its_own_result_changes_nothing() {
    let once = set_union("q\nb\nz", "a\nq", "\n");
    assert_eq!(set_union(&once, &once, "\n"), once);
    assert_eq!(set_union(&once, "", "\n"), format!("\n{}", once));
}

#[test]
fn set_union_at_the_empty_separator_lists_the_characters() {
    assert_eq!(set_union("cab", "bad", ""), "abcd");
}

#[test]
fn set_union_agrees_with_a_tree_set() {
    let texts = [
        "",
        "a",
        "b\na",
        "b\na\n",
        "z\n\u{e9}\nZ\n\u{1f600}",
        "one\ntwo\nthree\nfour\nfive\nsix",
        "aaa",
        "x--y----z",
    ];
    for left in texts {
        for right in texts {
            for sep in ["\n", "a", "--", "", "e"] {
                assert_eq!(
                    set_union(left, right, sep),
                    with_tree_sets(left, right, sep),
                    "{:?} and {:?} at {:?}",
                    left,
                    right,
                    sep
                );
            }
        }
    }
}

#[test]
fn set_union_of_long_texts() {
    let left: Vec<String> = (0..20000u32).map(|n| format!("{:05}", (n * 7919) % 30011)).collect();
    let right: Vec<String> = (0..20000u32).map(|n| format!("{:05}", (n * 4099) % 30011)).collect();
    let left = left.join("\n");
    let right = right.join("\n");
    assert_eq!(set_union(&left, &right, "\n"), with_tree_sets(&left, &right, "\n"));
}

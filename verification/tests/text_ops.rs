use stryde_index::desktop::strip_exec_placeholders;
use stryde_index::text::{find_first, replace_remove, split_at_char, str_eq, trim};

#[test]
fn strips_every_listed_placeholder() {
    assert_eq!(strip_exec_placeholders("app %u --flag %f"), "app  --flag ");
}

#[test]
fn strips_repeated_and_adjacent_placeholders() {
    assert_eq!(strip_exec_placeholders("%U%F%i%c%k"), "");
    assert_eq!(strip_exec_placeholders("run %u %u %u now"), "run    now");
}

#[test]
fn plain_command_is_untouched() {
    assert_eq!(strip_exec_placeholders("firefox --new-window"), "firefox --new-window");
}

#[test]
fn percent_without_listed_letter_stays() {
    assert_eq!(strip_exec_placeholders("scale %50 %x"), "scale %50 %x");
}

#[test]
fn removal_passes_run_in_order() {
    // Removing %u first can let a later %f appear and be removed in its turn.
    assert_eq!(strip_exec_placeholders("%%uf"), "");
    // The reverse creation is not rescanned: %f is gone before %u's pass ran.
    assert_eq!(replace_remove("%%fu", "%f"), "%u");
}

#[test]
fn replace_remove_is_left_to_right_non_overlapping() {
    assert_eq!(replace_remove("aaa", "aa"), "a");
    assert_eq!(replace_remove("banana", "an"), "ba");
    assert_eq!(replace_remove("abc", "xyz"), "abc");
}

#[test]
fn trim_removes_only_edges() {
    assert_eq!(trim("  spaced out\t\n"), "spaced out");
    assert_eq!(trim("untouched"), "untouched");
    assert_eq!(trim(" \u{a0}\u{3000} "), "");
    assert_eq!(trim(""), "");
}

#[test]
fn split_keeps_empty_pieces() {
    assert_eq!(split_at_char("a::b", ':'), vec!["a", "", "b"]);
    assert_eq!(split_at_char("", ':'), vec![""]);
    assert_eq!(split_at_char("/usr/share:/custom", ':'), vec!["/usr/share", "/custom"]);
    assert_eq!(split_at_char(":x:", ':'), vec!["", "x", ""]);
}

#[test]
fn finds_first_occurrence_only() {
    assert_eq!(find_first("a,b,c", ','), Some(1));
    assert_eq!(find_first("abc", ','), None);
    assert_eq!(find_first(",", ','), Some(0));
}

#[test]
fn string_equality_is_by_characters() {
    assert!(str_eq("kitty", "kitty"));
    assert!(!str_eq("kitty", "Kitty"));
    assert!(!str_eq("kitty", "kitt"));
}

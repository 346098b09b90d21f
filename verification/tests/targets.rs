use sitecheck::targets::{
    target_from_line, targets_from_args, targets_from_lines, EXIT_COMPLETED, EXIT_NO_TARGETS,
};

fn strings(words: &[&str]) -> Vec<String> {
    words.iter().map(|w| w.to_string()).collect()
}

#[test]
fn exit_codes() {
    assert_eq!(EXIT_COMPLETED, 0);
    assert_eq!(EXIT_NO_TARGETS, 2);
}

#[test]
fn targets_follow_the_separator() {
    let args = strings(&["-w", "2", "--", "https://a.example", "https://b.example"]);
    assert_eq!(targets_from_args(&args), strings(&["https://a.example", "https://b.example"]));
}

#[test]
fn without_separator_there_are_no_targets() {
    assert_eq!(targets_from_args(&strings(&["-w", "2", "https://a.example"])), strings(&[]));
    assert_eq!(targets_from_args(&strings(&[])), strings(&[]));
}

#[test]
fn only_the_first_separator_counts() {
    let args = strings(&["--", "a", "--", "b"]);
    assert_eq!(targets_from_args(&args), strings(&["a", "--", "b"]));
}

#[test]
fn separator_in_last_place_gives_no_targets() {
    assert_eq!(targets_from_args(&strings(&["--json", "--"])), strings(&[]));
}

#[test]
fn a_line_names_its_trimmed_text() {
    assert_eq!(target_from_line("https://a.example"), Some("https://a.example".to_string()));
    assert_eq!(target_from_line("  https://a.example\t\r\n"), Some("https://a.example".to_string()));
    assert_eq!(target_from_line("a b"), Some("a b".to_string()));
}

#[test]
fn blank_lines_and_comments_name_nothing() {
    assert_eq!(target_from_line(""), None);
    assert_eq!(target_from_line("   \t "), None);
    assert_eq!(target_from_line("# a comment"), None);
    assert_eq!(target_from_line("   #indented"), None);
    assert_eq!(target_from_line("#"), None);
}

#[test]
fn a_hash_inside_a_line_is_no_comment() {
    assert_eq!(target_from_line("https://a.example/#top"), Some("https://a.example/#top".to_string()));
}

#[test]
fn lines_are_filtered_in_order() {
    let lines = strings(&["# list", "", "https://a.example ", "  ", " https://b.example", "#x", "c"]);
    assert_eq!(
        targets_from_lines(&lines),
        strings(&["https://a.example", "https://b.example", "c"])
    );
    assert_eq!(targets_from_lines(&strings(&[])), strings(&[]));
    assert_eq!(targets_from_lines(&strings(&["#", " "])), strings(&[]));
}

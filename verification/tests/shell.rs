use sitecheck::shell::{
    combine_output, history_record, is_exit, no_command, numbered_line, parse_command, CommandLine,
};

#[test]
fn command_line_is_split_into_program_and_arguments() {
    assert_eq!(
        parse_command("ls -l  /tmp"),
        Some(CommandLine {
            program: "ls".to_string(),
            args: vec!["-l".to_string(), "/tmp".to_string()],
        })
    );
    assert_eq!(
        parse_command("  pwd\n"),
        Some(CommandLine { program: "pwd".to_string(), args: Vec::new() })
    );
}

#[test]
fn a_line_without_words_holds_no_command() {
    assert_eq!(parse_command(""), None);
    assert_eq!(parse_command("  \t "), None);
    assert_eq!(no_command(), "No command entered.");
}

#[test]
fn output_is_joined_and_trimmed() {
    assert_eq!(combine_output("out\n", ""), "out");
    assert_eq!(combine_output("", "err\n"), "err");
    assert_eq!(combine_output("out\n", "err\n"), "out\n\nerr");
    assert_eq!(combine_output("", ""), "");
    assert_eq!(combine_output("  a  ", "  b  "), "a  \n  b");
}

#[test]
fn exit_is_recognised_in_any_case() {
    assert!(is_exit("exit"));
    assert!(is_exit("EXIT"));
    assert!(is_exit("Exit"));
    assert!(!is_exit("exit "));
    assert!(!is_exit("quit"));
    assert!(!is_exit(""));
    assert!(!is_exit("exit now"));
}

#[test]
fn history_record_holds_command_and_output() {
    assert_eq!(history_record("ls", "a\nb"), "$ ls\na\nb");
    assert_eq!(history_record("", ""), "$ \n");
}

#[test]
fn history_lines_are_numbered_from_one() {
    assert_eq!(numbered_line(0, "$ ls"), "1: $ ls");
    assert_eq!(numbered_line(9, ""), "10: ");
    assert_eq!(numbered_line(usize::MAX, "x"), format!("{}: x", usize::MAX as u128 + 1));
}

use rgrep::Config;
use rgrep::format_line;

fn args(list: &[&str]) -> Vec<String> {
    list.iter().map(|s| s.to_string()).collect()
}

#[test]
fn build_reads_query_and_path() {
    let config = Config::build(args(&["prog", "needle", "hay.txt"])).unwrap();
    assert_eq!(config.query, "needle");
    assert_eq!(config.file_path, "hay.txt");
    assert!(!config.ignore_case);
    assert!(!config.recursive);
    assert_eq!(config.after_context, 0);
    assert_eq!(config.before_context, 0);
    assert_eq!(config.group_separator, "--");
}

#[test]
fn build_reads_flags_in_any_position() {
    let config = Config::build(args(&["prog", "-i", "needle", "-n", "hay.txt", "-v"])).unwrap();
    assert!(config.ignore_case);
    assert!(config.line_number);
    assert!(config.invert_match);
    assert_eq!(config.query, "needle");
    assert_eq!(config.file_path, "hay.txt");
}

#[test]
fn build_requires_a_query() {
    let err = Config::build(args(&["prog"])).unwrap_err();
    assert_eq!(err, "Didn't get a query string");
}

#[test]
fn build_requires_a_path_unless_recursive() {
    let err = Config::build(args(&["prog", "needle"])).unwrap_err();
    assert_eq!(err, "Didn't get a file path");
    let config = Config::build(args(&["prog", "-r", "needle"])).unwrap();
    assert!(config.recursive);
    assert_eq!(config.file_path, ".");
}

#[test]
fn build_rejects_a_third_free_argument() {
    let err = Config::build(args(&["prog", "a", "b", "c"])).unwrap_err();
    assert_eq!(err, "Invalid option or too many arguments");
}

#[test]
fn build_reads_short_context_options() {
    let config = Config::build(args(&["prog", "-A", "3", "-B", "1", "q", "p"])).unwrap();
    assert_eq!(config.after_context, 3);
    assert_eq!(config.before_context, 1);
    let both = Config::build(args(&["prog", "-C", "2", "q", "p"])).unwrap();
    assert_eq!(both.after_context, 2);
    assert_eq!(both.before_context, 2);
}

#[test]
fn build_reads_long_context_options() {
    let config = Config::build(
        args(&["prog", "--after-context=2", "--before-context=4", "q", "p"]),
    )
    .unwrap();
    assert_eq!(config.after_context, 2);
    assert_eq!(config.before_context, 4);
    let both = Config::build(args(&["prog", "--context=5", "q", "p"])).unwrap();
    assert_eq!(both.after_context, 5);
    assert_eq!(both.before_context, 5);
}

#[test]
fn build_rejects_a_bad_context_length() {
    let err = Config::build(args(&["prog", "--after-context=xy", "q", "p"])).unwrap_err();
    assert_eq!(err, "Invalid context length argument");
    let err = Config::build(args(&["prog", "-A", "nope", "q", "p"])).unwrap_err();
    assert_eq!(err, "Invalid context length argument");
    let err = Config::build(args(&["prog", "q", "p", "-A"])).unwrap_err();
    assert_eq!(err, "Invalid context length argument");
    let err = Config::build(args(&["prog", "--context=", "q", "p"])).unwrap_err();
    assert_eq!(err, "Invalid context length argument");
}

#[test]
fn build_accepts_a_huge_context_only_when_it_fits() {
    let err =
        Config::build(args(&["prog", "-A", "99999999999999999999999999", "q", "p"])).unwrap_err();
    assert_eq!(err, "Invalid context length argument");
    let config = Config::build(args(&["prog", "-A", "007", "q", "p"])).unwrap();
    assert_eq!(config.after_context, 7);
}

#[test]
fn build_reads_separator_options() {
    let config = Config::build(args(&["prog", "--group_separator=**", "q", "p"])).unwrap();
    assert_eq!(config.group_separator, "**");
    let cleared = Config::build(args(&["prog", "--no_group_separator", "q", "p"])).unwrap();
    assert_eq!(cleared.group_separator, "");
}

#[test]
fn build_no_ignore_case_clears_ignore_case_only() {
    let config = Config::build(args(&["prog", "-v", "-i", "--no-ignore-case", "q", "p"])).unwrap();
    assert!(!config.ignore_case);
    assert!(config.invert_match);
}

#[test]
fn format_line_prefixes_path_and_number() {
    let mut config = Config::build(args(&["prog", "q", "p"])).unwrap();
    assert_eq!(format_line(4, "text", &config, "dir/f"), "text");
    config.line_number = true;
    assert_eq!(format_line(4, "text", &config, "dir/f"), "5:text");
    config.recursive = true;
    assert_eq!(format_line(4, "text", &config, "dir/f"), "dir/f:5:text");
    config.line_number = false;
    assert_eq!(format_line(4, "text", &config, "dir/f"), "dir/f:text");
}

#[test]
fn format_line_renders_big_numbers_in_decimal() {
    let mut config = Config::build(args(&["prog", "q", "p"])).unwrap();
    config.line_number = true;
    assert_eq!(format_line(1233, "x", &config, ""), "1234:x");
    assert_eq!(format_line(0, "x", &config, ""), "1:x");
}

use rgrep::Config;
use rgrep::Record;
use rgrep::Span;
use rgrep::build_regex;
use rgrep::search;

fn base_config() -> Config {
    Config {
        query: String::new(),
        file_path: String::new(),
        ignore_case: false,
        line_regexp: false,
        word_regexp: false,
        invert_match: false,
        count_matches: false,
        line_number: false,
        color: false,
        recursive: false,
        after_context: 0,
        before_context: 0,
        group_separator: "--".to_string(),
    }
}

fn run_search(contents: &str, config: &Config) -> Vec<Record> {
    let matcher = build_regex(config).unwrap();
    let mut needs_sep = false;
    search(contents, config, &matcher, "", &mut needs_sep)
}

fn rendered(contents: &str, config: &Config) -> Vec<String> {
    run_search(contents, config)
        .iter()
        .map(|r| r.render_plain())
        .collect()
}

#[test]
fn case_sensitive_search() {
    let mut config = base_config();
    config.query = "duct".to_string();
    config.file_path = "".to_string();
    let contents = "Rust:\nsafe, fast, productive.\nsafe and fast.";
    let results = rendered(contents, &config);
    assert_eq!(results, vec!["safe, fast, productive.".to_string()]);
}

#[test]
fn case_insensitive_search() {
    let mut config = base_config();
    config.query = "rUsT".to_string();
    config.ignore_case = true;
    let contents = "Rust:\nTrust me.";
    let results = rendered(contents, &config);
    assert_eq!(results, vec!["Rust:".to_string(), "Trust me.".to_string()]);
}

#[test]
fn word_regexp_search() {
    let mut config = base_config();
    config.query = "me".to_string();
    config.word_regexp = true;
    let contents = "Me me\nme.\nmethod";
    let results = rendered(contents, &config);
    assert_eq!(results, vec!["Me me".to_string(), "me.".to_string()]);
}

#[test]
fn line_regex_search() {
    let mut config = base_config();
    config.query = "Rusty".to_string();
    config.line_regexp = true;
    let contents = "Rust\nRusty\nRusty \nCorosive";
    let results = rendered(contents, &config);
    assert_eq!(results, vec!["Rusty".to_string()]);
}

#[test]
fn word_boundary_hits_punctuation_but_not_words() {
    let mut config = base_config();
    config.query = "me".to_string();
    config.word_regexp = true;
    assert_eq!(rendered("method", &config), Vec::<String>::new());
    assert_eq!(rendered("me.", &config), vec!["me.".to_string()]);
}

#[test]
fn context_blocks_stay_apart_with_one_line_gap() {
    let mut config = base_config();
    config.query = "MATCH".to_string();
    config.after_context = 1;
    config.before_context = 1;
    let contents = "a\nb\nMATCH\nc\nd\ne\nMATCH\nf";
    let results = rendered(contents, &config);
    assert_eq!(
        results,
        vec![
            "b".to_string(),
            "MATCH".to_string(),
            "c".to_string(),
            "--".to_string(),
            "e".to_string(),
            "MATCH".to_string(),
            "f".to_string(),
        ]
    );
}

#[test]
fn overlapping_context_windows_merge_without_separator() {
    let mut config = base_config();
    config.query = "MATCH".to_string();
    config.after_context = 2;
    config.before_context = 2;
    let contents = "a\nb\nMATCH\nc\nd\ne\nMATCH\nf";
    let results = rendered(contents, &config);
    assert_eq!(
        results,
        vec![
            "b".to_string(),
            "MATCH".to_string(),
            "c".to_string(),
            "d".to_string(),
            "e".to_string(),
            "MATCH".to_string(),
            "f".to_string(),
        ]
    );
}

#[test]
fn an_oversized_pattern_is_surfaced_as_an_error() {
    let mut config = base_config();
    config.query = "ab".repeat(500_000);
    assert!(build_regex(&config).is_err());
}

#[test]
fn count_mode_emits_one_integer() {
    let mut config = base_config();
    config.query = "safe".to_string();
    config.count_matches = true;
    let contents = "Rust:\nsafe, fast, productive.\nsafe and fast.";
    let results = run_search(contents, &config);
    assert_eq!(results, vec![Record::Count { hits: 2 }]);
    assert_eq!(rendered(contents, &config), vec!["2".to_string()]);
}

#[test]
fn count_mode_ignores_context_settings() {
    let mut config = base_config();
    config.query = "MATCH".to_string();
    config.count_matches = true;
    let contents = "a\nb\nMATCH\nc\nd\ne\nMATCH\nf";
    let plain = run_search(contents, &config);
    config.after_context = 3;
    config.before_context = 2;
    let with_context = run_search(contents, &config);
    assert_eq!(plain, vec![Record::Count { hits: 2 }]);
    assert_eq!(plain, with_context);
}

#[test]
fn count_mode_zero_hits_renders_zero() {
    let mut config = base_config();
    config.query = "absent".to_string();
    config.count_matches = true;
    assert_eq!(rendered("a\nb", &config), vec!["0".to_string()]);
}

#[test]
fn zero_context_never_emits_a_separator() {
    let mut config = base_config();
    config.query = "MATCH".to_string();
    let contents = "MATCH\na\nb\nMATCH\nc\nMATCH";
    let matcher = build_regex(&config).unwrap();
    let mut needs_sep = true;
    let results = search(contents, &config, &matcher, "", &mut needs_sep);
    let texts: Vec<String> = results.iter().map(|r| r.render_plain()).collect();
    assert_eq!(
        texts,
        vec!["MATCH".to_string(), "MATCH".to_string(), "MATCH".to_string()]
    );
    assert!(results
        .iter()
        .all(|r| !matches!(r, Record::Separator { .. })));
}

#[test]
fn running_twice_gives_identical_output() {
    let mut config = base_config();
    config.query = "MATCH".to_string();
    config.after_context = 1;
    config.before_context = 1;
    let contents = "a\nMATCH\nb\nc\nMATCH\nd";
    let first = run_search(contents, &config);
    let second = run_search(contents, &config);
    assert_eq!(first, second);
}

#[test]
fn inverted_search_keeps_the_other_lines() {
    let mut config = base_config();
    config.query = "skip".to_string();
    config.invert_match = true;
    let contents = "keep one\nskip this\nkeep two";
    assert_eq!(
        rendered(contents, &config),
        vec!["keep one".to_string(), "keep two".to_string()]
    );
}

#[test]
fn query_special_characters_match_literally() {
    let mut config = base_config();
    config.query = "a.b".to_string();
    let contents = "axb\na.b";
    assert_eq!(rendered(contents, &config), vec!["a.b".to_string()]);
}

#[test]
fn highlight_spans_locate_the_matches() {
    let mut config = base_config();
    config.query = "a".to_string();
    config.color = true;
    let results = run_search("bab", &config);
    assert_eq!(results.len(), 1);
    match &results[0] {
        Record::Line { spans, .. } => {
            assert_eq!(spans, &vec![Span { start: 1, end: 2 }]);
        }
        _ => panic!("expected a line record"),
    }
}

#[test]
fn context_lines_carry_no_highlight_spans() {
    let mut config = base_config();
    config.query = "MATCH".to_string();
    config.color = true;
    config.after_context = 1;
    let results = run_search("MATCH\nplain", &config);
    assert_eq!(results.len(), 2);
    match &results[1] {
        Record::Line { spans, .. } => assert!(spans.is_empty()),
        _ => panic!("expected a line record"),
    }
}

#[test]
fn separator_carries_across_files() {
    let mut config = base_config();
    config.query = "MATCH".to_string();
    config.after_context = 1;
    let matcher = build_regex(&config).unwrap();
    let mut needs_sep = false;
    let first = search("MATCH", &config, &matcher, "", &mut needs_sep);
    assert_eq!(first.len(), 1);
    assert!(needs_sep);
    let second = search("MATCH\nx", &config, &matcher, "", &mut needs_sep);
    assert!(matches!(&second[0], Record::Separator { .. }));
    let texts: Vec<String> = second.iter().map(|r| r.render_plain()).collect();
    assert_eq!(
        texts,
        vec!["--".to_string(), "MATCH".to_string(), "x".to_string()]
    );
}

#[test]
fn empty_group_separator_still_marks_the_gap() {
    let mut config = base_config();
    config.query = "MATCH".to_string();
    config.after_context = 1;
    config.group_separator = String::new();
    let contents = "MATCH\na\nb\nc\nMATCH";
    let results = run_search(contents, &config);
    assert_eq!(
        results
            .iter()
            .filter(|r| matches!(r, Record::Separator { .. }))
            .count(),
        1
    );
    match &results[2] {
        Record::Separator { text } => assert_eq!(text, ""),
        _ => panic!("expected the separator between the blocks"),
    }
}

#[test]
fn trailing_context_follows_each_hit() {
    let mut config = base_config();
    config.query = "MATCH".to_string();
    config.after_context = 2;
    let contents = "MATCH\na\nb\nc";
    assert_eq!(
        rendered(contents, &config),
        vec!["MATCH".to_string(), "a".to_string(), "b".to_string()]
    );
}

#[test]
fn before_context_backfills_earlier_lines() {
    let mut config = base_config();
    config.query = "MATCH".to_string();
    config.before_context = 2;
    let contents = "a\nb\nc\nMATCH";
    assert_eq!(
        rendered(contents, &config),
        vec!["b".to_string(), "c".to_string(), "MATCH".to_string()]
    );
}

#[test]
fn adjacent_blocks_merge_even_without_before_context() {
    let mut config = base_config();
    config.query = "MATCH".to_string();
    config.after_context = 1;
    let contents = "MATCH\nx\nMATCH\ny";
    assert_eq!(
        rendered(contents, &config),
        vec![
            "MATCH".to_string(),
            "x".to_string(),
            "MATCH".to_string(),
            "y".to_string(),
        ]
    );
}

#[test]
fn carried_separator_survives_before_context_at_file_start() {
    let mut config = base_config();
    config.query = "MATCH".to_string();
    config.before_context = 2;
    let matcher = build_regex(&config).unwrap();
    let mut needs_sep = false;
    let first = search("MATCH", &config, &matcher, "", &mut needs_sep);
    assert_eq!(first.len(), 1);
    let second = search("a\nMATCH", &config, &matcher, "", &mut needs_sep);
    let texts: Vec<String> = second.iter().map(|r| r.render_plain()).collect();
    assert_eq!(texts, vec!["--".to_string(), "MATCH".to_string()]);
}

#[test]
fn search_prefixes_lines_with_path_and_number() {
    let mut config = base_config();
    config.query = "b".to_string();
    config.line_number = true;
    config.recursive = true;
    let matcher = build_regex(&config).unwrap();
    let mut needs_sep = false;
    let results = search("a\nb", &config, &matcher, "dir/f", &mut needs_sep);
    let texts: Vec<String> = results.iter().map(|r| r.render_plain()).collect();
    assert_eq!(texts, vec!["dir/f:2:b".to_string()]);
}

#[test]
fn carriage_returns_before_newlines_belong_to_no_line() {
    let mut config = base_config();
    config.query = "b".to_string();
    assert_eq!(rendered("a\r\nb\r\nc", &config), vec!["b".to_string()]);
}

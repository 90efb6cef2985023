use vstd::prelude::*;

use crate::config::Config;

verus! {

#[verifier::external_type_specification]
#[verifier::external_body]
pub struct ExRegex(regex::Regex);

#[verifier::external_type_specification]
#[verifier::external_body]
pub struct ExRegexError(regex::Error);

/// Whether a compiled pattern matches somewhere in a line; a function of the
/// pattern text and the line alone.
pub uninterp spec fn regex_match(pattern: Seq<char>, line: Seq<char>) -> bool;

/// The non-overlapping match spans a compiled pattern locates in a line, in
/// left-to-right order, as byte positions; a function of the pattern text
/// and the line alone.
pub uninterp spec fn regex_spans(pattern: Seq<char>, line: Seq<char>) -> Seq<(int, int)>;

/// Whether the pattern text compiles into a regex; a function of the
/// pattern text alone.
pub uninterp spec fn regex_ok(pattern: Seq<char>) -> bool;

/// The characters that carry a special meaning in the pattern language.
pub open spec fn is_meta_char(c: char) -> bool {
    c == '\\' || c == '.' || c == '+' || c == '*' || c == '?' || c == '(' || c == ')' || c == '|'
        || c == '[' || c == ']' || c == '{' || c == '}' || c == '^' || c == '$' || c == '#'
        || c == '&' || c == '-' || c == '~'
}

/// `s` with a backslash inserted before every special character, so that a
/// pattern built from the result matches `s` literally.
pub open spec fn escape_seq(s: Seq<char>) -> Seq<char>
    decreases s.len(),
{
    if s.len() == 0 {
        Seq::empty()
    } else if is_meta_char(s[0]) {
        seq!['\\', s[0]] + escape_seq(s.skip(1))
    } else {
        seq![s[0]] + escape_seq(s.skip(1))
    }
}

/// Relies on regex::escape: it returns its input with a backslash inserted
/// before each character that has a special meaning in a pattern, and keeps
/// every other character as it is.
#[verifier::external_body]
fn escape_literal(s: &str) -> (r: String)
    ensures
        r@ == escape_seq(s@),
{
    regex::escape(s)
}

/// Relies on regex::Regex::new: it compiles the pattern text into a regex,
/// or reports why the text is not a valid pattern. Whether it succeeds
/// depends on the pattern text alone (named `regex_ok`).
#[verifier::external_body]
fn regex_new(pattern: &str) -> (r: Result<regex::Regex, regex::Error>)
    ensures
        r is Ok <==> regex_ok(pattern@),
{
    regex::Regex::new(pattern)
}

/// One match inside a line: the byte positions of its first byte and of the
/// byte one past its last.
#[derive(Clone, Copy, Debug, PartialEq, Eq, Structural)]
pub struct Span {
    pub start: usize,
    pub end: usize,
}

/// The spans as pairs of positions.
pub open spec fn spans_model(spans: Seq<Span>) -> Seq<(int, int)> {
    spans.map_values(|sp: Span| (sp.start as int, sp.end as int))
}

/// Failure of pattern compilation.
#[derive(Clone, Copy, Debug, PartialEq, Eq, Structural)]
pub enum PatternError {
    InvalidPattern,
}

/// The pattern text that `Matcher::compile` builds: the escaped query,
/// wrapped in word-boundary anchors when `word` is set, anchored to the
/// whole line when `line` is set, and prefixed with the case-insensitivity
/// marker when `ignore_case` is set.
pub open spec fn spec_pattern_of(query: Seq<char>, ignore_case: bool, word: bool, line: bool) -> Seq<
    char,
> {
    let escaped = escape_seq(query);
    let worded = if word {
        seq!['\\', 'b'] + escaped + seq!['\\', 'b']
    } else {
        escaped
    };
    let anchored = if line {
        seq!['^'] + worded + seq!['$']
    } else {
        worded
    };
    if ignore_case {
        seq!['(', '?', 'i', ')'] + anchored
    } else {
        anchored
    }
}

fn build_pattern(query: &str, ignore_case: bool, word: bool, line: bool) -> (r: String)
    ensures
        r@ == spec_pattern_of(query@, ignore_case, word, line),
{
    let mut p = escape_literal(query);
    if word {
        let mut q = String::from_str("\\b");
        q.append(p.as_str());
        q.append("\\b");
        proof {
            reveal_strlit("\\b");
            assert("\\b"@ =~= seq!['\\', 'b']);
            assert(q@ =~= seq!['\\', 'b'] + escape_seq(query@) + seq!['\\', 'b']);
        }
        p = q;
    }
    if line {
        let mut q = String::from_str("^");
        q.append(p.as_str());
        q.append("$");
        proof {
            reveal_strlit("^");
            reveal_strlit("$");
            assert("^"@ =~= seq!['^']);
            assert("$"@ =~= seq!['$']);
            assert(q@ =~= seq!['^'] + p@ + seq!['$']);
        }
        p = q;
    }
    if ignore_case {
        let mut q = String::from_str("(?i)");
        q.append(p.as_str());
        proof {
            reveal_strlit("(?i)");
            assert("(?i)"@ =~= seq!['(', '?', 'i', ')']);
        }
        p = q;
    }
    proof {
        assert(p@ =~= spec_pattern_of(query@, ignore_case, word, line));
    }
    p
}

/// A compiled line matcher: a regex together with the pattern text it was
/// compiled from.
pub struct Matcher {
    re: regex::Regex,
    pattern: String,
}

impl Matcher {
    /// The pattern text this matcher's regex was compiled from.
    pub closed spec fn spec_pattern(&self) -> Seq<char> {
        self.pattern@
    }

    /// Compiles `query` into a line matcher. The query is matched literally:
    /// every special character is escaped before the pattern is built.
    pub fn compile(query: &str, ignore_case: bool, word_regexp: bool, line_regexp: bool) -> (r:
        Result<Matcher, PatternError>)
        ensures
            r is Ok <==> regex_ok(spec_pattern_of(query@, ignore_case, word_regexp, line_regexp)),
            r is Ok ==> r->Ok_0.spec_pattern() == spec_pattern_of(
                query@,
                ignore_case,
                word_regexp,
                line_regexp,
            ),
            r is Err ==> r->Err_0 == PatternError::InvalidPattern,
    {
        let pattern = build_pattern(query, ignore_case, word_regexp, line_regexp);
        match regex_new(pattern.as_str()) {
            Ok(re) => Ok(Matcher { re, pattern }),
            Err(_) => Err(PatternError::InvalidPattern),
        }
    }

    /// Relies on regex::Regex::is_match, applied to the regex that
    /// `Matcher::compile` built from `pattern`: whether the pattern matches
    /// somewhere in the line depends on the pattern text and the line alone.
    #[verifier::external_body]
    pub(crate) fn test(&self, line: &str) -> (r: bool)
        ensures
            r == regex_match(self.spec_pattern(), line@),
    {
        self.re.is_match(line)
    }

    /// Relies on regex::Regex::find_iter, applied to the regex that
    /// `Matcher::compile` built from `pattern`: the successive
    /// non-overlapping matches and their positions depend on the pattern
    /// text and the line alone.
    #[verifier::external_body]
    pub(crate) fn find_spans(&self, line: &str) -> (r: Vec<Span>)
        ensures
            spans_model(r@) == regex_spans(self.spec_pattern(), line@),
    {
        self.re.find_iter(line).map(|m| Span { start: m.start(), end: m.end() }).collect()
    }
}

/// Compiles the matcher that a configuration's query and matching flags
/// describe.
pub fn build_regex(config: &Config) -> (r: Result<Matcher, PatternError>)
    ensures
        r is Ok <==> regex_ok(
            spec_pattern_of(
                config.query@,
                config.ignore_case,
                config.word_regexp,
                config.line_regexp,
            ),
        ),
        r is Ok ==> r->Ok_0.spec_pattern() == spec_pattern_of(
            config.query@,
            config.ignore_case,
            config.word_regexp,
            config.line_regexp,
        ),
        r is Err ==> r->Err_0 == PatternError::InvalidPattern,
{
    Matcher::compile(
        config.query.as_str(),
        config.ignore_case,
        config.word_regexp,
        config.line_regexp,
    )
}

} // verus!

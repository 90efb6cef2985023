use vstd::prelude::*;

use crate::config::Config;
use crate::matcher::Matcher;
use crate::matcher::Span;
use crate::matcher::regex_match;
use crate::matcher::regex_spans;
use crate::matcher::spans_model;
use crate::strutil::dec_digits;
use crate::strutil::strs_model;
use crate::strutil::usize_to_string;

verus! {

// ---------------------------------------------------------------------------
// Splitting a text into lines.
// ---------------------------------------------------------------------------

/// A line's text: a carriage return directly before the line break is not
/// part of the line.
pub open spec fn strip_cr(t: Seq<char>) -> Seq<char> {
    if t.len() > 0 && t.last() == '\r' {
        t.drop_last()
    } else {
        t
    }
}

/// The lines of `s` that follow a current, partially read line `cur`.
pub open spec fn spec_lines_from(s: Seq<char>, cur: Seq<char>) -> Seq<Seq<char>>
    decreases s.len(),
{
    if s.len() == 0 {
        if cur.len() == 0 {
            Seq::empty()
        } else {
            seq![cur]
        }
    } else if s[0] == '\n' {
        seq![strip_cr(cur)] + spec_lines_from(s.skip(1), Seq::empty())
    } else {
        spec_lines_from(s.skip(1), cur.push(s[0]))
    }
}

/// The lines of a text: split at newlines, which belong to no line; a
/// carriage return directly before a newline belongs to no line either; a
/// final newline closes the last line instead of opening an empty one.
pub open spec fn spec_lines(s: Seq<char>) -> Seq<Seq<char>> {
    spec_lines_from(s, Seq::empty())
}

/// Relies on str::lines: it splits at newline characters, strips a carriage
/// return that stands directly before a newline, and does not open an empty
/// line after a final newline.
#[verifier::external_body]
fn split_lines(contents: &str) -> (r: Vec<String>)
    ensures
        strs_model(r@) == spec_lines(contents@),
{
    contents.lines().map(|l| l.to_string()).collect()
}

// ---------------------------------------------------------------------------
// Output records.
// ---------------------------------------------------------------------------

/// One entry of a search result.
#[derive(Debug, PartialEq, Eq)]
pub enum Record {
    /// A line of the document: its display prefix, its own text, and the
    /// match spans to emphasise. The spans are empty unless highlighting was
    /// requested and the line is a direct hit.
    Line { prefix: String, content: String, spans: Vec<Span> },
    /// A group separator between two discontiguous blocks.
    Separator { text: String },
    /// The single record of count mode: the number of direct hits.
    Count { hits: usize },
}

/// The mathematical shape of a record.
pub enum RecordModel {
    LineM { prefix: Seq<char>, content: Seq<char>, spans: Seq<(int, int)> },
    SepM { text: Seq<char> },
    CountM { hits: int },
}

impl Record {
    /// The record's mathematical shape.
    pub open spec fn model(&self) -> RecordModel {
        match self {
            Record::Line { prefix, content, spans } => RecordModel::LineM {
                prefix: prefix@,
                content: content@,
                spans: spans_model(spans@),
            },
            Record::Separator { text } => RecordModel::SepM { text: text@ },
            Record::Count { hits } => RecordModel::CountM { hits: *hits as int },
        }
    }

    /// The plain, unstyled text of this record: the prefixed line, the
    /// separator text, or the decimal hit count.
    pub fn render_plain(&self) -> (r: String)
        ensures
            r@ == render_model(self.model()),
    {
        match self {
            Record::Line { prefix, content, spans: _ } => {
                let mut s = String::from_str(prefix.as_str());
                s.append(content.as_str());
                s
            },
            Record::Separator { text } => String::from_str(text.as_str()),
            Record::Count { hits } => usize_to_string(*hits),
        }
    }
}

/// The plain text a record stands for.
pub open spec fn render_model(m: RecordModel) -> Seq<char> {
    match m {
        RecordModel::LineM { prefix, content, spans: _ } => prefix + content,
        RecordModel::SepM { text } => text,
        RecordModel::CountM { hits } => dec_digits(hits),
    }
}

/// A sequence of records, by their shapes.
pub open spec fn records_model(rs: Seq<Record>) -> Seq<RecordModel> {
    rs.map_values(|r: Record| r.model())
}

// ---------------------------------------------------------------------------
// Line formatting.
// ---------------------------------------------------------------------------

/// The display prefix of line `i` (0-based): the file path, when running
/// over many files, then the 1-based line number, when requested, each
/// followed by a colon.
pub open spec fn prefix_model(cfg: Config, path: Seq<char>, i: int) -> Seq<char> {
    let path_part = if cfg.recursive {
        path + seq![':']
    } else {
        Seq::<char>::empty()
    };
    let number_part = if cfg.line_number {
        dec_digits(i + 1) + seq![':']
    } else {
        Seq::<char>::empty()
    };
    path_part + number_part
}

/// The full display text of line `i`: its prefix followed by its own text.
pub open spec fn format_model(cfg: Config, path: Seq<char>, i: int, line: Seq<char>) -> Seq<char> {
    prefix_model(cfg, path, i) + line
}

// ---------------------------------------------------------------------------
// The per-line decision procedure, as a state machine over the document.
// ---------------------------------------------------------------------------

/// Whether a line is a direct hit: the matcher's verdict, flipped when
/// invert-match is set.
pub open spec fn is_hit(pattern: Seq<char>, invert: bool, line: Seq<char>) -> bool {
    invert != regex_match(pattern, line)
}

/// The record of document line `i`: its prefix, its text, and — only when
/// `highlight` is set — the matcher's spans in it.
pub open spec fn line_model(
    pattern: Seq<char>,
    cfg: Config,
    path: Seq<char>,
    lines: Seq<Seq<char>>,
    i: int,
    highlight: bool,
) -> RecordModel {
    RecordModel::LineM {
        prefix: prefix_model(cfg, path, i),
        content: lines[i],
        spans: if highlight {
            regex_spans(pattern, lines[i])
        } else {
            Seq::empty()
        },
    }
}

/// What the engine carries from one line to the next: the records so far,
/// the indices of the document lines among them, the number of trailing
/// context lines still owed, the index of the last line anything covered,
/// and whether the next block must be preceded by a separator.
pub struct EngineState {
    pub out: Seq<RecordModel>,
    pub idxs: Seq<int>,
    pub after_cnt: int,
    pub last_cov: int,
    pub needs_sep: bool,
}

/// The state the engine starts a document in. The separator flag is the one
/// carried over from earlier documents. The last covered index starts at 0,
/// so a backfill never reaches line 0: the first line of a document can be a
/// hit or trailing context, never before-context. Whether the first block of
/// a document gets a separator is decided by the carried flag alone.
pub open spec fn init_state(needs_sep: bool) -> EngineState {
    EngineState {
        out: Seq::empty(),
        idxs: Seq::empty(),
        after_cnt: 0,
        last_cov: 0,
        needs_sep,
    }
}

/// Where the before-context of a new block starting at line `i` begins:
/// `before_context` lines back, but never at or before a line that is
/// already covered.
pub open spec fn backfill_start(cfg: Config, i: int, last_cov: int) -> int {
    if i - cfg.before_context > last_cov + 1 {
        i - cfg.before_context
    } else {
        last_cov + 1
    }
}

/// The length of the backfill run from `bstart` up to (not including) `i`.
pub open spec fn span_len(bstart: int, i: int) -> nat {
    if bstart <= i {
        (i - bstart) as nat
    } else {
        0
    }
}

/// One included line `i`: the separator, the before-context backfill and the
/// line itself are appended, and the carried state moves on.
///
/// A separator is due only when one is owed, a new block starts here, and at
/// least one context size is positive. For the first block of a document the
/// owed separator is emitted as it stands; a later block gets one only when
/// its first emitted line leaves a gap after the last covered line — a block
/// that starts directly after it continues the previous one instead.
pub open spec fn included_step(
    pattern: Seq<char>,
    cfg: Config,
    path: Seq<char>,
    lines: Seq<Seq<char>>,
    i: int,
    st: EngineState,
) -> EngineState {
    let hit = is_hit(pattern, cfg.invert_match, lines[i]);
    let new_block = st.after_cnt == 0;
    let backfilling = new_block && cfg.before_context > 0;
    let bstart = if backfilling {
        backfill_start(cfg, i, st.last_cov)
    } else {
        i
    };
    let first_block = st.idxs.len() == 0;
    let sep = st.needs_sep && new_block && (cfg.after_context > 0 || cfg.before_context > 0) && (
    first_block || bstart > st.last_cov + 1);
    let sep_out: Seq<RecordModel> = if sep {
        seq![RecordModel::SepM { text: cfg.group_separator@ }]
    } else {
        Seq::empty()
    };
    let ctx_out = Seq::new(
        span_len(bstart, i),
        |k: int| line_model(pattern, cfg, path, lines, bstart + k, false),
    );
    let ctx_idxs = Seq::new(span_len(bstart, i), |k: int| bstart + k);
    let line_out = seq![line_model(pattern, cfg, path, lines, i, cfg.color && hit)];
    EngineState {
        out: st.out + sep_out + ctx_out + line_out,
        idxs: st.idxs + ctx_idxs + seq![i],
        after_cnt: if hit {
            cfg.after_context as int
        } else {
            st.after_cnt - 1
        },
        last_cov: i,
        needs_sep: true,
    }
}

/// The engine's move on line `i`: a direct hit or a line inside a trailing
/// context run is included; every other line leaves the state unchanged.
pub open spec fn step(
    pattern: Seq<char>,
    cfg: Config,
    path: Seq<char>,
    lines: Seq<Seq<char>>,
    i: int,
    st: EngineState,
) -> EngineState {
    if is_hit(pattern, cfg.invert_match, lines[i]) || st.after_cnt > 0 {
        included_step(pattern, cfg, path, lines, i, st)
    } else {
        st
    }
}

/// The engine state after the first `n` lines of the document.
pub open spec fn run(
    pattern: Seq<char>,
    cfg: Config,
    path: Seq<char>,
    lines: Seq<Seq<char>>,
    n: int,
    needs_sep0: bool,
) -> EngineState
    decreases n,
{
    if n <= 0 {
        init_state(needs_sep0)
    } else {
        step(pattern, cfg, path, lines, n - 1, run(pattern, cfg, path, lines, n - 1, needs_sep0))
    }
}

/// The number of direct hits among the first `n` lines. Context settings
/// play no part in it.
pub open spec fn hit_count(pattern: Seq<char>, invert: bool, lines: Seq<Seq<char>>, n: int) -> int
    decreases n,
{
    if n <= 0 {
        0
    } else {
        hit_count(pattern, invert, lines, n - 1) + if is_hit(pattern, invert, lines[n - 1]) {
            1int
        } else {
            0int
        }
    }
}

/// The full output of one engine invocation: in count mode the single hit
/// count, otherwise the records of every included line with separators
/// between discontiguous blocks.
pub open spec fn spec_search(
    pattern: Seq<char>,
    cfg: Config,
    path: Seq<char>,
    lines: Seq<Seq<char>>,
    needs_sep0: bool,
) -> Seq<RecordModel> {
    if cfg.count_matches {
        seq![
            RecordModel::CountM {
                hits: hit_count(pattern, cfg.invert_match, lines, lines.len() as int),
            },
        ]
    } else {
        run(pattern, cfg, path, lines, lines.len() as int, needs_sep0).out
    }
}

/// The separator flag handed on to the next document: count mode leaves it
/// alone; otherwise it is set once anything was emitted.
pub open spec fn spec_needs_sep(
    pattern: Seq<char>,
    cfg: Config,
    path: Seq<char>,
    lines: Seq<Seq<char>>,
    needs_sep0: bool,
) -> bool {
    if cfg.count_matches {
        needs_sep0
    } else {
        run(pattern, cfg, path, lines, lines.len() as int, needs_sep0).needs_sep
    }
}

proof fn lemma_records_model_push(rs: Seq<Record>, r: Record)
    ensures
        records_model(rs.push(r)) == records_model(rs).push(r.model()),
{
    assert(records_model(rs.push(r)) =~= records_model(rs).push(r.model()));
}

fn line_prefix(index: usize, config: &Config, file_path: &str) -> (r: String)
    requires
        index < usize::MAX,
    ensures
        r@ == prefix_model(*config, file_path@, index as int),
{
    let mut p = String::new();
    if config.recursive {
        p.append(file_path);
        p.append(":");
    }
    if config.line_number {
        let num = usize_to_string(index + 1);
        p.append(num.as_str());
        p.append(":");
    }
    proof {
        reveal_strlit(":");
        assert(":"@ =~= seq![':']);
        assert(p@ =~= prefix_model(*config, file_path@, index as int));
    }
    p
}

/// Formats one line for output, without any styling: the file path and the
/// 1-based line number are prepended when the configuration asks for them.
pub fn format_line(index: usize, line: &str, config: &Config, file_path: &str) -> (r: String)
    requires
        index < usize::MAX,
    ensures
        r@ == format_model(*config, file_path@, index as int, line@),
{
    let mut p = line_prefix(index, config, file_path);
    p.append(line);
    p
}

/// Searches one document, given as its full text, and returns the output
/// records in document order. The separator flag is read and written so
/// that a caller can carry it across documents.
pub fn search(
    contents: &str,
    config: &Config,
    matcher: &Matcher,
    file_path: &str,
    needs_separator: &mut bool,
) -> (r: Vec<Record>)
    ensures
        records_model(r@) == spec_search(
            matcher.spec_pattern(),
            *config,
            file_path@,
            spec_lines(contents@),
            *old(needs_separator),
        ),
        *final(needs_separator) == spec_needs_sep(
            matcher.spec_pattern(),
            *config,
            file_path@,
            spec_lines(contents@),
            *old(needs_separator),
        ),
{
    let lines = split_lines(contents);
    let ghost pattern = matcher.spec_pattern();
    let ghost linesm = strs_model(lines@);
    let ghost path = file_path@;
    let ghost ns0 = *needs_separator;
    let n = lines.len();

    if config.count_matches {
        let mut hits: usize = 0;
        let mut i: usize = 0;
        while i < n
            invariant
                n == lines@.len(),
                linesm == strs_model(lines@),
                pattern == matcher.spec_pattern(),
                i <= n,
                hits <= i,
                hits as int == hit_count(pattern, config.invert_match, linesm, i as int),
            decreases n - i,
        {
            let m = matcher.test(lines[i].as_str());
            let hit = config.invert_match ^ m;
            if hit {
                hits += 1;
            }
            i += 1;
        }
        let mut out: Vec<Record> = Vec::new();
        out.push(Record::Count { hits });
        proof {
            assert(records_model(out@) =~= spec_search(pattern, *config, path, linesm, ns0));
        }
        return out;
    }

    let mut results: Vec<Record> = Vec::new();
    let mut after_cnt: usize = 0;
    let mut last_cov: usize = 0;
    let mut emitted_any: bool = false;
    let mut i: usize = 0;
    while i < n
        invariant
            n == lines@.len(),
            linesm == strs_model(lines@),
            pattern == matcher.spec_pattern(),
            path == file_path@,
            !config.count_matches,
            i <= n,
            last_cov <= i,
            after_cnt <= config.after_context,
            records_model(results@) == run(pattern, *config, path, linesm, i as int, ns0).out,
            after_cnt as int == run(pattern, *config, path, linesm, i as int, ns0).after_cnt,
            last_cov as int == run(pattern, *config, path, linesm, i as int, ns0).last_cov,
            *needs_separator == run(pattern, *config, path, linesm, i as int, ns0).needs_sep,
            emitted_any == (run(pattern, *config, path, linesm, i as int, ns0).idxs.len() > 0),
        decreases n - i,
    {
        let ghost st0 = run(pattern, *config, path, linesm, i as int, ns0);
        let m = matcher.test(lines[i].as_str());
        let hit = config.invert_match ^ m;
        if hit || after_cnt > 0 {
            let new_block = after_cnt == 0;
            let mut bstart: usize = i;
            if new_block && config.before_context > 0 {
                let lb = last_cov + 1;
                let raw: usize = if i > config.before_context {
                    i - config.before_context
                } else {
                    0
                };
                bstart = if raw > lb {
                    raw
                } else {
                    lb
                };
                proof {
                    assert(bstart as int == backfill_start(*config, i as int, st0.last_cov));
                }
            }
            let ghost backfilling = new_block && config.before_context > 0;
            let ghost sep_due = st0.needs_sep && new_block && (config.after_context > 0
                || config.before_context > 0) && (st0.idxs.len() == 0 || bstart as int
                > st0.last_cov + 1);
            if *needs_separator && new_block && (config.after_context > 0
                || config.before_context > 0) && (!emitted_any || bstart > last_cov + 1) {
                let sep = Record::Separator { text: config.group_separator.clone() };
                proof {
                    lemma_records_model_push(results@, sep);
                }
                results.push(sep);
            }
            let ghost st1out = st0.out + (if sep_due {
                seq![RecordModel::SepM { text: config.group_separator@ }]
            } else {
                Seq::<RecordModel>::empty()
            });
            proof {
                assert(records_model(results@) =~= st1out);
            }
            if new_block && config.before_context > 0 {
                let mut j: usize = bstart;
                while j < i
                    invariant
                        n == lines@.len(),
                        linesm == strs_model(lines@),
                        path == file_path@,
                        i < n,
                        bstart <= j,
                        j <= i || j == bstart,
                        records_model(results@) == st1out + Seq::new(
                            span_len(bstart as int, j as int),
                            |k: int| line_model(pattern, *config, path, linesm, bstart + k, false),
                        ),
                    decreases i - j,
                {
                    let prefix = line_prefix(j, config, file_path);
                    let content = lines[j].clone();
                    let rec = Record::Line { prefix, content, spans: Vec::new() };
                    proof {
                        lemma_records_model_push(results@, rec);
                        assert(spans_model(Seq::<Span>::empty()) =~= Seq::<(int, int)>::empty());
                        assert(linesm[j as int] == lines@[j as int]@);
                        assert(rec.model() == line_model(
                            pattern,
                            *config,
                            path,
                            linesm,
                            j as int,
                            false,
                        ));
                    }
                    results.push(rec);
                    proof {
                        assert(records_model(results@) =~= st1out + Seq::new(
                            span_len(bstart as int, j as int + 1),
                            |k: int| line_model(pattern, *config, path, linesm, bstart + k, false),
                        ));
                    }
                    j += 1;
                }
                proof {
                    assert(span_len(bstart as int, j as int) == span_len(
                        bstart as int,
                        i as int,
                    ));
                }
            }
            proof {
                assert(records_model(results@) =~= st1out + Seq::new(
                    span_len(
                        (if backfilling {
                            backfill_start(*config, i as int, st0.last_cov)
                        } else {
                            i as int
                        }),
                        i as int,
                    ),
                    |k: int| line_model(
                        pattern,
                        *config,
                        path,
                        linesm,
                        (if backfilling {
                            backfill_start(*config, i as int, st0.last_cov)
                        } else {
                            i as int
                        }) + k,
                        false,
                    ),
                ));
            }
            let spans: Vec<Span> = if config.color && hit {
                matcher.find_spans(lines[i].as_str())
            } else {
                Vec::new()
            };
            let prefix = line_prefix(i, config, file_path);
            let content = lines[i].clone();
            let rec = Record::Line { prefix, content, spans };
            proof {
                lemma_records_model_push(results@, rec);
                assert(spans_model(Seq::<Span>::empty()) =~= Seq::<(int, int)>::empty());
                assert(linesm[i as int] == lines@[i as int]@);
                assert(rec.model() == line_model(
                    pattern,
                    *config,
                    path,
                    linesm,
                    i as int,
                    config.color && hit,
                ));
            }
            results.push(rec);
            if hit {
                after_cnt = config.after_context;
            } else {
                after_cnt = after_cnt - 1;
            }
            last_cov = i;
            *needs_separator = true;
            emitted_any = true;
            proof {
                let stn = included_step(pattern, *config, path, linesm, i as int, st0);
                assert(stn.idxs.len() > 0);
                assert(records_model(results@) =~= stn.out);
                assert(run(pattern, *config, path, linesm, i as int + 1, ns0) == step(
                    pattern,
                    *config,
                    path,
                    linesm,
                    i as int,
                    st0,
                ));
            }
        } else {
            proof {
                assert(run(pattern, *config, path, linesm, i as int + 1, ns0) == step(
                    pattern,
                    *config,
                    path,
                    linesm,
                    i as int,
                    st0,
                ));
            }
        }
        i += 1;
    }
    proof {
        assert(records_model(results@) == spec_search(pattern, *config, path, linesm, ns0));
    }
    results
}

} // verus!

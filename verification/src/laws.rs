use vstd::prelude::*;

use crate::config::Config;
use crate::engine::RecordModel;
use crate::engine::hit_count;
use crate::engine::is_hit;
use crate::engine::line_model;
use crate::engine::run;
use crate::engine::spec_needs_sep;
use crate::engine::spec_search;
use crate::matcher::regex_match;

verus! {

// ---------------------------------------------------------------------------
// The engine only ever appends: earlier records never change.
// ---------------------------------------------------------------------------

proof fn lemma_run_out_extends(
    pattern: Seq<char>,
    cfg: Config,
    path: Seq<char>,
    lines: Seq<Seq<char>>,
    ns0: bool,
    n1: int,
    n2: int,
)
    requires
        0 <= n1 <= n2,
    ensures
        run(pattern, cfg, path, lines, n1, ns0).out.len() <= run(
            pattern,
            cfg,
            path,
            lines,
            n2,
            ns0,
        ).out.len(),
        forall|j: int|
            0 <= j < run(pattern, cfg, path, lines, n1, ns0).out.len() ==> run(
                pattern,
                cfg,
                path,
                lines,
                n2,
                ns0,
            ).out[j] == run(pattern, cfg, path, lines, n1, ns0).out[j],
    decreases n2 - n1,
{
    if n1 < n2 {
        lemma_run_out_extends(pattern, cfg, path, lines, ns0, n1, n2 - 1);
    }
}

// ---------------------------------------------------------------------------
// Every direct hit is in the result set.
// ---------------------------------------------------------------------------

/// Every line the matcher accepts appears, when invert-match is off and
/// count mode is off, in the result set as its own record — with the match
/// spans attached exactly when highlighting is on.
pub proof fn lemma_hit_line_included(
    pattern: Seq<char>,
    cfg: Config,
    path: Seq<char>,
    lines: Seq<Seq<char>>,
    ns0: bool,
    i: int,
)
    requires
        !cfg.count_matches,
        !cfg.invert_match,
        0 <= i < lines.len(),
        regex_match(pattern, lines[i]),
    ensures
        spec_search(pattern, cfg, path, lines, ns0).contains(
            line_model(pattern, cfg, path, lines, i, cfg.color),
        ),
{
    let st1 = run(pattern, cfg, path, lines, i + 1, ns0);
    assert(is_hit(pattern, cfg.invert_match, lines[i]));
    assert(st1.out.len() > 0 && st1.out.last() == line_model(pattern, cfg, path, lines, i, cfg.color));
    lemma_run_out_extends(pattern, cfg, path, lines, ns0, i + 1, lines.len() as int);
    let j = st1.out.len() - 1;
    assert(spec_search(pattern, cfg, path, lines, ns0)[j] == line_model(
        pattern,
        cfg,
        path,
        lines,
        i,
        cfg.color,
    ));
}

// ---------------------------------------------------------------------------
// The engine carries no hidden state.
// ---------------------------------------------------------------------------

/// Two runs over the same document, configuration, matcher, path and carry
/// state produce the same records and leave the carry flag the same: the
/// engine's output is a function of its inputs and of nothing else.
pub proof fn lemma_search_idempotent(
    pattern: Seq<char>,
    cfg: Config,
    path: Seq<char>,
    lines: Seq<Seq<char>>,
    ns0: bool,
    out1: Seq<RecordModel>,
    sep1: bool,
    out2: Seq<RecordModel>,
    sep2: bool,
)
    requires
        out1 == spec_search(pattern, cfg, path, lines, ns0),
        sep1 == spec_needs_sep(pattern, cfg, path, lines, ns0),
        out2 == spec_search(pattern, cfg, path, lines, ns0),
        sep2 == spec_needs_sep(pattern, cfg, path, lines, ns0),
    ensures
        out1 == out2,
        sep1 == sep2,
{
}

// ---------------------------------------------------------------------------
// Count mode.
// ---------------------------------------------------------------------------

/// In count mode the engine emits exactly one record, the number of direct
/// hits; the context sizes, the path and the carried flag play no part in
/// it, and the carried flag comes back unchanged.
pub proof fn lemma_count_mode(
    pattern: Seq<char>,
    cfg1: Config,
    cfg2: Config,
    path1: Seq<char>,
    path2: Seq<char>,
    lines: Seq<Seq<char>>,
    ns1: bool,
    ns2: bool,
)
    requires
        cfg1.count_matches,
        cfg2.count_matches,
        cfg1.invert_match == cfg2.invert_match,
    ensures
        spec_search(pattern, cfg1, path1, lines, ns1) == seq![
            RecordModel::CountM {
                hits: hit_count(pattern, cfg1.invert_match, lines, lines.len() as int),
            },
        ],
        spec_search(pattern, cfg1, path1, lines, ns1) == spec_search(
            pattern,
            cfg2,
            path2,
            lines,
            ns2,
        ),
        spec_needs_sep(pattern, cfg1, path1, lines, ns1) == ns1,
{
}

// ---------------------------------------------------------------------------
// The separator law: zero context, no separators.
// ---------------------------------------------------------------------------

proof fn lemma_run_zero_ctx_no_sep(
    pattern: Seq<char>,
    cfg: Config,
    path: Seq<char>,
    lines: Seq<Seq<char>>,
    ns0: bool,
    n: int,
)
    requires
        cfg.after_context == 0,
        cfg.before_context == 0,
        0 <= n,
    ensures
        forall|j: int|
            0 <= j < run(pattern, cfg, path, lines, n, ns0).out.len() ==> !(run(
                pattern,
                cfg,
                path,
                lines,
                n,
                ns0,
            ).out[j] is SepM),
    decreases n,
{
    if n > 0 {
        lemma_run_zero_ctx_no_sep(pattern, cfg, path, lines, ns0, n - 1);
    }
}

// ---------------------------------------------------------------------------
// No line is ever emitted twice.
// ---------------------------------------------------------------------------

proof fn lemma_run_idxs(
    pattern: Seq<char>,
    cfg: Config,
    path: Seq<char>,
    lines: Seq<Seq<char>>,
    ns0: bool,
    n: int,
)
    requires
        0 <= n,
    ensures
        run(pattern, cfg, path, lines, n, ns0).after_cnt >= 0,
        0 <= run(pattern, cfg, path, lines, n, ns0).last_cov,
        n > 0 ==> run(pattern, cfg, path, lines, n, ns0).last_cov <= n - 1,
        n == 0 ==> run(pattern, cfg, path, lines, n, ns0).last_cov == 0,
        run(pattern, cfg, path, lines, n, ns0).idxs.len() > 0 ==> run(
            pattern,
            cfg,
            path,
            lines,
            n,
            ns0,
        ).idxs.last() == run(pattern, cfg, path, lines, n, ns0).last_cov,
        run(pattern, cfg, path, lines, n, ns0).needs_sep == (ns0 || run(
            pattern,
            cfg,
            path,
            lines,
            n,
            ns0,
        ).idxs.len() > 0),
        forall|j: int|
            0 <= j < run(pattern, cfg, path, lines, n, ns0).idxs.len() ==> 0 <= #[trigger] run(
                pattern,
                cfg,
                path,
                lines,
                n,
                ns0,
            ).idxs[j] && run(pattern, cfg, path, lines, n, ns0).idxs[j] <= run(
                pattern,
                cfg,
                path,
                lines,
                n,
                ns0,
            ).last_cov,
        forall|j1: int, j2: int|
            0 <= j1 < j2 < run(pattern, cfg, path, lines, n, ns0).idxs.len() ==> run(
                pattern,
                cfg,
                path,
                lines,
                n,
                ns0,
            ).idxs[j1] < run(pattern, cfg, path, lines, n, ns0).idxs[j2],
    decreases n,
{
    if n > 0 {
        lemma_run_idxs(pattern, cfg, path, lines, ns0, n - 1);
    }
}

/// No line is duplicated: the document lines of a search's output stand in
/// strictly increasing order of their index, so each appears at most once.
pub proof fn lemma_no_line_duplicated(
    pattern: Seq<char>,
    cfg: Config,
    path: Seq<char>,
    lines: Seq<Seq<char>>,
    ns0: bool,
)
    ensures
        forall|j1: int, j2: int|
            0 <= j1 < j2 < run(pattern, cfg, path, lines, lines.len() as int, ns0).idxs.len()
                ==> run(pattern, cfg, path, lines, lines.len() as int, ns0).idxs[j1] < run(
                pattern,
                cfg,
                path,
                lines,
                lines.len() as int,
                ns0,
            ).idxs[j2],
{
    lemma_run_idxs(pattern, cfg, path, lines, ns0, lines.len() as int);
}

/// The separator flag handed on to the next document is set exactly when it
/// was set on entry or the search included at least one line.
pub proof fn lemma_separator_flag(
    pattern: Seq<char>,
    cfg: Config,
    path: Seq<char>,
    lines: Seq<Seq<char>>,
    ns0: bool,
)
    requires
        !cfg.count_matches,
    ensures
        spec_needs_sep(pattern, cfg, path, lines, ns0) == (ns0 || run(
            pattern,
            cfg,
            path,
            lines,
            lines.len() as int,
            ns0,
        ).idxs.len() > 0),
{
    lemma_run_idxs(pattern, cfg, path, lines, ns0, lines.len() as int);
}

/// With both context sizes zero, no separator is ever emitted, whatever the
/// gaps between blocks and whatever flag was carried in.
pub proof fn lemma_separator_law(
    pattern: Seq<char>,
    cfg: Config,
    path: Seq<char>,
    lines: Seq<Seq<char>>,
    ns0: bool,
)
    requires
        cfg.after_context == 0,
        cfg.before_context == 0,
    ensures
        forall|j: int|
            0 <= j < spec_search(pattern, cfg, path, lines, ns0).len() ==> !(spec_search(
                pattern,
                cfg,
                path,
                lines,
                ns0,
            )[j] is SepM),
{
    lemma_run_zero_ctx_no_sep(pattern, cfg, path, lines, ns0, lines.len() as int);
}

// ---------------------------------------------------------------------------
// The context merge law: close blocks merge without a separator.
// ---------------------------------------------------------------------------

/// The index of the last direct hit among the first `n` lines, or -1 when
/// there is none.
pub open spec fn last_hit(pattern: Seq<char>, invert: bool, lines: Seq<Seq<char>>, n: int) -> int
    decreases n,
{
    if n <= 0 {
        -1
    } else if is_hit(pattern, invert, lines[n - 1]) {
        n - 1
    } else {
        last_hit(pattern, invert, lines, n - 1)
    }
}

proof fn lemma_last_hit_props(pattern: Seq<char>, invert: bool, lines: Seq<Seq<char>>, n: int)
    requires
        0 <= n,
    ensures
        -1 <= last_hit(pattern, invert, lines, n) < n,
        last_hit(pattern, invert, lines, n) >= 0 ==> is_hit(
            pattern,
            invert,
            lines[last_hit(pattern, invert, lines, n)],
        ),
        forall|m: int|
            last_hit(pattern, invert, lines, n) < m < n ==> !is_hit(pattern, invert, lines[m]),
    decreases n,
{
    if n > 0 {
        lemma_last_hit_props(pattern, invert, lines, n - 1);
    }
}

/// True when every pair of consecutive direct hits stands at most
/// `gap` lines apart.
pub open spec fn hits_within(
    pattern: Seq<char>,
    invert: bool,
    lines: Seq<Seq<char>>,
    gap: int,
) -> bool {
    forall|h1: int, h2: int|
        0 <= h1 < h2 < lines.len() && is_hit(pattern, invert, lines[h1]) && is_hit(
            pattern,
            invert,
            lines[h2],
        ) && (forall|m: int| h1 < m < h2 ==> !is_hit(pattern, invert, lines[m])) ==> h2 - h1 - 1
            <= gap
}

proof fn lemma_run_merge(
    pattern: Seq<char>,
    cfg: Config,
    path: Seq<char>,
    lines: Seq<Seq<char>>,
    n: int,
)
    requires
        hits_within(
            pattern,
            cfg.invert_match,
            lines,
            cfg.before_context + cfg.after_context,
        ),
        0 <= n <= lines.len(),
    ensures
        run(pattern, cfg, path, lines, n, false).needs_sep <==> last_hit(
            pattern,
            cfg.invert_match,
            lines,
            n,
        ) >= 0,
        last_hit(pattern, cfg.invert_match, lines, n) >= 0 ==> run(
            pattern,
            cfg,
            path,
            lines,
            n,
            false,
        ).last_cov == if last_hit(pattern, cfg.invert_match, lines, n) + cfg.after_context <= n
            - 1 {
            last_hit(pattern, cfg.invert_match, lines, n) + cfg.after_context
        } else {
            n - 1
        },
        last_hit(pattern, cfg.invert_match, lines, n) < 0 ==> run(
            pattern,
            cfg,
            path,
            lines,
            n,
            false,
        ).last_cov == 0 && run(pattern, cfg, path, lines, n, false).after_cnt == 0,
        run(pattern, cfg, path, lines, n, false).after_cnt == if last_hit(
            pattern,
            cfg.invert_match,
            lines,
            n,
        ) >= 0 && last_hit(pattern, cfg.invert_match, lines, n) + cfg.after_context > n - 1 {
            last_hit(pattern, cfg.invert_match, lines, n) + cfg.after_context - (n - 1)
        } else {
            0
        },
        forall|j: int|
            0 <= j < run(pattern, cfg, path, lines, n, false).out.len() ==> !(run(
                pattern,
                cfg,
                path,
                lines,
                n,
                false,
            ).out[j] is SepM),
    decreases n,
{
    let invert = cfg.invert_match;
    if n > 0 {
        lemma_run_merge(pattern, cfg, path, lines, n - 1);
        lemma_last_hit_props(pattern, invert, lines, n - 1);
        let st = run(pattern, cfg, path, lines, n - 1, false);
        let i = n - 1;
        let lh = last_hit(pattern, invert, lines, i);
        let hit = is_hit(pattern, invert, lines[i]);
        if hit || st.after_cnt > 0 {
            if hit && st.after_cnt == 0 && st.needs_sep {
                // A new block starts while one was already emitted: the gap
                // bound makes the block's first emitted line follow the last
                // covered line directly, so no separator is due.
                lemma_run_idxs(pattern, cfg, path, lines, false, n - 1);
                assert(st.idxs.len() > 0);
                assert(lh >= 0);
                assert(forall|m: int| lh < m < i ==> !is_hit(pattern, invert, lines[m]));
                assert(i - lh - 1 <= cfg.before_context + cfg.after_context);
                assert(st.last_cov == lh + cfg.after_context);
                assert(i - cfg.before_context <= st.last_cov + 1);
            }
        }
    }
}

/// The context merge law: when every two consecutive direct hits stand at
/// most `before_context + after_context` lines apart, their blocks all
/// merge — a search that starts with nothing carried in emits no separator.
pub proof fn lemma_context_merge(
    pattern: Seq<char>,
    cfg: Config,
    path: Seq<char>,
    lines: Seq<Seq<char>>,
)
    requires
        hits_within(
            pattern,
            cfg.invert_match,
            lines,
            cfg.before_context + cfg.after_context,
        ),
    ensures
        forall|j: int|
            0 <= j < spec_search(pattern, cfg, path, lines, false).len() ==> !(spec_search(
                pattern,
                cfg,
                path,
                lines,
                false,
            )[j] is SepM),
{
    if !cfg.count_matches {
        lemma_run_merge(pattern, cfg, path, lines, lines.len() as int);
    }
}

} // verus!


use vstd::prelude::*;

use crate::strutil::all_digits;
use crate::strutil::dec_val;
use crate::strutil::opt_str_model;
use crate::strutil::opt_value;
use crate::strutil::parse_usize;
use crate::strutil::spec_opt_value;
use crate::strutil::spec_starts_with;
use crate::strutil::str_eq;
use crate::strutil::str_starts_with;
use crate::strutil::strs_model;

verus! {

/// The full set of options that drive one search run: the query, the
/// target path, matching flags, output flags and context sizes.
#[derive(Debug)]
pub struct Config {
    pub query: String,
    pub file_path: String,
    pub ignore_case: bool,
    pub invert_match: bool,
    pub word_regexp: bool,
    pub line_regexp: bool,
    pub count_matches: bool,
    pub color: bool,
    pub line_number: bool,
    pub recursive: bool,
    pub after_context: usize,
    pub before_context: usize,
    pub group_separator: String,
}

/// A configuration, by plain values.
pub struct ConfigModel {
    pub query: Seq<char>,
    pub file_path: Seq<char>,
    pub ignore_case: bool,
    pub invert_match: bool,
    pub word_regexp: bool,
    pub line_regexp: bool,
    pub count_matches: bool,
    pub color: bool,
    pub line_number: bool,
    pub recursive: bool,
    pub after_context: int,
    pub before_context: int,
    pub group_separator: Seq<char>,
}

impl Config {
    /// The configuration's mathematical shape.
    pub open spec fn model(&self) -> ConfigModel {
        ConfigModel {
            query: self.query@,
            file_path: self.file_path@,
            ignore_case: self.ignore_case,
            invert_match: self.invert_match,
            word_regexp: self.word_regexp,
            line_regexp: self.line_regexp,
            count_matches: self.count_matches,
            color: self.color,
            line_number: self.line_number,
            recursive: self.recursive,
            after_context: self.after_context as int,
            before_context: self.before_context as int,
            group_separator: self.group_separator@,
        }
    }
}

/// What the argument reader has gathered so far.
pub struct ArgState {
    pub ignore_case: bool,
    pub no_ignore_case: bool,
    pub invert_match: bool,
    pub word_regexp: bool,
    pub line_regexp: bool,
    pub count_matches: bool,
    pub line_number: bool,
    pub color: bool,
    pub recursive: bool,
    pub query: Option<Seq<char>>,
    pub file_path: Option<Seq<char>>,
    pub after_context: int,
    pub before_context: int,
    pub group_separator: Seq<char>,
    pub no_group_separator: bool,
}

/// The state before any argument is read: everything off, the group
/// separator at its default.
pub open spec fn init_arg_state() -> ArgState {
    ArgState {
        ignore_case: false,
        no_ignore_case: false,
        invert_match: false,
        word_regexp: false,
        line_regexp: false,
        count_matches: false,
        line_number: false,
        color: false,
        recursive: false,
        query: None,
        file_path: None,
        after_context: 0,
        before_context: 0,
        group_separator: "--"@,
        no_group_separator: false,
    }
}

/// True when `v` is a context length: a nonempty digit string whose value
/// fits the machine's word.
pub open spec fn spec_is_context_len(v: Seq<char>) -> bool {
    v.len() > 0 && all_digits(v) && dec_val(v) <= usize::MAX
}

/// The configuration settled once every argument is read: a
/// no-ignore-case seen anywhere clears the ignore-case flag, a
/// no-group-separator empties the separator, a query is owed, and a path is
/// owed unless the run is recursive, where it defaults to the current
/// directory.
pub open spec fn finish_args(st: ArgState) -> Result<ConfigModel, Seq<char>> {
    let ignore_case = if st.no_ignore_case {
        false
    } else {
        st.ignore_case
    };
    let group_separator = if st.no_group_separator {
        Seq::<char>::empty()
    } else {
        st.group_separator
    };
    if st.query is None {
        Err("Didn't get a query string"@)
    } else if st.file_path is None && !st.recursive {
        Err("Didn't get a file path"@)
    } else {
        Ok(
            ConfigModel {
                query: st.query->0,
                file_path: if st.file_path is Some {
                    st.file_path->0
                } else {
                    "."@
                },
                ignore_case,
                invert_match: st.invert_match,
                word_regexp: st.word_regexp,
                line_regexp: st.line_regexp,
                count_matches: st.count_matches,
                color: st.color,
                line_number: st.line_number,
                recursive: st.recursive,
                after_context: st.after_context,
                before_context: st.before_context,
                group_separator,
            },
        )
    }
}

/// Reads the arguments from position `k` on, in order. Exact option names
/// come first; `-A`, `-B` and `-C` take the following argument as their
/// value; the long context and separator options carry their value after an
/// equals sign; anything else fills the query, then the path.
pub open spec fn spec_build_args(args: Seq<Seq<char>>, k: int, st: ArgState) -> Result<
    ConfigModel,
    Seq<char>,
>
    decreases args.len() - k,
{
    if k >= args.len() || k < 0 {
        finish_args(st)
    } else {
        let a = args[k];
        if a == "-i"@ || a == "--ignore-case"@ {
            spec_build_args(args, k + 1, ArgState { ignore_case: true, ..st })
        } else if a == "--no-ignore-case"@ {
            spec_build_args(args, k + 1, ArgState { no_ignore_case: true, ..st })
        } else if a == "-v"@ || a == "--invert-match"@ {
            spec_build_args(args, k + 1, ArgState { invert_match: true, ..st })
        } else if a == "-w"@ || a == "--word-regexp"@ {
            spec_build_args(args, k + 1, ArgState { word_regexp: true, ..st })
        } else if a == "-x"@ || a == "--line-regexp"@ {
            spec_build_args(args, k + 1, ArgState { line_regexp: true, ..st })
        } else if a == "-c"@ || a == "--count"@ {
            spec_build_args(args, k + 1, ArgState { count_matches: true, ..st })
        } else if a == "--color"@ {
            spec_build_args(args, k + 1, ArgState { color: true, ..st })
        } else if a == "-n"@ || a == "--line-number"@ {
            spec_build_args(args, k + 1, ArgState { line_number: true, ..st })
        } else if a == "-r"@ || a == "--recursive"@ {
            spec_build_args(args, k + 1, ArgState { recursive: true, ..st })
        } else if a == "-A"@ {
            if k + 1 < args.len() && spec_is_context_len(args[k + 1]) {
                spec_build_args(
                    args,
                    k + 2,
                    ArgState { after_context: dec_val(args[k + 1]), ..st },
                )
            } else {
                Err("Invalid context length argument"@)
            }
        } else if a == "-B"@ {
            if k + 1 < args.len() && spec_is_context_len(args[k + 1]) {
                spec_build_args(
                    args,
                    k + 2,
                    ArgState { before_context: dec_val(args[k + 1]), ..st },
                )
            } else {
                Err("Invalid context length argument"@)
            }
        } else if a == "-C"@ {
            if k + 1 < args.len() && spec_is_context_len(args[k + 1]) {
                spec_build_args(
                    args,
                    k + 2,
                    ArgState {
                        after_context: dec_val(args[k + 1]),
                        before_context: dec_val(args[k + 1]),
                        ..st
                    },
                )
            } else {
                Err("Invalid context length argument"@)
            }
        } else if spec_starts_with(a, "--after-context"@) {
            if spec_opt_value(a) is Some && spec_is_context_len(spec_opt_value(a)->0) {
                spec_build_args(
                    args,
                    k + 1,
                    ArgState { after_context: dec_val(spec_opt_value(a)->0), ..st },
                )
            } else {
                Err("Invalid context length argument"@)
            }
        } else if spec_starts_with(a, "--before-context"@) {
            if spec_opt_value(a) is Some && spec_is_context_len(spec_opt_value(a)->0) {
                spec_build_args(
                    args,
                    k + 1,
                    ArgState { before_context: dec_val(spec_opt_value(a)->0), ..st },
                )
            } else {
                Err("Invalid context length argument"@)
            }
        } else if spec_starts_with(a, "--context"@) {
            if spec_opt_value(a) is Some && spec_is_context_len(spec_opt_value(a)->0) {
                spec_build_args(
                    args,
                    k + 1,
                    ArgState {
                        after_context: dec_val(spec_opt_value(a)->0),
                        before_context: dec_val(spec_opt_value(a)->0),
                        ..st
                    },
                )
            } else {
                Err("Invalid context length argument"@)
            }
        } else if spec_starts_with(a, "--group_separator"@) {
            spec_build_args(
                args,
                k + 1,
                ArgState {
                    group_separator: if spec_opt_value(a) is Some {
                        spec_opt_value(a)->0
                    } else {
                        "--"@
                    },
                    ..st
                },
            )
        } else if a == "--no_group_separator"@ {
            spec_build_args(args, k + 1, ArgState { no_group_separator: true, ..st })
        } else if st.query is None {
            spec_build_args(args, k + 1, ArgState { query: Some(a), ..st })
        } else if st.file_path is None {
            spec_build_args(args, k + 1, ArgState { file_path: Some(a), ..st })
        } else {
            Err("Invalid option or too many arguments"@)
        }
    }
}

/// The configuration parsed from a full argument vector. The first element
/// is the program's own name and is skipped.
pub open spec fn spec_build(args: Seq<Seq<char>>) -> Result<ConfigModel, Seq<char>> {
    spec_build_args(args, 1, init_arg_state())
}

/// The state the exec reader's locals stand for.
pub open spec fn arg_state_of(
    ignore_case: bool,
    no_ignore_case: bool,
    invert_match: bool,
    word_regexp: bool,
    line_regexp: bool,
    count_matches: bool,
    line_number: bool,
    color: bool,
    recursive: bool,
    query: Option<Seq<char>>,
    file_path: Option<Seq<char>>,
    after_context: int,
    before_context: int,
    group_separator: Seq<char>,
    no_group_separator: bool,
) -> ArgState {
    ArgState {
        ignore_case,
        no_ignore_case,
        invert_match,
        word_regexp,
        line_regexp,
        count_matches,
        line_number,
        color,
        recursive,
        query,
        file_path,
        after_context,
        before_context,
        group_separator,
        no_group_separator,
    }
}

/// What the argument reader has gathered so far, as exec values.
struct ArgAccum {
    ignore_case: bool,
    no_ignore_case: bool,
    invert_match: bool,
    word_regexp: bool,
    line_regexp: bool,
    count_matches: bool,
    line_number: bool,
    color: bool,
    recursive: bool,
    query: Option<String>,
    file_path: Option<String>,
    after_context: usize,
    before_context: usize,
    group_separator: String,
    no_group_separator: bool,
}

impl ArgAccum {
    /// The gathered options, by plain values.
    spec fn model(&self) -> ArgState {
        arg_state_of(
            self.ignore_case,
            self.no_ignore_case,
            self.invert_match,
            self.word_regexp,
            self.line_regexp,
            self.count_matches,
            self.line_number,
            self.color,
            self.recursive,
            opt_str_model(self.query),
            opt_str_model(self.file_path),
            self.after_context as int,
            self.before_context as int,
            self.group_separator@,
            self.no_group_separator,
        )
    }
}

/// Reads the argument at position `k` (and, for `-A`, `-B` and `-C`, its
/// value after it) into the accumulator, and returns the position of the
/// next unread argument.
#[verifier::rlimit(100)]
fn read_arg(acc: &mut ArgAccum, args: &Vec<String>, k: usize) -> (r: Result<usize, &'static str>)
    requires
        1 <= k < args@.len(),
    ensures
        r is Ok ==> k < r->Ok_0 <= args@.len() && spec_build_args(
            strs_model(args@),
            r->Ok_0 as int,
            final(acc).model(),
        ) == spec_build_args(strs_model(args@), k as int, old(acc).model()),
        r is Err ==> spec_build_args(strs_model(args@), k as int, old(acc).model()) is Err
            && spec_build_args(strs_model(args@), k as int, old(acc).model())->Err_0
            == r->Err_0@,
{
    let ghost argsm = strs_model(args@);
    proof {
        assert(argsm[k as int] == args@[k as int]@);
    }
    let n = args.len();
    let arg = &args[k];
    if str_eq(arg.as_str(), "-i") || str_eq(arg.as_str(), "--ignore-case") {
        acc.ignore_case = true;
        Ok(k + 1)
    } else if str_eq(arg.as_str(), "--no-ignore-case") {
        acc.no_ignore_case = true;
        Ok(k + 1)
    } else if str_eq(arg.as_str(), "-v") || str_eq(arg.as_str(), "--invert-match") {
        acc.invert_match = true;
        Ok(k + 1)
    } else if str_eq(arg.as_str(), "-w") || str_eq(arg.as_str(), "--word-regexp") {
        acc.word_regexp = true;
        Ok(k + 1)
    } else if str_eq(arg.as_str(), "-x") || str_eq(arg.as_str(), "--line-regexp") {
        acc.line_regexp = true;
        Ok(k + 1)
    } else if str_eq(arg.as_str(), "-c") || str_eq(arg.as_str(), "--count") {
        acc.count_matches = true;
        Ok(k + 1)
    } else if str_eq(arg.as_str(), "--color") {
        acc.color = true;
        Ok(k + 1)
    } else if str_eq(arg.as_str(), "-n") || str_eq(arg.as_str(), "--line-number") {
        acc.line_number = true;
        Ok(k + 1)
    } else if str_eq(arg.as_str(), "-r") || str_eq(arg.as_str(), "--recursive") {
        acc.recursive = true;
        Ok(k + 1)
    } else if str_eq(arg.as_str(), "-A") {
        if k + 1 >= n {
            return Err("Invalid context length argument");
        }
        proof {
            assert(argsm[k as int + 1] == args@[k as int + 1]@);
        }
        match parse_usize(args[k + 1].as_str()) {
            Some(x) => {
                acc.after_context = x;
                Ok(k + 2)
            },
            None => Err("Invalid context length argument"),
        }
    } else if str_eq(arg.as_str(), "-B") {
        if k + 1 >= n {
            return Err("Invalid context length argument");
        }
        proof {
            assert(argsm[k as int + 1] == args@[k as int + 1]@);
        }
        match parse_usize(args[k + 1].as_str()) {
            Some(x) => {
                acc.before_context = x;
                Ok(k + 2)
            },
            None => Err("Invalid context length argument"),
        }
    } else if str_eq(arg.as_str(), "-C") {
        if k + 1 >= n {
            return Err("Invalid context length argument");
        }
        proof {
            assert(argsm[k as int + 1] == args@[k as int + 1]@);
        }
        match parse_usize(args[k + 1].as_str()) {
            Some(x) => {
                acc.after_context = x;
                acc.before_context = x;
                Ok(k + 2)
            },
            None => Err("Invalid context length argument"),
        }
    } else if str_starts_with(arg.as_str(), "--after-context") {
        match opt_value(arg.as_str()) {
            Some(v) => {
                match parse_usize(v.as_str()) {
                    Some(x) => {
                        acc.after_context = x;
                        Ok(k + 1)
                    },
                    None => Err("Invalid context length argument"),
                }
            },
            None => Err("Invalid context length argument"),
        }
    } else if str_starts_with(arg.as_str(), "--before-context") {
        match opt_value(arg.as_str()) {
            Some(v) => {
                match parse_usize(v.as_str()) {
                    Some(x) => {
                        acc.before_context = x;
                        Ok(k + 1)
                    },
                    None => Err("Invalid context length argument"),
                }
            },
            None => Err("Invalid context length argument"),
        }
    } else if str_starts_with(arg.as_str(), "--context") {
        match opt_value(arg.as_str()) {
            Some(v) => {
                match parse_usize(v.as_str()) {
                    Some(x) => {
                        acc.after_context = x;
                        acc.before_context = x;
                        Ok(k + 1)
                    },
                    None => Err("Invalid context length argument"),
                }
            },
            None => Err("Invalid context length argument"),
        }
    } else if str_starts_with(arg.as_str(), "--group_separator") {
        match opt_value(arg.as_str()) {
            Some(v) => {
                acc.group_separator = v;
            },
            None => {
                acc.group_separator = String::from_str("--");
            },
        }
        Ok(k + 1)
    } else if str_eq(arg.as_str(), "--no_group_separator") {
        acc.no_group_separator = true;
        Ok(k + 1)
    } else if acc.query.is_none() {
        acc.query = Some(arg.clone());
        Ok(k + 1)
    } else if acc.file_path.is_none() {
        acc.file_path = Some(arg.clone());
        Ok(k + 1)
    } else {
        Err("Invalid option or too many arguments")
    }
}

impl Config {
    /// Reads a configuration from the argument vector, the program's own
    /// name first. Option arguments may come in any order and any position;
    /// the first two arguments that are no option become the query and the
    /// path.
    pub fn build(args: Vec<String>) -> (r: Result<Config, &'static str>)
        ensures
            r is Ok ==> spec_build(strs_model(args@)) is Ok && r->Ok_0.model() == spec_build(
                strs_model(args@),
            )->Ok_0,
            r is Err ==> spec_build(strs_model(args@)) is Err && r->Err_0@ == spec_build(
                strs_model(args@),
            )->Err_0,
    {
        let ghost argsm = strs_model(args@);
        let mut acc = ArgAccum {
            ignore_case: false,
            no_ignore_case: false,
            invert_match: false,
            word_regexp: false,
            line_regexp: false,
            count_matches: false,
            line_number: false,
            color: false,
            recursive: false,
            query: None,
            file_path: None,
            after_context: 0,
            before_context: 0,
            group_separator: String::from_str("--"),
            no_group_separator: false,
        };
        let n = args.len();
        let mut k: usize = 1;
        while k < n
            invariant
                n == args@.len(),
                argsm == strs_model(args@),
                1 <= k,
                k <= n || k == 1,
                spec_build_args(argsm, k as int, acc.model()) == spec_build(argsm),
            decreases n - k,
        {
            match read_arg(&mut acc, &args, k) {
                Ok(k2) => {
                    k = k2;
                },
                Err(e) => {
                    return Err(e);
                },
            }
        }

        let ghost stf = acc.model();
        proof {
            assert(spec_build_args(argsm, k as int, stf) == finish_args(stf));
        }
        let mut ignore_case = acc.ignore_case;
        if acc.no_ignore_case {
            ignore_case = false;
        }
        let group_separator = if acc.no_group_separator {
            String::new()
        } else {
            acc.group_separator
        };
        let query = match acc.query {
            Some(q) => q,
            None => {
                return Err("Didn't get a query string");
            },
        };
        let file_path = match acc.file_path {
            Some(p) => p,
            None => {
                if acc.recursive {
                    String::from_str(".")
                } else {
                    return Err("Didn't get a file path");
                }
            },
        };
        Ok(
            Config {
                query,
                file_path,
                ignore_case,
                invert_match: acc.invert_match,
                word_regexp: acc.word_regexp,
                line_regexp: acc.line_regexp,
                count_matches: acc.count_matches,
                color: acc.color,
                line_number: acc.line_number,
                recursive: acc.recursive,
                after_context: acc.after_context,
                before_context: acc.before_context,
                group_separator,
            },
        )
    }
}

} // verus!

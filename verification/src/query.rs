//! A change query and what executing one yields: the working directory and
//! argument vector handed to the external version-control tool, and the
//! filtering and path resolution applied to the output it captured.
//!
//! Running the tool itself is the caller's business; this module states and
//! checks everything that happens to the captured text: split on newline,
//! drop empty lines, keep what the pattern filter accepts, and join each
//! surviving line onto the working directory so every result is absolute
//! whenever the working directory is.

use crate::lines::split_lines;
use crate::pattern::PatternFilter;
use crate::pattern::accepts;
use vstd::prelude::*;

verus! {

/// One planned invocation of the external version-control tool: where to
/// run it, its argument vector, and the filter its output runs through.
pub struct GitCmd {
    pub cwd: String,
    pub args: Vec<String>,
    pub reg: PatternFilter,
}

/// A line joined onto the working directory. The rule: a line that already
/// starts with `'/'` is kept as it is; otherwise it is appended to the
/// working directory, with a single `'/'` inserted unless the working
/// directory already ends with one (an empty working directory thus yields
/// `"/" + line`).
pub open spec fn join_path(cwd: Seq<char>, line: Seq<char>) -> Seq<char> {
    if line.len() > 0 && line[0] == '/' {
        line
    } else if cwd.len() > 0 && cwd[cwd.len() - 1] == '/' {
        cwd + line
    } else {
        cwd + seq!['/'] + line
    }
}

/// Whether a captured line survives: it is non-empty and the filter
/// accepts it.
pub open spec fn line_kept(pat: Option<Seq<char>>, line: Seq<char>) -> bool {
    line.len() > 0 && accepts(pat, line)
}

/// The surviving lines, in order, each joined onto the working directory.
pub open spec fn processed_lines(
    cwd: Seq<char>,
    pat: Option<Seq<char>>,
    lines: Seq<Seq<char>>,
) -> Seq<Seq<char>>
    decreases lines.len(),
{
    if lines.len() == 0 {
        Seq::empty()
    } else {
        let head = if line_kept(pat, lines[0]) {
            seq![join_path(cwd, lines[0])]
        } else {
            Seq::<Seq<char>>::empty()
        };
        head + processed_lines(cwd, pat, lines.skip(1))
    }
}

/// What a successful query yields from the captured output `out`.
pub open spec fn query_paths(
    cwd: Seq<char>,
    pat: Option<Seq<char>>,
    out: Seq<char>,
) -> Seq<Seq<char>> {
    processed_lines(cwd, pat, split_lines(out))
}

/// Join one output line onto the working directory, by the rule of
/// [`join_path`].
pub fn join_path_exec(cwd: &str, line: &str) -> (r: String)
    ensures
        r@ == join_path(cwd@, line@),
{
    if !line.is_empty() && line.get_char(0) == '/' {
        line.to_owned()
    } else if !cwd.is_empty() && cwd.get_char(cwd.unicode_len() - 1) == '/' {
        cwd.to_owned().concat(line)
    } else {
        proof {
            reveal_strlit("/");
            assert("/"@ =~= seq!['/']);
        }
        let r = cwd.to_owned().concat("/").concat(line);
        proof {
            assert(r@ =~= cwd@ + seq!['/'] + line@);
        }
        r
    }
}

/// The outcome of one query: the paths it contributes, and the diagnostic
/// line to print when the invocation failed.
///
/// On a captured output, the result is exactly the non-empty accepted
/// lines joined onto the query's working directory, in output order, and
/// no diagnostic. On a failed invocation the query contributes nothing and
/// the diagnostic names the error; the failure is recorded, never fatal.
pub fn get_changed_and_filter(cmd: &GitCmd, capture: Result<String, String>) -> (r: (
    Vec<String>,
    Option<String>,
))
    ensures
        match capture {
            Ok(out) => r.0.deep_view() == query_paths(cmd.cwd@, cmd.reg.pattern(), out@) && r.1
                is None,
            Err(msg) => r.0.deep_view() == Seq::<Seq<char>>::empty() && (r.1 matches Some(d)
                && d@ == "run error "@ + msg@),
        },
{
    match capture {
        Ok(out) => {
            let lines = crate::lines::split_lines_exec(out.as_str());
            let ghost all = lines.deep_view();
            let ghost pat = cmd.reg.pattern();
            let mut res: Vec<String> = Vec::new();
            let mut k: usize = 0;
            proof {
                assert(all.skip(0) =~= all);
                assert(res.deep_view() + processed_lines(cmd.cwd@, pat, all.skip(0))
                    =~= processed_lines(cmd.cwd@, pat, all));
            }
            while k < lines.len()
                invariant
                    k <= lines.len(),
                    all == lines.deep_view(),
                    pat == cmd.reg.pattern(),
                    res.deep_view() + processed_lines(cmd.cwd@, pat, all.skip(k as int))
                        == processed_lines(cmd.cwd@, pat, all),
                decreases lines.len() - k,
            {
                let line = &lines[k];
                let ghost prev = res.deep_view();
                let ghost tail = all.skip(k as int);
                proof {
                    assert(tail[0] == all[k as int]);
                    assert(tail.skip(1) =~= all.skip(k + 1));
                }
                if !line.as_str().is_empty() && cmd.reg.matches(line.as_str()) {
                    res.push(join_path_exec(cmd.cwd.as_str(), line.as_str()));
                    proof {
                        assert(line_kept(pat, all[k as int]));
                        assert(res.deep_view() =~= prev.push(join_path(cmd.cwd@, all[k as int])));
                        assert(res.deep_view() + processed_lines(cmd.cwd@, pat, all.skip(k + 1))
                            =~= processed_lines(cmd.cwd@, pat, all));
                    }
                } else {
                    proof {
                        assert(!line_kept(pat, all[k as int]));
                        assert(res.deep_view() + processed_lines(cmd.cwd@, pat, all.skip(k + 1))
                            =~= processed_lines(cmd.cwd@, pat, all));
                    }
                }
                k += 1;
            }
            proof {
                assert(all.skip(k as int) =~= Seq::<Seq<char>>::empty());
                assert(res.deep_view() =~= processed_lines(cmd.cwd@, pat, all));
            }
            (res, None)
        },
        Err(msg) => {
            let diag = "run error ".to_owned().concat(msg.as_str());
            let empty: Vec<String> = Vec::new();
            proof {
                assert(empty.deep_view() =~= Seq::<Seq<char>>::empty());
            }
            (empty, Some(diag))
        },
    }
}

/// Every path a query yields is absolute when the query's working
/// directory is: each either kept a leading `'/'` of its own or was joined
/// onto the working directory's leading `'/'`.
pub proof fn lemma_processed_lines_absolute(
    cwd: Seq<char>,
    pat: Option<Seq<char>>,
    lines: Seq<Seq<char>>,
)
    requires
        cwd.len() > 0,
        cwd[0] == '/',
    ensures
        forall|k: int|
            0 <= k < processed_lines(cwd, pat, lines).len() ==> (
            #[trigger] processed_lines(cwd, pat, lines)[k]).len() > 0 && processed_lines(
                cwd,
                pat,
                lines,
            )[k][0] == '/',
    decreases lines.len(),
{
    if lines.len() == 0 {
    } else {
        lemma_processed_lines_absolute(cwd, pat, lines.skip(1));
        let whole = processed_lines(cwd, pat, lines);
        let rest = processed_lines(cwd, pat, lines.skip(1));
        assert forall|k: int| 0 <= k < whole.len() implies (#[trigger] whole[k]).len() > 0
            && whole[k][0] == '/' by {
            if line_kept(pat, lines[0]) && k == 0 {
                let p = join_path(cwd, lines[0]);
                if lines[0].len() > 0 && lines[0][0] == '/' {
                } else if cwd[cwd.len() - 1] == '/' {
                    assert(p[0] == cwd[0]);
                } else {
                    assert(p[0] == cwd[0]);
                }
            } else {
                let shift: int = if line_kept(pat, lines[0]) {
                    1
                } else {
                    0
                };
                assert(whole[k] == rest[k - shift]);
            }
        }
    }
}

/// Every path a query yields from any captured output is absolute when the
/// query's working directory is.
pub proof fn lemma_query_paths_absolute(cwd: Seq<char>, pat: Option<Seq<char>>, out: Seq<char>)
    requires
        cwd.len() > 0,
        cwd[0] == '/',
    ensures
        forall|k: int|
            0 <= k < query_paths(cwd, pat, out).len() ==> (#[trigger] query_paths(
                cwd,
                pat,
                out,
            )[k]).len() > 0 && query_paths(cwd, pat, out)[k][0] == '/',
{
    lemma_processed_lines_absolute(cwd, pat, split_lines(out));
}

} // verus!

//! The scope planner: from the selected options, the ordered list of
//! queries to put to the external version-control tool.
//!
//! A staged and an unstaged query are always planned. With no scope flag
//! set, those two are the whole plan. Otherwise a since-reference query is
//! added, diffing against the given reference or, absent one, against the
//! parent of the current head; when the last-commit flag is set, a
//! last-commit query is planned as well, before the since-reference one.

use crate::pattern::PatternFilter;
use crate::query::GitCmd;
use vstd::prelude::*;

verus! {

/// The scope-selecting options, immutable once parsed.
pub struct Opt {
    pub last_commit: bool,
    pub with_ancestor: bool,
    pub changed_since: Option<String>,
}

impl Opt {
    /// Whether any scope-selecting flag is set; with none, only the staged
    /// and unstaged queries are planned.
    pub open spec fn spec_scoped(self) -> bool {
        self.last_commit || self.with_ancestor || self.changed_since is Some
    }
}

/// Arguments of the staged query: files staged for the next commit.
pub open spec fn staged_args() -> Seq<Seq<char>> {
    seq!["diff"@, "--cached"@, "--name-only"@]
}

/// Arguments of the unstaged query: untracked-but-not-ignored files and
/// modified-but-unstaged files.
pub open spec fn unstaged_args() -> Seq<Seq<char>> {
    seq!["ls-files"@, "--other"@, "--modified"@, "--exclude-standard"@]
}

/// Arguments of the last-commit query: files touched by the most recent
/// commit.
pub open spec fn last_commit_args() -> Seq<Seq<char>> {
    seq!["show"@, "--name-only"@, "--pretty=format:"@, "HEAD"@]
}

/// The diff target of the since-reference query: the given reference, or
/// the parent of the current head when none was given; with the ancestor
/// flag, the tool's merge-base form of the same target (three dots).
pub open spec fn since_target(changed_since: Option<Seq<char>>, with_ancestor: bool) -> Seq<char> {
    let base = match changed_since {
        Some(r) => r,
        None => "HEAD^"@,
    };
    if with_ancestor {
        base + "..."@
    } else {
        base
    }
}

/// Arguments of the since-reference query for the given diff target.
pub open spec fn since_args(target: Seq<char>) -> Seq<Seq<char>> {
    seq!["diff"@, "--name-only"@, target]
}

fn since_target_exec(changed_since: &Option<String>, with_ancestor: bool) -> (t: String)
    ensures
        t@ == since_target(changed_since.deep_view(), with_ancestor),
{
    let base: String = match changed_since {
        Some(r) => r.clone(),
        None => "HEAD^".to_owned(),
    };
    if with_ancestor {
        base.concat("...")
    } else {
        base
    }
}

/// The ordered query plan for the given options: staged and unstaged
/// always, then, when a scope flag is set, the last-commit query (only
/// with its flag) and the since-reference query. Every query runs in the
/// given working directory and carries its own copy of the filter.
pub fn plan_queries(cwd: &str, opt: &Opt, reg: &PatternFilter) -> (r: Vec<GitCmd>)
    ensures
        forall|k: int|
            0 <= k < r@.len() ==> (#[trigger] r@[k]).cwd@ == cwd@ && r@[k].reg.pattern()
                == reg.pattern(),
        !opt.spec_scoped() ==> r@.len() == 2,
        opt.spec_scoped() && opt.last_commit ==> r@.len() == 4,
        opt.spec_scoped() && !opt.last_commit ==> r@.len() == 3,
        r@[0].args.deep_view() == staged_args(),
        r@[1].args.deep_view() == unstaged_args(),
        opt.last_commit ==> r@[2].args.deep_view() == last_commit_args(),
        opt.spec_scoped() ==> r@[r@.len() - 1].args.deep_view() == since_args(
            since_target(opt.changed_since.deep_view(), opt.with_ancestor),
        ),
{
    let mut cmds: Vec<GitCmd> = Vec::new();

    let mut staged: Vec<String> = Vec::new();
    staged.push("diff".to_owned());
    staged.push("--cached".to_owned());
    staged.push("--name-only".to_owned());
    proof {
        assert(staged.deep_view() =~= staged_args());
    }
    cmds.push(GitCmd { cwd: cwd.to_owned(), args: staged, reg: reg.duplicate() });

    let mut unstaged: Vec<String> = Vec::new();
    unstaged.push("ls-files".to_owned());
    unstaged.push("--other".to_owned());
    unstaged.push("--modified".to_owned());
    unstaged.push("--exclude-standard".to_owned());
    proof {
        assert(unstaged.deep_view() =~= unstaged_args());
    }
    cmds.push(GitCmd { cwd: cwd.to_owned(), args: unstaged, reg: reg.duplicate() });

    if opt.last_commit || opt.with_ancestor || opt.changed_since.is_some() {
        if opt.last_commit {
            let mut last: Vec<String> = Vec::new();
            last.push("show".to_owned());
            last.push("--name-only".to_owned());
            last.push("--pretty=format:".to_owned());
            last.push("HEAD".to_owned());
            proof {
                assert(last.deep_view() =~= last_commit_args());
            }
            cmds.push(GitCmd { cwd: cwd.to_owned(), args: last, reg: reg.duplicate() });
        }

        let target = since_target_exec(&opt.changed_since, opt.with_ancestor);
        let mut since: Vec<String> = Vec::new();
        since.push("diff".to_owned());
        since.push("--name-only".to_owned());
        since.push(target);
        proof {
            assert(since.deep_view() =~= since_args(
                since_target(opt.changed_since.deep_view(), opt.with_ancestor),
            ));
        }
        cmds.push(GitCmd { cwd: cwd.to_owned(), args: since, reg: reg.duplicate() });
    }

    cmds
}

} // verus!

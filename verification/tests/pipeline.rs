use changed_files::merge::combine_unique;
use changed_files::pattern::FilterError;
use changed_files::pattern::PatternFilter;
use changed_files::plan::Opt;
use changed_files::plan::plan_queries;
use changed_files::present::collapse_to_dir;
use changed_files::present::present;
use changed_files::query::GitCmd;
use changed_files::query::get_changed_and_filter;
use changed_files::query::join_path_exec;

fn no_filter() -> PatternFilter {
    PatternFilter::new(None).unwrap()
}

fn cmd_with(cwd: &str, filter: PatternFilter) -> GitCmd {
    GitCmd { cwd: cwd.to_string(), args: Vec::new(), reg: filter }
}

#[test]
fn merger_unions_and_dedups() {
    let merged = combine_unique(vec![
        vec!["/r/a".to_string(), "/r/b".to_string()],
        vec!["/r/b".to_string(), "/r/c".to_string()],
        vec![],
    ]);
    assert_eq!(merged.len(), 3);
    assert!(merged.contains(&"/r/a".to_string()));
    assert!(merged.contains(&"/r/b".to_string()));
    assert!(merged.contains(&"/r/c".to_string()));
}

#[test]
fn merger_of_nothing_is_empty() {
    let merged = combine_unique(vec![]);
    assert!(merged.is_empty());
    let merged = combine_unique(vec![vec![], vec![]]);
    assert!(merged.is_empty());
}

#[test]
fn filter_decision_is_stable() {
    let f = PatternFilter::new(Some(r"\.go$")).unwrap();
    let first = f.matches("src/a.go");
    let second = f.matches("src/a.go");
    assert_eq!(first, second);
    assert!(first);
    let first = f.matches("src/a.txt");
    let second = f.matches("src/a.txt");
    assert_eq!(first, second);
    assert!(!first);
}

#[test]
fn no_pattern_accepts_every_line() {
    let f = no_filter();
    assert!(f.matches("a.txt"));
    assert!(f.matches("anything at all"));
    assert!(f.matches(""));
}

#[test]
fn bad_pattern_is_rejected_up_front() {
    let r = PatternFilter::new(Some("("));
    assert!(matches!(r, Err(FilterError::InvalidPattern(_))));
}

#[test]
fn duplicate_filters_decide_alike() {
    let f = PatternFilter::new(Some("^a")).unwrap();
    let g = f.duplicate();
    assert!(g.matches("abc"));
    assert!(!g.matches("bac"));
}

#[test]
fn default_plan_is_staged_and_unstaged() {
    let opt = Opt { last_commit: false, with_ancestor: false, changed_since: None };
    let plan = plan_queries("/repo", &opt, &no_filter());
    assert_eq!(plan.len(), 2);
    assert_eq!(plan[0].args, vec!["diff", "--cached", "--name-only"]);
    assert_eq!(
        plan[1].args,
        vec!["ls-files", "--other", "--modified", "--exclude-standard"]
    );
    assert_eq!(plan[0].cwd, "/repo");
    assert_eq!(plan[1].cwd, "/repo");
}

#[test]
fn last_commit_plans_one_extra_query() {
    let opt = Opt { last_commit: true, with_ancestor: false, changed_since: None };
    let plan = plan_queries("/repo", &opt, &no_filter());
    assert_eq!(plan.len(), 4);
    assert_eq!(
        plan[2].args,
        vec!["show", "--name-only", "--pretty=format:", "HEAD"]
    );
    assert_eq!(plan[3].args, vec!["diff", "--name-only", "HEAD^"]);
}

#[test]
fn since_reference_plans_three_queries() {
    let opt = Opt {
        last_commit: false,
        with_ancestor: false,
        changed_since: Some("main".to_string()),
    };
    let plan = plan_queries("/repo", &opt, &no_filter());
    assert_eq!(plan.len(), 3);
    assert_eq!(plan[2].args, vec!["diff", "--name-only", "main"]);
}

#[test]
fn with_ancestor_uses_merge_base_target() {
    let opt = Opt {
        last_commit: false,
        with_ancestor: true,
        changed_since: Some("main".to_string()),
    };
    let plan = plan_queries("/repo", &opt, &no_filter());
    assert_eq!(plan.len(), 3);
    assert_eq!(plan[2].args, vec!["diff", "--name-only", "main..."]);

    let opt = Opt { last_commit: false, with_ancestor: true, changed_since: None };
    let plan = plan_queries("/repo", &opt, &no_filter());
    assert_eq!(plan.len(), 3);
    assert_eq!(plan[2].args, vec!["diff", "--name-only", "HEAD^..."]);
}

#[test]
fn staged_and_unstaged_files_are_merged() {
    let staged = cmd_with("/work", no_filter());
    let unstaged = cmd_with("/work", no_filter());
    let (a, diag_a) = get_changed_and_filter(&staged, Ok("a.txt\n".to_string()));
    let (b, diag_b) = get_changed_and_filter(&unstaged, Ok("b.txt\n".to_string()));
    assert!(diag_a.is_none());
    assert!(diag_b.is_none());
    let merged = combine_unique(vec![a, b]);
    let line = present(merged, false, None);
    assert!(line == "/work/a.txt /work/b.txt" || line == "/work/b.txt /work/a.txt");
}

#[test]
fn filter_keeps_only_matching_lines() {
    let opt = Opt { last_commit: false, with_ancestor: false, changed_since: None };
    let filter = PatternFilter::new(Some(r"\.go$")).unwrap();
    let plan = plan_queries("/repo", &opt, &filter);
    let (paths, diag) = get_changed_and_filter(&plan[0], Ok("a.txt\nb.go\n".to_string()));
    assert!(diag.is_none());
    assert_eq!(paths, vec!["/repo/b.go".to_string()]);
}

#[test]
fn folder_mode_collapses_to_directory() {
    let line = present(vec!["/repo/src/a.go".to_string()], true, None);
    assert_eq!(line, "/repo/src/");
}

#[test]
fn collapsing_twice_equals_collapsing_once() {
    let once = collapse_to_dir("/repo/src/a.go");
    let twice = collapse_to_dir(&once);
    assert_eq!(once, twice);
    assert_eq!(once, "/repo/src/");
    let bare = collapse_to_dir("a.txt");
    assert_eq!(bare, "");
    assert_eq!(collapse_to_dir(&bare), "");
}

#[test]
fn command_prefix_is_prepended() {
    let line = present(vec!["/repo/a.js".to_string()], false, Some("eslint"));
    assert_eq!(line, "eslint /repo/a.js");
}

#[test]
fn prefix_is_kept_when_nothing_matched() {
    let line = present(Vec::new(), false, Some("eslint"));
    assert_eq!(line, "eslint ");
}

#[test]
fn failed_query_is_recorded_and_not_fatal() {
    let staged = cmd_with("/repo", no_filter());
    let unstaged = cmd_with("/repo", no_filter());
    let (a, diag_a) = get_changed_and_filter(&staged, Err("boom".to_string()));
    let (b, diag_b) = get_changed_and_filter(&unstaged, Ok("b.txt\n".to_string()));
    assert!(a.is_empty());
    assert_eq!(diag_a, Some("run error boom".to_string()));
    assert!(diag_b.is_none());
    let merged = combine_unique(vec![a, b]);
    assert_eq!(merged, vec!["/repo/b.txt".to_string()]);
}

#[test]
fn blank_lines_are_discarded() {
    let cmd = cmd_with("/repo", no_filter());
    let (paths, _) = get_changed_and_filter(&cmd, Ok("".to_string()));
    assert!(paths.is_empty());
    let (paths, _) = get_changed_and_filter(&cmd, Ok("a\n\nb\n".to_string()));
    assert_eq!(paths, vec!["/repo/a".to_string(), "/repo/b".to_string()]);
}

#[test]
fn joining_respects_existing_separators() {
    assert_eq!(join_path_exec("/repo", "a.txt"), "/repo/a.txt");
    assert_eq!(join_path_exec("/repo/", "a.txt"), "/repo/a.txt");
    assert_eq!(join_path_exec("/repo", "/abs/a.txt"), "/abs/a.txt");
}

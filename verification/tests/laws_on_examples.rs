use gitscope::dispatch::handle_key;
use gitscope::gists::{extract_gist_id, format_gists_lines, GistSummary};
use gitscope::graph::CommitInfo;
use gitscope::issue_views::{format_issues_lines, IssueSummary};
use gitscope::issues::{
    apply_issues_filter, get_label_current_token, issue_number_for_detail, issue_number_in_line,
    replace_label_current_token,
};
use gitscope::keys::Key;
use gitscope::keys::{open_diff, open_files};
use gitscope::load::{branch_list, compute_lanes, count_authors, finish_refresh, load_window, GitSnapshot};
use gitscope::state::AppMode;
use gitscope::report::open_report;
use gitscope::repos::{sort_by_name, sort_names};
use gitscope::state::{AppState, RepoEntry};

fn commit(hash: &str, parents: &[&str], author: &str, date: &str) -> CommitInfo {
    CommitInfo {
        hash: hash.to_string(),
        parents: parents.iter().map(|p| p.to_string()).collect(),
        author: author.to_string(),
        date: date.to_string(),
        subject: format!("subject of {hash}"),
    }
}

fn history() -> Vec<CommitInfo> {
    vec![
        commit("dddddddd11", &["cccccccc11"], "Cid", "2024-03-04T10:00:00+00:00"),
        commit("cccccccc11", &["bbbbbbbb11"], "Ann", "2024-03-03T10:00:00+00:00"),
        commit("bbbbbbbb11", &["aaaaaaaa11"], "Cid", "2024-02-01T08:00:00+00:00"),
        commit("aaaaaaaa11", &[], "Ann", "2024-01-01T07:00:00+00:00"),
        commit("eeeeeeee11", &["aaaaaaaa11"], "Bob", "2023-12-01T07:00:00+00:00"),
    ]
}

fn loaded() -> AppState {
    let mut app = AppState::new(30, false, String::new(), None);
    let snap = GitSnapshot {
        repo_name: "demo".to_string(),
        current_branch: "main".to_string(),
        head_hash: "dddddddd11".to_string(),
        branches: vec![("main".to_string(), "dddddddd11".to_string())],
        total: 5,
        commits: history(),
    };
    load_window(&mut app, snap);
    finish_refresh(&mut app);
    app
}

#[test]
fn each_author_once_with_their_commits() {
    let a = count_authors(&history());
    assert_eq!(a.len(), 3);
    assert_eq!(a[0].1, 2);
    assert_eq!(a[1].1, 2);
    assert_eq!(a[2], ("Bob".to_string(), 1));
    let names: Vec<&str> = a.iter().map(|(n, _)| n.as_str()).collect();
    assert!(names.contains(&"Ann") && names.contains(&"Cid"));
}

#[test]
fn branches_come_ordered_by_name() {
    let pairs = vec![
        ("zeta".to_string(), "1".to_string()),
        ("alpha".to_string(), "2".to_string()),
        ("main".to_string(), "3".to_string()),
    ];
    let b = branch_list(&pairs);
    let names: Vec<&str> = b.iter().map(|x| x.name.as_str()).collect();
    assert_eq!(names, vec!["alpha", "main", "zeta"]);
}

#[test]
fn names_and_scanned_repositories_come_ordered() {
    let v: Vec<String> = ["b", "a", "c", "a"].iter().map(|s| s.to_string()).collect();
    assert_eq!(sort_names(&v), vec!["a", "a", "b", "c"]);
    let e = |n: &str| RepoEntry { path: format!("/w/{n}"), name: n.to_string(), commit_count: 1, error: None };
    let r = sort_by_name(&vec![e("web"), e("api"), e("cli")]);
    let names: Vec<&str> = r.iter().map(|x| x.name.as_str()).collect();
    assert_eq!(names, vec!["api", "cli", "web"]);
}

#[test]
fn toggling_metadata_twice_draws_the_same_tree() {
    let mut app = loaded();
    let before: Vec<String> = app.render_lines.iter().map(|r| r.content.clone()).collect();
    handle_key(&mut app, Key::Char('m'), false);
    assert!(app.render_lines.len() > before.len());
    handle_key(&mut app, Key::Char('m'), false);
    let after: Vec<String> = app.render_lines.iter().map(|r| r.content.clone()).collect();
    assert_eq!(before, after);
    handle_key(&mut app, Key::Char('c'), false);
    handle_key(&mut app, Key::Char('c'), false);
    let again: Vec<String> = app.render_lines.iter().map(|r| r.content.clone()).collect();
    assert_eq!(before, again);
}

#[test]
fn the_tree_shows_only_commits_that_pass_the_filter() {
    let mut app = loaded();
    app.filter_text = "cid".to_string();
    finish_refresh(&mut app);
    let shown: Vec<usize> = app.render_lines.iter().filter_map(|r| r.commit_idx).collect();
    assert_eq!(shown, vec![0, 2]);
}

#[test]
fn a_picked_label_becomes_the_current_token() {
    for input in ["bug, fe", "fe", "a,b,", ""] {
        let r = replace_label_current_token(input, "feature");
        assert_eq!(get_label_current_token(&r), "feature");
    }
    assert_eq!(replace_label_current_token("a,b, x", "y"), "a,b, y");
}

#[test]
fn filtering_keeps_the_header_lines() {
    let mut a = AppState::new(30, false, String::new(), None);
    let issues = vec![
        IssueSummary { number: 3, title: "Alpha".to_string(), user: "u".to_string(), open: true, assignee: None, labels: vec![] },
        IssueSummary { number: 9, title: "Beta".to_string(), user: "u".to_string(), open: true, assignee: None, labels: vec![] },
    ];
    format_issues_lines(&mut a, &issues, "o", "r");
    let header = a.issues_lines[..2].to_vec();
    a.issues_filter_text = "nothing matches this".to_string();
    apply_issues_filter(&mut a);
    assert_eq!(a.issues_lines, header);
    a.issues_filter_text = String::new();
    apply_issues_filter(&mut a);
    assert_eq!(a.issues_lines, a.issues_lines_full);
}

#[test]
fn an_issue_line_names_its_issue() {
    let mut a = AppState::new(30, false, String::new(), None);
    let issues = vec![
        IssueSummary { number: 42, title: "Fix #7".to_string(), user: "u".to_string(), open: false, assignee: None, labels: vec![] },
        IssueSummary { number: 1005, title: "x".to_string(), user: "u".to_string(), open: true, assignee: Some("v".to_string()), labels: vec![] },
    ];
    format_issues_lines(&mut a, &issues, "o", "r");
    let lines: Vec<&String> = a.issues_lines.iter().filter(|l| l.contains("by ")).collect();
    assert_eq!(lines.len(), 2);
    assert_eq!(issue_number_for_detail(lines[0]), Some(42));
    assert_eq!(issue_number_in_line(lines[0]), 42);
    assert_eq!(issue_number_for_detail(lines[1]), Some(1005));
    assert_eq!(issue_number_in_line(lines[1]), 1005);
}

#[test]
fn report_by_date_puts_later_days_first() {
    let mut a = AppState::new(30, false, String::new(), None);
    a.report_sort = "date".to_string();
    let raw = "a@x|2024-01-01|s\nold.rs\n\nb@x|2024-03-01|s\nnew.rs\n\na@x|2024-02-01|s\nmid.rs\n";
    open_report(&mut a, Some(raw.to_string()));
    let files: Vec<&String> = a.report_lines.iter().filter(|l| l.contains(".rs")).collect();
    assert_eq!(files.len(), 3);
    assert!(files[0].contains("new.rs") && files[1].contains("mid.rs") && files[2].contains("old.rs"));
}

#[test]
fn the_details_line_of_a_gist_gives_its_id() {
    let mut a = AppState::new(30, false, String::new(), None);
    let g = |id: &str, owner: &str| GistSummary {
        id: Some(id.to_string()),
        description: Some("id: not this one".to_string()),
        public: Some(true),
        html_url: None,
        owner: Some(owner.to_string()),
        created_at: Some("2024-01-02T03:04:05Z".to_string()),
        updated_at: Some("2024-02-03T04:05:06Z".to_string()),
        comments: Some(12),
        files: vec![],
    };
    format_gists_lines(&mut a, Some(vec![g("aa11", "octo-cat"), g("bb22", "hubot")]));
    let details: Vec<usize> = (0..a.gists_lines.len()).filter(|&i| a.gists_lines[i].contains("comments: ")).collect();
    assert_eq!(details.len(), 2);
    assert_eq!(extract_gist_id(&a.gists_lines, details[0]), Some("aa11".to_string()));
    assert_eq!(extract_gist_id(&a.gists_lines, details[1]), Some("bb22".to_string()));
}

#[test]
fn lanes_and_commit_texts() {
    let mut app = loaded();
    let lanes = app.lanes.clone();
    app.lanes.clear();
    compute_lanes(&mut app);
    assert_eq!(app.lanes, lanes);
    assert_eq!(app.nlanes, app.max_lane + 1);
    open_diff(&mut app, 0, Some("commit d\n+x".to_string()));
    assert_eq!(app.mode, AppMode::Diff);
    assert_eq!(app.diff_lines, vec!["commit d".to_string(), "+x".to_string()]);
    open_files(&mut app, 9, None);
    assert_eq!(app.mode, AppMode::Diff);
    open_files(&mut app, 1, None);
    assert_eq!(app.mode, AppMode::Files);
    assert_eq!(app.files_lines, vec!["  Failed to load files".to_string()]);
}

#[test]
fn a_spaced_suggestion_is_read_back_trimmed() {
    let r = replace_label_current_token("bug, fe", "  feature ");
    assert_eq!(r, "bug,   feature ");
    assert_eq!(get_label_current_token(&r), "feature");
    assert!(r.starts_with("bug,"));
}

#[test]
fn truncating_again_changes_nothing() {
    let s = "\x1b[31mred\x1b[0m and \x1bplain text";
    for n in 0..12 {
        let t = gitscope::ansi::truncate_vis(s, n);
        for m in n..14 {
            assert_eq!(gitscope::ansi::truncate_vis(&t, m), t);
        }
    }
    let s = "\x1b[1mbold\x1b[0m tail";
    let t = gitscope::ansi::truncate_vis(s, 6);
    assert!(s.starts_with(&t));
    assert_eq!(gitscope::ansi::strip_ansi(&t), "bold t");
}

#[test]
fn styled_runs_hold_the_stripped_text() {
    let s = "a\x1b[31mred\x1b[0m\x1b[1m\x1b[2mx y";
    let runs = gitscope::styled::ansi_to_runs(s);
    let joined: String = runs.iter().map(|r| r.text.as_str()).collect();
    assert_eq!(joined, gitscope::ansi::strip_ansi(s));
    assert!(runs.iter().all(|r| !r.text.is_empty()));
    assert_eq!(runs.len(), 3);
}

#[test]
fn later_timestamps_give_later_dates() {
    let stamps = [0i64, 59, 60, 3599, 3600, 86399, 86400, 951782399, 951782400, 1700000000];
    for w in stamps.windows(2) {
        assert!(gitscope::date::secs_to_ymdhm(w[0]) <= gitscope::date::secs_to_ymdhm(w[1]));
    }
}

#[test]
fn lanes_stay_below_each_commit_position() {
    let cs = vec![
        commit("m", &["p1", "p2"], "A", "2024-01-01T00:00:00+00:00"),
        commit("p2", &["base"], "A", "2024-01-01T00:00:00+00:00"),
        commit("p1", &["base"], "A", "2024-01-01T00:00:00+00:00"),
        commit("base", &[], "A", "2024-01-01T00:00:00+00:00"),
    ];
    let l = gitscope::graph::lane_layout(&cs);
    for (i, ln) in l.lanes.iter().enumerate() {
        assert!(*ln <= i);
    }
    assert_eq!(l.max_lane, *l.lanes.iter().max().unwrap());
    assert_eq!(l.occupied.len(), l.nlanes);
}

#[test]
fn gist_id_comes_from_above_the_cursor() {
    let lines: Vec<String> = vec!["title".to_string(), "  id: abc".to_string(), "body".to_string(), "  id: zzz".to_string()];
    assert_eq!(extract_gist_id(&lines, 2), Some("abc".to_string()));
    assert_eq!(extract_gist_id(&lines, 0), None);
    assert_eq!(extract_gist_id(&lines, 3), Some("zzz".to_string()));
}

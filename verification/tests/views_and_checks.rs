use gitscope::dispatch::key_ok_exec;
use gitscope::gists::{gists_ready_exec, show_gists_failure, GistSummary, GistsFailure};
use gitscope::graph::CommitInfo;
use gitscope::keys::Key;
use gitscope::nav::{headed_window, list_window, plain_window};
use gitscope::render::{commit_ready_exec, data_ready_exec, lines_point_in_exec};
use gitscope::report::{report_filter_lines, report_filter_ready_exec};
use gitscope::state::{AppMode, AppState, RenderLine, RepoEntry};
use gitscope::text::{byte_len_checked, chars_of, prefix_at};
use gitscope::views::{diff_line_text, files_line_text, repo_line_text, repos_add_lines, repos_empty_lines, repos_header_lines};

const RST: &str = "\x1b[0m";
const BLD: &str = "\x1b[1m";
const DIM: &str = "\x1b[2m";
const LGR: &str = "\x1b[92m";
const LRE: &str = "\x1b[91m";
const CYN: &str = "\x1b[36m";
const GRY: &str = "\x1b[90m";
const LYL: &str = "\x1b[93m";

fn app() -> AppState {
    AppState::new(30, false, String::new(), None)
}

#[test]
fn diff_lines_are_coloured_by_kind() {
    assert_eq!(diff_line_text("diff --git a/x b/x"), format!("{BLD}{LGR}diff --git a/x b/x"));
    assert_eq!(diff_line_text("@@ -1 +1 @@"), format!("{BLD}{CYN}@@ -1 +1 @@"));
    assert_eq!(diff_line_text("+added"), format!("{LGR}+added{RST}"));
    assert_eq!(diff_line_text("+++ b/x"), "+++ b/x".to_string());
    assert_eq!(diff_line_text("-gone"), format!("{LRE}-gone{RST}"));
    assert_eq!(diff_line_text("--- a/x"), "--- a/x".to_string());
    assert_eq!(diff_line_text("a + b"), format!("{LGR}a + b{RST}"));
    assert_eq!(diff_line_text("plain"), "plain".to_string());
}

#[test]
fn file_lines_are_dimmed_or_bold() {
    assert_eq!(files_line_text(" src/a.rs │ 3 ++-"), format!("  {DIM} src/a.rs │ 3 ++-{RST}"));
    assert_eq!(files_line_text(" 1 file changed, 2 insertions(+)"), format!("{BLD} 1 file changed, 2 insertions(+){RST}"));
    assert_eq!(files_line_text(" 3 files changed"), format!("{BLD} 3 files changed{RST}"));
    assert_eq!(files_line_text("other"), "  other".to_string());
}

#[test]
fn repository_rows() {
    let ok = RepoEntry { path: "/w/a".to_string(), name: "a".to_string(), commit_count: 12, error: None };
    assert_eq!(
        repo_line_text(&ok, true),
        format!("{LYL}▸{RST} {LGR}●{RST} {BLD}a{RST}  {DIM}/w/a{RST}  {GRY}· 12 commits{RST}")
    );
    let bad = RepoEntry {
        path: "/w/b".to_string(),
        name: "b".to_string(),
        commit_count: 0,
        error: Some("Not a git repository".to_string()),
    };
    assert_eq!(
        repo_line_text(&bad, false),
        format!("  {LRE}○{RST} {BLD}b{RST}  {DIM}/w/b{RST}  {LRE}[Not a git repository]{RST}")
    );
    assert_eq!(repos_header_lines(2)[0], format!("  {BLD}Registered Repositories{RST}   {DIM}(2 total){RST}"));
    assert_eq!(repos_empty_lines().len(), 2);
    let add = repos_add_lines("/tmp", 8);
    assert_eq!(add.len(), 8);
    assert_eq!(add[3], format!("  {BLD}Path:{RST} /tmp█"));
    assert_eq!(repos_add_lines("", 2).len(), 6);
}

#[test]
fn the_down_marker_counts_as_the_views_do() {
    let w = list_window(20, 5, None, 3);
    assert_eq!((w.first, w.end, w.above, w.below), (3, 7, 3, 13));
    assert_eq!(w.more_below, 12);
    let top = list_window(20, 5, None, 0);
    assert_eq!((top.end, top.more_below), (5, 15));
    let all = list_window(3, 5, None, 0);
    assert_eq!(all.more_below, 0);
    assert_eq!(plain_window(20, 5, 100), (15, 20));
    assert_eq!(plain_window(3, 5, 2), (0, 3));
    assert_eq!(plain_window(20, 5, 4), (4, 9));
    let h = headed_window(20, 10, Some(0), 0, 2);
    assert_eq!((h.first, h.end, h.more_below), (0, 8, 10));
    let h = headed_window(20, 10, Some(15), 0, 2);
    assert_eq!((h.first, h.end, h.above, h.more_below), (6, 13, 6, 4));
    let h = headed_window(0, 10, Some(0), 0, 2);
    assert_eq!((h.first, h.end, h.more_below), (0, 0, 0));
}

#[test]
fn email_filter_overlay_highlights_the_match() {
    let mut a = app();
    a.mode = AppMode::ReportFilter;
    a.report_email_input = "li".to_string();
    a.report_ac_list = vec!["alice@x.org".to_string(), "Li@y.org".to_string()];
    a.report_ac_idx = 1;
    assert!(report_filter_ready_exec(&a));
    let l = report_filter_lines(&a);
    assert_eq!(l[0], format!("  {BLD}{LGR}li{RST}{DIM}█ Esc to cancel  Tab to select{RST}"));
    assert_eq!(l[1], format!("  {DIM}2 match(es){RST}"));
    assert_eq!(l[2], format!("    {DIM}a{RST}{BLD}{LGR}li"));
    assert_eq!(l[3], format!("{DIM}ce@x.org{RST}"));
    assert_eq!(l[4], format!("  {BLD}{LGR}▸{RST} {DIM}{RST}{BLD}{LGR}Li"));
    assert_eq!(l[5], format!("{DIM}@y.org{RST}"));
    assert_eq!(l.len(), 6);
}

#[test]
fn email_filter_overlay_without_suggestions() {
    let mut a = app();
    assert!(report_filter_lines(&a).is_empty());
    a.mode = AppMode::ReportFilter;
    assert_eq!(report_filter_lines(&a).len(), 1);
    a.report_email_input = "zz".to_string();
    let l = report_filter_lines(&a);
    assert_eq!(l[1], format!("  {DIM}  no matches{RST}"));
}

#[test]
fn email_filter_overlay_refuses_a_cut_inside_a_character() {
    let mut a = app();
    a.mode = AppMode::ReportFilter;
    a.report_email_input = "é".to_string();
    a.report_ac_list = vec!["e".to_string()];
    assert!(!report_filter_ready_exec(&a));
    a.report_email_input = "x".to_string();
    a.report_ac_list = vec!["İx".to_string()];
    assert!(!report_filter_ready_exec(&a));
    a.report_ac_list = vec!["éx".to_string()];
    assert!(report_filter_ready_exec(&a));
}

#[test]
fn byte_prefixes() {
    let v = chars_of("aé b");
    assert_eq!(byte_len_checked(&v), Some(5));
    assert_eq!(prefix_at(&v, 3).map(|x| x.into_iter().collect::<String>()), Some("aé".to_string()));
    assert_eq!(prefix_at(&v, 2), None);
    assert_eq!(prefix_at(&v, 9), None);
    assert_eq!(prefix_at(&v, 0), Some(vec![]));
}

fn commit(hash: &str, date: &str) -> CommitInfo {
    CommitInfo {
        hash: hash.to_string(),
        parents: vec![],
        author: "a".to_string(),
        date: date.to_string(),
        subject: "s".to_string(),
    }
}

#[test]
fn drawable_commits_and_data() {
    assert!(commit_ready_exec(&commit("0123456789", "2024-01-02T03:04:05+00:00")));
    assert!(!commit_ready_exec(&commit("0123456789", "2024-01-02")));
    assert!(!commit_ready_exec(&commit("012345ééé", "2024-01-02T03:04:05+00:00")));
    let mut a = app();
    assert!(data_ready_exec(&a));
    a.commits = vec![commit("0123456789", "2024-01-02T03:04:05+00:00")];
    assert!(!data_ready_exec(&a));
    a.lanes = vec![0];
    assert!(data_ready_exec(&a));
    a.render_lines = vec![RenderLine { content: "x".to_string(), commit_idx: Some(1) }];
    assert!(!lines_point_in_exec(&a));
    a.render_lines = vec![RenderLine { content: "x".to_string(), commit_idx: Some(0) }];
    assert!(lines_point_in_exec(&a));
}

#[test]
fn keys_that_the_views_can_take() {
    let mut a = app();
    assert!(key_ok_exec(&a, Key::Char('j')));
    a.cursor = isize::MAX;
    assert!(!key_ok_exec(&a, Key::Char('j')));
    assert!(!key_ok_exec(&a, Key::Char('J')));
    a.mode = AppMode::Diff;
    a.diff_scroll = usize::MAX;
    assert!(!key_ok_exec(&a, Key::Down));
    assert!(key_ok_exec(&a, Key::Up));
    a.mode = AppMode::IssueCreate;
    assert!(key_ok_exec(&a, Key::Char('x')));
}

#[test]
fn gist_failures_and_checks() {
    let mut a = app();
    show_gists_failure(&mut a, GistsFailure::Fetch("boom".to_string()));
    assert_eq!(a.mode, AppMode::Gists);
    assert_eq!(a.gists_lines, vec![format!("  {LRE}Error fetching gists: boom{RST}")]);
    show_gists_failure(&mut a, GistsFailure::NoToken);
    assert_eq!(a.gists_lines.len(), 1);
    assert!(a.gists_lines[0].contains("GitHub token required to list gists.") && a.gists_lines[0].contains('\n'));
    let g = GistSummary {
        id: Some("abc".to_string()),
        description: Some("é".repeat(40)),
        public: Some(true),
        html_url: None,
        owner: None,
        created_at: Some("2024-01-01T00:00:00Z".to_string()),
        updated_at: None,
        comments: None,
        files: vec![],
    };
    assert!(gists_ready_exec(&None, 80));
    assert!(gists_ready_exec(&Some(vec![]), 80));
    assert!(!gists_ready_exec(&Some(vec![g]), 80));
}

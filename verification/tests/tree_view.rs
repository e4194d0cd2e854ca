use gitscope::dispatch::handle_key;
use gitscope::graph::{build_desc_set, lane_layout, needed_after, CommitInfo};
use gitscope::keys::{after_hash_copied, apply_last_week, show_commit_text, Action, CommitText, Key};
use gitscope::load::{count_authors, branch_list, finish_refresh, load_failed, load_window, GitSnapshot};
use gitscope::pattern::regex_matches_exec;
use gitscope::nav::{list_window, move_down, move_up};
use gitscope::render::{compute_tree_w, find_commit};
use gitscope::sidebar::build_sidebar;
use gitscope::state::{AppMode, AppState};
use gitscope::styled::TermColor;

fn commit(hash: &str, parents: &[&str], author: &str, date: &str, subject: &str) -> CommitInfo {
    CommitInfo {
        hash: hash.to_string(),
        parents: parents.iter().map(|p| p.to_string()).collect(),
        author: author.to_string(),
        date: date.to_string(),
        subject: subject.to_string(),
    }
}

fn history() -> Vec<CommitInfo> {
    vec![
        commit("cccccccc11", &["bbbbbbbb11"], "Ann", "2024-03-03T10:00:00+00:00", "third"),
        commit("xxxxxxxx11", &["aaaaaaaa11"], "Bob", "2024-03-02T09:00:00+00:00", "side"),
        commit("bbbbbbbb11", &["aaaaaaaa11"], "Ann", "2024-02-01T08:00:00+00:00", "second"),
        commit("aaaaaaaa11", &[], "Cid", "2024-01-01T07:00:00+00:00", "first"),
    ]
}

fn loaded() -> AppState {
    let mut app = AppState::new(30, false, String::new(), Some("xclip -selection clipboard".to_string()));
    let snap = GitSnapshot {
        repo_name: "demo".to_string(),
        current_branch: "main".to_string(),
        head_hash: "cccccccc11".to_string(),
        branches: vec![
            ("main".to_string(), "cccccccc11".to_string()),
            ("feature".to_string(), "xxxxxxxx11".to_string()),
        ],
        total: 4,
        commits: history(),
    };
    load_window(&mut app, snap);
    finish_refresh(&mut app);
    app
}

#[test]
fn descendants_of_a_commit() {
    let cs = history();
    let mut d = build_desc_set(&cs, &"bbbbbbbb11".to_string());
    d.sort();
    assert_eq!(d, vec!["bbbbbbbb11".to_string(), "cccccccc11".to_string()]);
    let mut all = build_desc_set(&cs, &"aaaaaaaa11".to_string());
    all.sort();
    assert_eq!(all.len(), 4);
}

#[test]
fn lanes_of_a_linear_history() {
    let cs = vec![
        commit("c", &["b"], "A", "d", "s"),
        commit("b", &["a"], "A", "d", "s"),
        commit("a", &[], "A", "d", "s"),
    ];
    let l = lane_layout(&cs);
    // A commit keeps its own lane while it is placed, so its parent takes the
    // next one; the lane is free again for the commit after.
    assert_eq!(l.lanes, vec![0, 1, 0]);
    assert_eq!(l.nlanes, 2);
}

#[test]
fn lanes_of_a_merge() {
    let cs = vec![
        commit("m", &["p1", "p2"], "A", "d", "s"),
        commit("p2", &["base"], "A", "d", "s"),
        commit("p1", &["base"], "A", "d", "s"),
        commit("base", &[], "A", "d", "s"),
    ];
    let l = lane_layout(&cs);
    assert_eq!(l.lanes, vec![0, 1, 0, 1]);
    assert_eq!(l.max_lane, 1);
    assert_eq!(l.nlanes, 2);
    // Every lane is below the lane count, and the count is at most the number of commits.
    assert!(l.lanes.iter().all(|&x| x < l.nlanes));
    assert!(l.nlanes <= cs.len());
}

#[test]
fn a_parent_is_needed_while_a_later_commit_names_it() {
    let cs = history();
    assert!(needed_after(&cs, 0, &"aaaaaaaa11".to_string()));
    assert!(!needed_after(&cs, 2, &"aaaaaaaa11".to_string()));
}

#[test]
fn authors_by_number_of_commits() {
    let a = count_authors(&history());
    assert_eq!(a, vec![("Ann".to_string(), 2), ("Bob".to_string(), 1), ("Cid".to_string(), 1)]);
}

#[test]
fn branches_by_name_with_colours() {
    let b = branch_list(&vec![("zeta".to_string(), "1".to_string()), ("alpha".to_string(), "2".to_string())]);
    assert_eq!(b[0].name, "alpha");
    assert_eq!(b[0].head_oid, "2");
    assert_eq!(b[0].color, TermColor::Green);
    assert_eq!(b[1].name, "zeta");
    assert_eq!(b[1].color, TermColor::LightCyan);
}

#[test]
fn loading_draws_one_line_per_commit() {
    let app = loaded();
    assert_eq!(app.render_lines.len(), 4);
    assert_eq!(app.render_lines[0].commit_idx, Some(0));
    assert_eq!(app.render_lines[3].commit_idx, Some(3));
    assert!(app.render_lines[0].content.contains("ccccccc"));
    assert!(app.render_lines[0].content.contains("third"));
    assert!(!app.refresh);
    assert_eq!(app.authors.len(), 3);
    assert_eq!(app.branches[0].name, "feature");
}

#[test]
fn loading_fails_outside_a_repository() {
    let mut app = loaded();
    load_failed(&mut app);
    assert!(app.commits.is_empty() && app.branches.is_empty() && app.lanes.is_empty());
    assert_eq!(app.repo_name, "not a git repo");
    assert_eq!(app.nlanes, 1);
}

#[test]
fn cursor_moves_over_commits() {
    let mut app = loaded();
    assert!(matches!(handle_key(&mut app, Key::Char('j'), false), Action::Nothing));
    assert_eq!(app.cursor, 1);
    handle_key(&mut app, Key::Char('G'), false);
    assert_eq!(app.cursor, 3);
    handle_key(&mut app, Key::Char('k'), false);
    assert_eq!(app.cursor, 2);
    handle_key(&mut app, Key::Char('g'), false);
    assert_eq!(app.cursor, 0);
    handle_key(&mut app, Key::Char('J'), false);
    assert_eq!(app.cursor, 3);
    handle_key(&mut app, Key::Char('K'), false);
    assert_eq!(app.cursor, 0);
}

#[test]
fn zooming_into_descendants_and_back() {
    let mut app = loaded();
    app.cursor = 2; // "second"
    handle_key(&mut app, Key::Enter, false);
    assert_eq!(app.descendant_filter, "bbbbbbbb11");
    assert_eq!(app.cursor, 0);
    assert_eq!(app.render_lines.len(), 2);
    handle_key(&mut app, Key::Esc, false);
    assert!(app.descendant_filter.is_empty());
    assert!(app.descendant_set.is_empty());
    assert_eq!(app.render_lines.len(), 4);
}

#[test]
fn reset_key_clears_the_zoom_too() {
    let mut app = loaded();
    app.cursor = 2;
    handle_key(&mut app, Key::Enter, false);
    assert_eq!(app.descendant_set.len(), 2);
    handle_key(&mut app, Key::Char('0'), false);
    assert!(app.descendant_filter.is_empty());
    assert!(app.descendant_set.is_empty());
    assert!(app.refresh);
}

#[test]
fn no_descendants_without_a_root() {
    assert!(build_desc_set(&history(), &String::new()).is_empty());
}

#[test]
fn help_view_keys() {
    let mut app = loaded();
    handle_key(&mut app, Key::Char('?'), false);
    assert_eq!(app.mode, AppMode::Help);
    handle_key(&mut app, Key::Char('x'), false);
    assert_eq!(app.mode, AppMode::Help);
    handle_key(&mut app, Key::Char('?'), false);
    assert_eq!(app.mode, AppMode::Tree);
    handle_key(&mut app, Key::Char('?'), false);
    assert!(matches!(handle_key(&mut app, Key::Char('q'), false), Action::Nothing));
    assert_eq!(app.mode, AppMode::Tree);
    handle_key(&mut app, Key::Char('?'), false);
    handle_key(&mut app, Key::Esc, false);
    assert_eq!(app.mode, AppMode::Tree);
}

#[test]
fn loading_keeps_the_window_of_count_commits() {
    let mut app = AppState::new(30, false, String::new(), None);
    app.count = 2;
    let snap = GitSnapshot {
        repo_name: "demo".to_string(),
        current_branch: "main".to_string(),
        head_hash: "cccccccc11".to_string(),
        branches: vec![],
        total: 4,
        commits: history(),
    };
    load_window(&mut app, snap);
    assert_eq!(app.commits.len(), 2);
    assert_eq!(app.commits[1].hash, "xxxxxxxx11");
    assert_eq!(app.lanes.len(), 2);
    assert_eq!(app.authors.iter().map(|a| a.1).sum::<usize>(), 2);
}

#[test]
fn commits_found_by_hash() {
    let app = loaded();
    assert_eq!(find_commit(&app.commits, &"bbbbbbbb11".to_string()), Some(2));
    assert_eq!(find_commit(&app.commits, &"zzzz".to_string()), None);
}

#[test]
fn meta_lines_and_toggles() {
    let mut app = loaded();
    handle_key(&mut app, Key::Char('m'), false);
    assert!(app.show_meta);
    assert_eq!(app.render_lines.len(), 8);
    handle_key(&mut app, Key::Char('+'), false);
    assert_eq!(app.count, 40);
    assert!(app.refresh);
    app.count = 195;
    handle_key(&mut app, Key::Char('+'), false);
    assert_eq!(app.count, 200);
    app.count = 10;
    app.refresh = false;
    handle_key(&mut app, Key::Char('-'), false);
    assert_eq!(app.count, 10);
    assert!(!app.refresh);
}

#[test]
fn tree_keys_leave_work_to_the_caller() {
    let mut app = loaded();
    app.cursor = 1;
    assert!(matches!(handle_key(&mut app, Key::Char('d'), false), Action::OpenDiff(1)));
    assert!(matches!(handle_key(&mut app, Key::Char('f'), false), Action::OpenFiles(1)));
    assert!(matches!(handle_key(&mut app, Key::Char('y'), false), Action::CopyCommitHash(1)));
    assert!(matches!(handle_key(&mut app, Key::Char('R'), false), Action::OpenReport));
    assert!(matches!(handle_key(&mut app, Key::Char('q'), false), Action::Quit));
    assert!(matches!(handle_key(&mut app, Key::Char('c'), true), Action::Quit));
    app.clipboard_cmd = None;
    assert!(matches!(handle_key(&mut app, Key::Char('y'), false), Action::Nothing));
    assert_eq!(app.msg, "No clipboard tool found");
}

#[test]
fn hash_copy_message() {
    let mut app = loaded();
    after_hash_copied(&mut app, 0, true);
    assert_eq!(app.msg, "Copied ccccccc to clipboard");
    let mut app = loaded();
    after_hash_copied(&mut app, 0, false);
    assert!(app.msg.is_empty());
}

#[test]
fn date_filter_of_the_last_week() {
    let mut app = loaded();
    assert!(matches!(handle_key(&mut app, Key::Char('D'), false), Action::LastWeekDates));
    apply_last_week(&mut app, "2024-03-03".to_string(), "2024-02-25".to_string());
    assert_eq!(app.date_from, "2024-02-25");
    assert_eq!(app.date_to, "2024-03-03");
    assert_eq!(app.msg, "Last 7 days: 2024-02-25 → 2024-03-03");
    assert_eq!(app.render_lines.len(), 2);
    handle_key(&mut app, Key::Char('D'), false);
    assert_eq!(app.msg, "Date filter cleared");
    assert_eq!(app.render_lines.len(), 4);
}

#[test]
fn typing_a_tree_filter() {
    let mut app = loaded();
    handle_key(&mut app, Key::Char('/'), false);
    assert_eq!(app.mode, AppMode::TreeFilter);
    handle_key(&mut app, Key::Char('S'), false);
    handle_key(&mut app, Key::Char('e'), false);
    assert_eq!(app.filter_text, "Se");
    assert_eq!(app.render_lines.len(), 1); // "second", matched in lower case
    handle_key(&mut app, Key::Backspace, false);
    assert_eq!(app.filter_input, "S");
    assert_eq!(app.render_lines.len(), 3); // "side", "second", "first"
    handle_key(&mut app, Key::Esc, false);
    assert_eq!(app.mode, AppMode::Tree);
    assert!(app.filter_text.is_empty());
}

#[test]
fn tree_filter_is_a_pattern() {
    let mut app = loaded();
    handle_key(&mut app, Key::Char('/'), false);
    for c in "^s.*d".chars() {
        handle_key(&mut app, Key::Char(c), false);
    }
    assert_eq!(app.render_lines.len(), 2); // "side", "second"
    handle_key(&mut app, Key::Esc, false);
    handle_key(&mut app, Key::Char('/'), false);
    for c in "t+h".chars() {
        handle_key(&mut app, Key::Char(c), false);
    }
    assert_eq!(app.render_lines.len(), 1); // "third"
    handle_key(&mut app, Key::Esc, false);
    handle_key(&mut app, Key::Char('/'), false);
    for c in "(ird|ide)$".chars() {
        handle_key(&mut app, Key::Char(c), false);
    }
    assert_eq!(app.render_lines.len(), 2); // "third", "side"
}

#[test]
fn branch_sidebar_keys() {
    let mut app = loaded();
    handle_key(&mut app, Key::Char('b'), false);
    assert_eq!(app.mode, AppMode::SidebarFocus);
    handle_key(&mut app, Key::Char('j'), false);
    handle_key(&mut app, Key::Char('j'), false);
    assert_eq!(app.branch_idx, 1);
    handle_key(&mut app, Key::Enter, false);
    assert_eq!(app.branch_filter, "main");
    assert!(app.refresh);
    assert_eq!(app.mode, AppMode::Tree);
}

#[test]
fn diff_view_text_and_scrolling() {
    let mut app = loaded();
    show_commit_text(&mut app, 1, CommitText::Diff, Some("line one\r\nline two\n".to_string()));
    assert_eq!(app.mode, AppMode::Diff);
    assert_eq!(app.diff_lines, vec!["line one".to_string(), "line two".to_string()]);
    handle_key(&mut app, Key::Char('J'), false);
    assert_eq!(app.diff_scroll, 5);
    handle_key(&mut app, Key::Char('k'), false);
    assert_eq!(app.diff_scroll, 4);
    handle_key(&mut app, Key::Esc, false);
    assert_eq!(app.mode, AppMode::Tree);
    show_commit_text(&mut app, 9, CommitText::Files, None);
    assert_eq!(app.mode, AppMode::Tree);
    show_commit_text(&mut app, 0, CommitText::Files, None);
    assert_eq!(app.files_lines, vec!["  Failed to load files".to_string()]);
}

#[test]
fn list_cursor_stays_in_view() {
    let (c, s) = move_down(0, 0, 10, 3, 1);
    assert_eq!((c, s), (1, 0));
    let (c, s) = move_down(2, 0, 10, 3, 1);
    assert_eq!((c, s), (3, 1));
    assert!(c >= s && c < s + 3);
    let (c, s) = move_down(8, 5, 10, 3, 5);
    assert_eq!((c, s), (9, 7));
    let (c, s) = move_up(3, 3, 5);
    assert_eq!((c, s), (0, 0));
}

#[test]
fn list_window_fits_the_rows() {
    let w = list_window(100, 10, Some(50), 0);
    assert_eq!((w.scroll, w.first, w.end, w.above, w.below), (41, 41, 50, 41, 50));
    assert!(w.end - w.first + 1 <= 10);
    assert_eq!(w.above + (w.end - w.first) + w.below, 100);
    let w = list_window(3, 10, None, 0);
    assert_eq!((w.first, w.end, w.above, w.below), (0, 3, 0, 0));
}

#[test]
fn sidebar_lists_branches_and_authors() {
    let app = loaded();
    let lines = build_sidebar(&app, 20);
    assert_eq!(lines.len(), 20);
    let text = lines.join("\n");
    assert!(text.contains("feature"));
    assert!(text.contains("Ann"));
}

#[test]
fn tree_width_leaves_room_for_the_sidebar() {
    assert_eq!(compute_tree_w(120), 91);
    assert_eq!(compute_tree_w(60), 59);
    assert_eq!(compute_tree_w(10), 20);
}

fn pm(p: &str, t: &str) -> bool {
    regex_matches_exec(&p.chars().collect(), &t.to_lowercase().chars().collect())
}

#[test]
fn patterns_of_the_commit_filter() {
    assert!(pm("fix.*bug", "fix the bug"));
    assert!(pm("bug", "a bug here"));
    assert!(pm("", "anything"));
    assert!(!pm("^fix", "a fix"));
    assert!(pm("^fix", "fix it"));
    assert!(!pm("bug$", "bug fix"));
    assert!(pm("fix$", "bug fix"));
    assert!(pm("colou?r", "color"));
    assert!(pm("colou?r", "colour"));
    assert!(!pm("a+b", "b"));
    assert!(pm("a+b", "xaab"));
    assert!(pm("v1\\.2", "v1.2"));
    assert!(!pm("v1\\.2", "v1x2"));
    assert!(pm("v1.2", "v1x2"));
    assert!(pm("a|b", "a"));
    assert!(pm("fix|bug", "a bug"));
    assert!(!pm("fix|bug", "feature"));
    assert!(pm("[ab]c", "xbc"));
    assert!(!pm("[ab]c", "xcc"));
    assert!(pm("[^ab]c", "xcc"));
    assert!(pm("v[0-9]+", "release v12"));
    assert!(pm("(ab)+$", "xabab"));
    assert!(!pm("^(ab)+$", "xabab"));
    assert!(pm("(?:re|un)do", "undo"));
    assert!(pm("^a{2,3}$", "aaa"));
    assert!(!pm("^a{2,3}$", "aaaa"));
    assert!(pm("^a{2}$", "aa"));
    assert!(pm("\\d\\d", "x42"));
    assert!(!pm("\\d\\d", "x4y"));
    assert!(pm("\\w+\\s\\w+", "fix it"));
    assert!(pm("FIX", "a fix"));
    assert!(pm("[A-Z]x", "ax"));
    assert!(pm(".*?", ""));
    assert!(pm("^(a|ab)*$", "abaab"));
    assert!(!pm("^(a|ab)*$", "abba"));
    assert!(pm("^(x*)*y$", "xxxxy"));
    // not a pattern: looked for as plain text
    assert!(pm("(ab", "x(ab"));
    assert!(!pm("(ab", "ab"));
    assert!(pm("a{x", "a{x"));
}

#[test]
fn plain_patterns_find_substrings() {
    for (p, t) in [("abc", "xxabcx"), ("abc", "ab c"), ("", ""), ("x y", "a x y"), ("zz", "z")] {
        assert_eq!(pm(p, t), t.contains(p));
    }
}

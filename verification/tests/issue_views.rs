use gitscope::project_json::{project_items, project_numbers};
use gitscope::remote::{token_from_env, token_from_gh};
use gitscope::dispatch::handle_key;
use gitscope::issue_flow::{
    after_edit_fetch, after_issue_close, after_issue_created, after_issue_update, detail_fetch_failed,
    extract_status_from_item, issue_close_args, issue_draft, issue_edit_args, issue_under_cursor,
    parse_comma_labels, parse_label_listing, pick_detail_issue, project_statuses, set_available_labels,
    start_create_issue, status_map, FieldValue, ProjectItem,
};
use gitscope::issue_views::{format_issue_detail, format_issues_lines, show_issues_failure, IssueDetail, IssueSummary, IssuesFailure};
use gitscope::issues::{
    apply_issues_filter, extract_image_urls, get_label_current_token, issue_number_for_detail,
    issue_number_for_prompt, issue_number_in_line, matching_labels, replace_label_current_token,
};
use gitscope::keys::{Action, Key};
use gitscope::state::{AppMode, AppState, CmdOutcome};

fn app() -> AppState {
    AppState::new(30, false, String::new(), None)
}

fn summary(n: u64, title: &str, open: bool, labels: &[&str]) -> IssueSummary {
    IssueSummary {
        number: n,
        title: title.to_string(),
        user: "ann".to_string(),
        open,
        assignee: if n == 1 { Some("bob".to_string()) } else { None },
        labels: labels.iter().map(|l| l.to_string()).collect(),
    }
}

fn with_issues() -> AppState {
    let mut a = app();
    a.issues_project_status = status_map(&vec![(1, "Todo".to_string()), (1, "In Progress".to_string())]);
    assert_eq!(a.issues_project_status.get(&1).map(|s| s.as_str()), Some("In Progress"));
    let issues = vec![summary(1, "Crash on start", true, &["bug", "ui", "p1"]), summary(7, "Docs", false, &[])];
    format_issues_lines(&mut a, &issues, "o", "r");
    a
}

#[test]
fn issue_numbers_read_off_lines() {
    assert_eq!(issue_number_in_line("  #12  OPEN title"), 12);
    assert_eq!(issue_number_in_line("no number"), 0);
    assert_eq!(issue_number_in_line("ends #34"), 0);
    assert_eq!(issue_number_for_prompt("ends #34"), 34);
    assert_eq!(issue_number_for_detail("  #2  OPEN   okay"), Some(2));
    assert_eq!(issue_number_for_detail("  #x2"), None);
}

#[test]
fn label_tokens() {
    assert_eq!(get_label_current_token("bug, fea"), "fea");
    assert_eq!(get_label_current_token("bug"), "bug");
    assert_eq!(replace_label_current_token("bug, fe", "feature"), "bug, feature");
    assert_eq!(replace_label_current_token("fe", "feature"), "feature");
    let avail = vec!["Bug".to_string(), "feature".to_string(), "bugfix".to_string()];
    assert_eq!(matching_labels(&avail, "bu"), vec!["Bug".to_string(), "bugfix".to_string()]);
}

#[test]
fn image_links_in_text() {
    assert_eq!(
        extract_image_urls("see https://x.io/a.PNG and (https://x.io/b.txt) https://github.com/user-attachments/assets/1."),
        vec!["https://x.io/a.PNG".to_string(), "https://github.com/user-attachments/assets/1".to_string()]
    );
    assert!(extract_image_urls("no links here").is_empty());
}

#[test]
fn issue_list_lines() {
    let a = with_issues();
    assert_eq!(a.mode, AppMode::Issues);
    assert_eq!(a.issues_lines.len(), 5);
    assert_eq!(a.issues_lines_full, a.issues_lines);
    assert!(a.issues_lines[0].contains("o/r"));
    assert!(a.issues_lines[0].contains("(2 open)"));
    assert!(a.issues_lines[2].contains("#1"));
    assert!(a.issues_lines[2].contains("[In Progress]"));
    assert!(a.issues_lines[2].contains("@bob"));
    assert!(a.issues_lines[3].contains("[bug]"));
    assert!(a.issues_lines[3].contains("…"));
    assert!(!a.issues_lines[3].contains("[p1]"));
    assert!(a.issues_lines[4].contains("CLOSED"));
}

#[test]
fn empty_issue_list_keeps_the_unfiltered_lines() {
    let mut a = with_issues();
    format_issues_lines(&mut a, &vec![], "o", "r");
    assert_eq!(a.issues_lines, vec!["  \x1b[2mNo open issues found for o/r\x1b[0m".to_string()]);
    assert_eq!(a.issues_lines_full.len(), 5);
}

#[test]
fn issue_list_failures() {
    let mut a = app();
    show_issues_failure(&mut a, IssuesFailure::NeedsAuth);
    assert_eq!(a.issues_lines.len(), 2);
    show_issues_failure(&mut a, IssuesFailure::Fetch("boom".to_string()));
    assert_eq!(a.issues_lines, vec!["  \x1b[91mError fetching issues: boom\x1b[0m".to_string()]);
}

#[test]
fn filters_of_the_issue_list() {
    let mut a = with_issues();
    a.issues_filter_text = "CRASH".to_string();
    apply_issues_filter(&mut a);
    assert_eq!(a.issues_lines.len(), 3);
    a.issues_filter_text = String::new();
    a.issues_label_filter = "UI".to_string();
    apply_issues_filter(&mut a);
    assert_eq!(a.issues_lines.len(), 3);
    assert!(a.issues_lines[2].contains("[ui]"));
    a.issues_label_filter = String::new();
    a.issues_project_status_filter = "in progress".to_string();
    apply_issues_filter(&mut a);
    assert_eq!(a.issues_lines.len(), 3);
}

#[test]
fn typing_a_filter_of_the_issue_list() {
    let mut a = with_issues();
    handle_key(&mut a, Key::Char('/'), false);
    assert_eq!(a.mode, AppMode::IssuesFilter);
    handle_key(&mut a, Key::Char('d'), false);
    handle_key(&mut a, Key::Char('o'), false);
    assert_eq!(a.issues_filter_text, "do");
    assert_eq!(a.issues_lines.len(), 3);
    handle_key(&mut a, Key::Enter, false);
    assert_eq!(a.mode, AppMode::Issues);
    handle_key(&mut a, Key::Char('l'), false);
    handle_key(&mut a, Key::Char('x'), false);
    // The label filter waits for Enter.
    assert!(a.issues_label_filter.is_empty());
    handle_key(&mut a, Key::Esc, false);
    assert_eq!(a.mode, AppMode::Issues);
    assert!(a.issues_label_filter_input.is_empty());
}

#[test]
fn moving_in_the_issue_list() {
    let mut a = with_issues();
    a.term_h = 9; // three rows
    handle_key(&mut a, Key::Char('j'), false);
    handle_key(&mut a, Key::Char('j'), false);
    handle_key(&mut a, Key::Char('j'), false);
    assert_eq!((a.issues_cursor, a.issues_scroll), (3, 1));
    handle_key(&mut a, Key::Char('J'), false);
    assert_eq!(a.issues_cursor, 4);
    handle_key(&mut a, Key::Char('K'), false);
    assert_eq!((a.issues_cursor, a.issues_scroll), (0, 0));
    handle_key(&mut a, Key::Char('G'), false);
    assert_eq!((a.issues_cursor, a.issues_scroll), (4, 2));
}

#[test]
fn closing_asks_first() {
    let mut a = with_issues();
    a.issues_cursor = 2;
    assert!(matches!(handle_key(&mut a, Key::Char('x'), false), Action::Nothing));
    assert!(a.confirm_delete_issue);
    assert_eq!(a.msg, "Press x again to delete issue #1");
    assert!(matches!(handle_key(&mut a, Key::Char('x'), false), Action::DeleteIssue));
    handle_key(&mut a, Key::Char('z'), false);
    assert!(!a.confirm_delete_issue);
}

#[test]
fn state_and_date_filters_cycle() {
    let mut a = with_issues();
    assert!(matches!(handle_key(&mut a, Key::Char('s'), false), Action::OpenIssuesView));
    assert_eq!(a.issues_state, "closed");
    handle_key(&mut a, Key::Char('s'), false);
    assert_eq!(a.issues_state, "all");
    handle_key(&mut a, Key::Char('s'), false);
    assert_eq!(a.issues_state, "open");
    handle_key(&mut a, Key::Char('t'), false);
    assert_eq!(a.issues_date_filter, "today");
    assert_eq!(a.msg, "Date filter: today");
    for _ in 0..4 {
        handle_key(&mut a, Key::Char('t'), false);
    }
    assert!(a.issues_date_filter.is_empty());
    assert_eq!(a.msg, "Date filter: off");
}

#[test]
fn issue_detail_view() {
    let mut a = app();
    let d = IssueDetail {
        number: 5,
        title: "Title".to_string(),
        open: true,
        user: "ann".to_string(),
        created: "2024-01-01".to_string(),
        updated: "2024-01-02".to_string(),
        assignees: vec!["bob".to_string(), "cid".to_string()],
        milestone: None,
        comments: 3,
        pull_request: false,
        labels: vec!["bug".to_string()],
        url: "https://github.com/o/r/issues/5".to_string(),
        body: Some("line one\nsee https://x.io/pic.png".to_string()),
    };
    format_issue_detail(&mut a, &d);
    assert_eq!(a.mode, AppMode::IssueDetail);
    assert_eq!(a.issue_detail_lines[0], "\x1b[1m\x1b[36m #5  \x1b[92m\x1b[1mOPEN\x1b[0m  Title");
    assert_eq!(a.issue_detail_lines[2], "  \x1b[1mAssigned:\x1b[0m \x1b[95m@bob \x1b[95m@cid");
    assert_eq!(a.issue_detail_lines.len(), 13);
    assert_eq!(a.issue_detail_lines[9], "  line one");
    match handle_key(&mut a, Key::Char('o'), false) {
        Action::OpenImages(v) => assert_eq!(v, vec!["https://x.io/pic.png".to_string()]),
        other => panic!("unexpected {:?}", other),
    }
    assert_eq!(a.msg, "Opening 1 image(s) with feh");
}

#[test]
fn picking_the_issue_under_the_cursor() {
    let mut a = with_issues();
    a.issues_cursor = 2;
    assert_eq!(pick_detail_issue(&mut a), Some(1));
    a.issues_cursor = 0;
    assert_eq!(pick_detail_issue(&mut a), None);
    assert_eq!(a.msg, "Could not parse issue number");
    a.issues_cursor = 9;
    assert_eq!(issue_under_cursor(&mut a, true), None);
    assert_eq!(a.msg, "No issue selected");
    a.issues_cursor = 4;
    assert_eq!(issue_under_cursor(&mut a, false), Some(7));
    detail_fetch_failed(&mut a, false, "x".to_string());
    assert_eq!(a.msg, "Authentication required to view issue details");
}

#[test]
fn creating_an_issue() {
    let mut a = app();
    start_create_issue(&mut a, Some(CmdOutcome::Done(" bug \n\nfeature\n".to_string())));
    assert_eq!(a.mode, AppMode::IssueCreate);
    assert_eq!(a.available_labels, vec!["bug".to_string(), "feature".to_string()]);
    assert!(issue_draft(&mut a).is_none());
    assert_eq!(a.msg, "Title cannot be empty");
    for c in "  Fix it ".chars() {
        handle_key(&mut a, Key::Char(c), false);
    }
    handle_key(&mut a, Key::Tab, false);
    handle_key(&mut a, Key::Char('b'), false);
    handle_key(&mut a, Key::Tab, false);
    handle_key(&mut a, Key::Char('f'), false);
    assert_eq!(a.label_ac_list, vec!["feature".to_string()]);
    handle_key(&mut a, Key::Tab, false);
    assert_eq!(a.issue_create_labels_input, "feature");
    let d = issue_draft(&mut a).unwrap();
    assert_eq!(d.title, "Fix it");
    assert_eq!(d.body, "b");
    assert_eq!(d.labels, vec!["feature".to_string()]);
    assert!(matches!(handle_key(&mut a, Key::Enter, false), Action::SubmitIssue));
    assert!(after_issue_created(&mut a, Ok(42)));
    assert_eq!(a.msg, "Issue #42 created!");
    assert!(a.issue_create_title.is_empty());
    assert!(!after_issue_created(&mut a, Err("nope".to_string())));
    assert_eq!(a.msg, "Error: nope");
}

#[test]
fn editing_an_issue() {
    let mut a = app();
    after_edit_fetch(&mut a, 9, Ok(("Old".to_string(), None)), None);
    assert_eq!(a.mode, AppMode::IssueEdit);
    assert_eq!(a.issue_edit_number, 9);
    assert_eq!(a.issue_edit_title, "Old");
    a.issue_edit_labels_input = "a, ,b".to_string();
    let args = issue_edit_args(&mut a, "o", "r").unwrap();
    assert_eq!(args, vec!["issue", "edit", "9", "--repo", "o/r", "--title", "Old", "--add-label", "a,b"]);
    assert!(!after_issue_update(&mut a, CmdOutcome::Failed("  \n".to_string(), " denied ".to_string())));
    assert_eq!(a.msg, "Error updating issue: denied");
    assert!(after_issue_update(&mut a, CmdOutcome::Done(String::new())));
    assert_eq!(a.msg, "Issue #9 updated!");
    assert_eq!(a.mode, AppMode::Issues);
}

#[test]
fn closing_an_issue() {
    let mut a = with_issues();
    a.issues_cursor = 4;
    a.confirm_delete_issue = true;
    assert_eq!(issue_close_args(7, "o", "r"), vec!["issue", "close", "7", "--repo", "o/r"]);
    assert!(after_issue_close(&mut a, 7, CmdOutcome::Done(String::new())));
    assert_eq!(a.msg, "Issue #7 deleted!");
    assert_eq!(a.issues_cursor, 3);
    assert!(!a.confirm_delete_issue);
    assert!(!after_issue_close(&mut a, 7, CmdOutcome::NotRun("no gh".to_string())));
    assert_eq!(a.msg, "Error deleting issue: Failed to run `gh`: no gh");
}

#[test]
fn label_lists() {
    assert_eq!(parse_comma_labels(" a ,b,, c "), vec!["a".to_string(), "b".to_string(), "c".to_string()]);
    assert!(parse_comma_labels("").is_empty());
    assert_eq!(parse_label_listing("x\r\n y \n"), vec!["x".to_string(), "y".to_string()]);
    let mut a = app();
    a.available_labels = vec!["keep".to_string()];
    set_available_labels(&mut a, None);
    assert_eq!(a.available_labels, vec!["keep".to_string()]);
    set_available_labels(&mut a, Some(CmdOutcome::NotRun("e".to_string())));
    assert!(a.available_labels.is_empty());
}

#[test]
fn project_status_of_items() {
    let fv = |f: Option<&str>, n: Option<&str>, o: Option<&str>| FieldValue {
        field_name: f.map(|s| s.to_string()),
        name: n.map(|s| s.to_string()),
        option_id: o.map(|s| s.to_string()),
    };
    assert_eq!(
        extract_status_from_item(&vec![fv(Some("Title"), Some("x"), None), fv(Some("STATUS"), Some("Todo"), None)]),
        Some("Todo".to_string())
    );
    assert_eq!(extract_status_from_item(&vec![fv(Some("status"), None, Some("opt1"))]), Some("opt1".to_string()));
    assert_eq!(extract_status_from_item(&vec![fv(None, Some("x"), None)]), None);
    let items = vec![
        ProjectItem { number: Some(3), fields: vec![fv(Some("Status"), Some("Done"), None)] },
        ProjectItem { number: None, fields: vec![fv(Some("Status"), Some("Todo"), None)] },
        ProjectItem { number: Some(4), fields: vec![] },
    ];
    assert_eq!(project_statuses(&items), vec![(3, "Done".to_string())]);
}

#[test]
fn project_numbers_from_gh_output() {
    assert_eq!(project_numbers(r#"{"projects":[{"number":3,"title":"a"},{"title":"b"},{"number":7}]}"#), vec![3, 7]);
    assert_eq!(project_numbers(r#"{"projects":[],"nodes":[{"number":5}]}"#), vec![5]);
    assert_eq!(project_numbers(r#"{"nodes":[{"number":5}]}"#), Vec::<u64>::new());
    assert_eq!(project_numbers("not json"), Vec::<u64>::new());
}

#[test]
fn project_items_from_gh_output() {
    let text = r#"{"items":[
        {"content":{"number":12},"fieldValues":[{"field":{"name":"Status"},"name":"In Progress"}]},
        {"content":{"number":13},"fieldValues":{"nodes":[{"field":{"name":"status"},"optionId":"opt9"}]}},
        {"content":{"title":"draft"},"fieldValues":[{"field":{"name":"Status"},"name":"Todo"}]},
        {"content":{"number":14}}
    ]}"#;
    let items = project_items(text).unwrap();
    assert_eq!(items.len(), 4);
    assert_eq!(items[0].number, Some(12));
    assert_eq!(items[0].fields[0].name.as_deref(), Some("In Progress"));
    assert_eq!(items[1].fields[0].option_id.as_deref(), Some("opt9"));
    assert_eq!(items[2].number, None);
    assert!(items[3].fields.is_empty());
    assert_eq!(
        project_statuses(&items),
        vec![(12, "In Progress".to_string()), (13, "opt9".to_string())]
    );
    let nodes = project_items(r#"{"nodes":[{"content":{"number":1}}]}"#).unwrap();
    assert_eq!(nodes[0].number, Some(1));
    assert!(project_items(r#"{"other":1}"#).is_none());
    assert!(project_items("[").is_none());
}

#[test]
fn the_token_comes_from_the_first_source_that_has_one() {
    assert_eq!(token_from_env(Some("a".to_string()), Some("b".to_string())), Some("a".to_string()));
    assert_eq!(token_from_env(None, Some("b".to_string())), Some("b".to_string()));
    assert_eq!(token_from_env(None, None), None);
    assert_eq!(token_from_gh("  gho_x \n"), Some("gho_x".to_string()));
    assert_eq!(token_from_gh(" \n"), None);
}

#[test]
fn the_delete_prompt_names_the_issue_of_the_line() {
    let mut a = with_issues();
    a.issues_lines = vec!["  #42  OPEN  Fix it".to_string()];
    a.issues_lines_full = a.issues_lines.clone();
    a.issues_cursor = 0;
    a.issues_scroll = 0;
    a.confirm_delete_issue = false;
    assert!(matches!(handle_key(&mut a, Key::Char('x'), false), Action::Nothing));
    assert!(a.confirm_delete_issue);
    assert_eq!(a.msg, "Press x again to delete issue #42");
    assert_eq!(a.issues_lines, vec!["  #42  OPEN  Fix it".to_string()]);
    assert!(matches!(handle_key(&mut a, Key::Char('x'), false), Action::DeleteIssue));
}

#[test]
fn a_new_state_asks_nothing() {
    let a = AppState::new(30, false, String::new(), None);
    assert!(!a.confirm_delete_issue);
    assert_eq!(a.mode, AppMode::Tree);
    assert!(a.issues_lines.is_empty() && a.report_lines.is_empty() && a.gists_lines.is_empty());
}

#[test]
fn image_links_start_with_http_and_stand_in_the_line() {
    let line = "see (https://x.io/a.PNG), <http://y.io/b.txt> and https://github.com/user-attachments/assets/9f!";
    let urls = extract_image_urls(line);
    assert_eq!(urls, vec!["https://x.io/a.PNG".to_string(), "https://github.com/user-attachments/assets/9f".to_string()]);
    for u in &urls {
        assert!(u.starts_with("http") && line.contains(u.as_str()));
        assert!(!u.contains(|c: char| c.is_whitespace() || ")>\"<".contains(c)));
    }
}

use gitscope::cli::{
    cli_listing_lines, created_issue_lines, parse_issue_args, parse_tui_args, route, IssueArgs, Route, TuiArgs,
};
use gitscope::dispatch::handle_key;
use gitscope::gists::{
    after_gist_copy, apply_gists_filter, extract_gist_id, format_gists_lines, show_gist_content, GistSummary,
};
use gitscope::issue_views::IssueSummary;
use gitscope::keys::{Action, Key};
use gitscope::report::{open_report, parse_report, set_report_completions};
use gitscope::repos::{
    add_scanned_repos, after_switch, clipboard_command_for, clipboard_tools, complete_repo_path, detect_current_repo,
    expand_path, finish_repo_add, sort_by_name, sort_names, start_repo_add, switch_check, validate_repo_path, GitProbe,
};
use gitscope::state::{AppMode, AppState, CmdOutcome, RepoEntry};

fn app() -> AppState {
    AppState::new(30, false, String::new(), Some("pbcopy".to_string()))
}

fn gist(id: &str, desc: Option<&str>, public: bool, files: &[&str]) -> GistSummary {
    GistSummary {
        id: Some(id.to_string()),
        description: desc.map(|d| d.to_string()),
        public: Some(public),
        html_url: Some(format!("https://gist.github.com/{}", id)),
        owner: None,
        created_at: Some("2024-05-06T07:08:09Z".to_string()),
        updated_at: None,
        comments: Some(2),
        files: files.iter().map(|f| f.to_string()).collect(),
    }
}

fn with_gists() -> AppState {
    let mut a = app();
    format_gists_lines(&mut a, Some(vec![gist("abc123456", Some("notes"), true, &["a.md", "b.rs"]), gist("def", None, false, &[])]));
    a
}

#[test]
fn gist_list_lines() {
    let a = with_gists();
    assert_eq!(a.mode, AppMode::Gists);
    // header, rule, then 5 lines for the first gist and 4 for the second
    assert_eq!(a.gists_lines.len(), 11);
    assert!(a.gists_lines[0].contains("(2 total)"));
    assert!(a.gists_lines[2].contains("PUBLIC"));
    assert!(a.gists_lines[2].contains("notes"));
    assert!(a.gists_lines[3].contains("a.md, b.rs"));
    assert!(a.gists_lines[4].contains("by unknown"));
    assert!(a.gists_lines[4].contains("created: 2024-05-06  updated: "));
    assert!(a.gists_lines[4].contains("comments: 2"));
    assert!(a.gists_lines[7].contains("PRIVATE"));
    assert!(a.gists_lines[7].contains("(no description)"));
    assert_eq!(a.gists_lines_full, a.gists_lines);
}

#[test]
fn gist_list_of_an_unexpected_reply() {
    let mut a = with_gists();
    format_gists_lines(&mut a, None);
    assert_eq!(a.gists_lines, vec!["  \x1b[91mUnexpected response format from GitHub API.\x1b[0m".to_string()]);
    assert_eq!(a.gists_lines_full.len(), 11);
    format_gists_lines(&mut a, Some(vec![]));
    assert_eq!(a.gists_lines, vec!["  \x1b[2mNo gists found.\x1b[0m".to_string()]);
}

#[test]
fn long_descriptions_are_cut() {
    let mut a = app();
    a.term_w = 60; // room for 10 bytes
    format_gists_lines(&mut a, Some(vec![gist("x", Some("abcdefghijklmnop"), true, &[])]));
    assert!(a.gists_lines[2].contains("abcdefghi…"));
    assert!(!a.gists_lines[2].contains("abcdefghij"));
}

#[test]
fn gist_id_under_the_cursor() {
    let a = with_gists();
    assert_eq!(extract_gist_id(&a.gists_lines, 2), None);
    assert_eq!(extract_gist_id(&a.gists_lines, 5), Some("abc123456".to_string()));
    assert_eq!(extract_gist_id(&a.gists_lines, 9), Some("def".to_string()));
    assert_eq!(extract_gist_id(&a.gists_lines, 100), Some("def".to_string()));
    assert_eq!(extract_gist_id(&a.gists_lines, 1), None);
    assert_eq!(extract_gist_id(&vec!["  id: \x1b[2mzz\x1b[0m".to_string()], 0), Some("zz".to_string()));
}

#[test]
fn gist_keys() {
    let mut a = with_gists();
    a.gists_cursor = 5;
    match handle_key(&mut a, Key::Char('y'), false) {
        Action::CopyGist(id) => assert_eq!(id, "abc123456"),
        other => panic!("unexpected {:?}", other),
    }
    match handle_key(&mut a, Key::Enter, false) {
        Action::OpenGistContent(id) => assert_eq!(id, "abc123456"),
        other => panic!("unexpected {:?}", other),
    }
    a.gists_cursor = 1;
    assert!(matches!(handle_key(&mut a, Key::Enter, false), Action::Nothing));
    assert_eq!(a.msg, "Could not find gist ID at cursor");
}

#[test]
fn gist_filter() {
    let mut a = with_gists();
    a.gists_filter_text = "NOTES".to_string();
    apply_gists_filter(&mut a);
    assert_eq!(a.gists_lines.len(), 3);
    a.gists_filter_text = String::new();
    apply_gists_filter(&mut a);
    assert_eq!(a.gists_lines.len(), 11);
    handle_key(&mut a, Key::Char('/'), false);
    assert_eq!(a.mode, AppMode::GistsFilter);
    handle_key(&mut a, Key::Char('d'), false);
    handle_key(&mut a, Key::Char('e'), false);
    handle_key(&mut a, Key::Char('f'), false);
    assert_eq!(a.gists_filter_text, "def");
    assert_eq!(a.gists_lines.len(), 4); // the id and link lines of "def"
    handle_key(&mut a, Key::Esc, false);
    assert_eq!(a.mode, AppMode::Gists);
    assert_eq!(a.gists_lines.len(), 11);
}

#[test]
fn gist_content_view() {
    let mut a = app();
    show_gist_content(&mut a, &"abc".to_string(), CmdOutcome::Done("one\ntwo\n".to_string()));
    assert_eq!(a.mode, AppMode::GistContent);
    assert_eq!(a.gist_content_lines.len(), 4);
    assert_eq!(a.gist_content_lines[2], "one");
    show_gist_content(&mut a, &"abc".to_string(), CmdOutcome::Failed(" bad id \n".to_string(), String::new()));
    assert_eq!(a.gist_content_lines, vec!["  \x1b[91mgh gist view failed: bad id\x1b[0m".to_string()]);
    handle_key(&mut a, Key::Char('G'), false);
    assert_eq!(a.gist_content_scroll, usize::MAX);
    handle_key(&mut a, Key::Esc, false);
    assert_eq!(a.mode, AppMode::Gists);
    assert_eq!(a.gist_content_scroll, 0);
}

#[test]
fn gist_copy_messages() {
    let mut a = app();
    after_gist_copy(&mut a, &"abcdef123".to_string(), CmdOutcome::Done("x".to_string()), true);
    assert_eq!(a.msg, "Copied gist abcdef1 content to clipboard");
    after_gist_copy(&mut a, &"ab".to_string(), CmdOutcome::NotRun("missing".to_string()), false);
    assert_eq!(a.msg, "Error: Failed to run `gh gist view`: missing");
    a.clipboard_cmd = None;
    after_gist_copy(&mut a, &"ab".to_string(), CmdOutcome::Done("x".to_string()), false);
    assert_eq!(a.msg, "No clipboard tool found");
}

const LOG: &str = "ann@x.io|2024-01-02|first\n\nsrc/a.rs\nREADME.md\nbob@y.io|2024-03-04|second\n\nsrc/b.rs\nann@x.io|2024-02-01|third\n\ndocs/c.md\n";

#[test]
fn report_entries_from_the_log() {
    let e = parse_report(LOG);
    let v: Vec<(&str, &str, &str)> = e.iter().map(|x| (x.email.as_str(), x.file.as_str(), x.date.as_str())).collect();
    assert_eq!(
        v,
        vec![
            ("ann@x.io", "src/a.rs", "2024-01-02"),
            ("ann@x.io", "README.md", "2024-01-02"),
            ("bob@y.io", "src/b.rs", "2024-03-04"),
            ("ann@x.io", "docs/c.md", "2024-02-01"),
        ]
    );
}

#[test]
fn report_by_name_and_by_date() {
    let mut a = app();
    open_report(&mut a, Some(LOG.to_string()));
    assert_eq!(a.mode, AppMode::Report);
    assert_eq!(a.report_lines[0], "=".repeat(63));
    assert_eq!(a.report_lines[1], "                    FILES BY AUTHOR");
    assert_eq!(a.report_lines[5], "  CREATED BY: \x1b[36mann@x.io\x1b[0m");
    assert_eq!(a.report_lines[9], format!("  \x1b[93ma.rs\x1b[0m{}\x1b[2m2024-01-02", " ".repeat(44)));
    // two author groups (ann, bob) of six head lines, four files, the frame
    assert_eq!(a.report_lines.len(), 3 + 12 + 4 + 2);
    assert_eq!(a.report_lines.iter().filter(|l| l.contains("CREATED BY")).count(), 2);
    assert!(a.report_lines[11].contains("c.md"));
    assert_eq!(a.report_lines[14], "  CREATED BY: \x1b[36mbob@y.io\x1b[0m");
    a.report_sort = "date".to_string();
    open_report(&mut a, Some(LOG.to_string()));
    assert_eq!(a.report_lines[5], "  CREATED BY: \x1b[36mbob@y.io\x1b[0m");
    assert_eq!(a.report_lines.len(), 3 + 12 + 4 + 2);
}

#[test]
fn report_filter_by_email() {
    let mut a = app();
    a.report_email_filter = "bob".to_string();
    open_report(&mut a, Some(LOG.to_string()));
    assert_eq!(a.report_lines.len(), 3 + 6 + 1 + 2);
    a.report_email_filter = "zed".to_string();
    open_report(&mut a, Some(LOG.to_string()));
    assert_eq!(a.report_lines, vec!["  \x1b[2mNo files found for: zed\x1b[0m".to_string()]);
    open_report(&mut a, None);
    assert_eq!(a.report_lines, vec!["  Failed to load report".to_string()]);
}

#[test]
fn report_email_suggestions() {
    let mut a = app();
    a.report_email_input = "X.IO".to_string();
    let emails: Vec<String> = ["z@x.io", "a@x.io", "b@y.io", "a@x.io", "c@x.io", "d@x.io", "e@x.io", "f@x.io"]
        .iter()
        .map(|s| s.to_string())
        .collect();
    a.dirty = false;
    set_report_completions(&mut a, &emails);
    assert_eq!(a.report_ac_list, vec!["a@x.io", "c@x.io", "d@x.io", "e@x.io", "f@x.io"]);
    assert!(a.dirty);
    a.dirty = false;
    set_report_completions(&mut a, &emails);
    assert!(!a.dirty);
}

#[test]
fn report_filter_keys() {
    let mut a = app();
    a.mode = AppMode::Report;
    handle_key(&mut a, Key::Char('/'), false);
    assert_eq!(a.mode, AppMode::ReportFilter);
    assert!(matches!(handle_key(&mut a, Key::Char('a'), false), Action::UpdateReportCompletions));
    a.report_ac_list = vec!["a@x.io".to_string(), "ab@x.io".to_string()];
    handle_key(&mut a, Key::Tab, false);
    assert_eq!(a.report_email_input, "ab@x.io");
    assert!(matches!(handle_key(&mut a, Key::Enter, false), Action::OpenReport));
    assert_eq!(a.report_email_filter, "a@x.io");
    assert_eq!(a.mode, AppMode::Report);
    assert!(matches!(handle_key(&mut a, Key::Char('t'), false), Action::OpenReport));
    assert_eq!(a.report_sort, "date");
}

#[test]
fn repository_paths() {
    assert_eq!(validate_repo_path("/p", false, false, false), Err("Path does not exist: /p".to_string()));
    assert_eq!(validate_repo_path("/p", true, false, false), Err("Not a directory: /p".to_string()));
    assert_eq!(validate_repo_path("/p", true, true, false), Err("No .git directory found in: /p".to_string()));
    assert_eq!(validate_repo_path("/p", true, true, true), Ok(()));
    assert_eq!(switch_check("/q", true, false), Err("Not a git repository: /q".to_string()));
    assert_eq!(expand_path("~/src/", Some("/home/u//".to_string()), None), "/home/u/src/");
    assert_eq!(expand_path("~", Some("/home/u".to_string()), None), "/home/u");
    assert_eq!(expand_path("~", None, None), "~");
    assert_eq!(expand_path("proj", None, Some("/work".to_string())), "/work/proj");
    assert_eq!(expand_path("/abs", None, Some("/work".to_string())), "/abs");
}

#[test]
fn repository_entries() {
    let e = RepoEntry::from_path("/w/alpha", GitProbe::Counted(" 42\n".to_string()));
    assert_eq!((e.name.as_str(), e.commit_count, e.is_valid()), ("alpha", 42, true));
    let e = RepoEntry::from_path("/w/beta/", GitProbe::Failed(" fatal: bad \n".to_string()));
    assert_eq!(e.name, "beta");
    assert_eq!(e.error, Some("git error: fatal: bad".to_string()));
    assert!(!e.is_valid());
    let e = RepoEntry::from_path("/", GitProbe::NoGitDir);
    assert_eq!(e.name, "/");
    assert_eq!(e.error, Some("Not a git repository".to_string()));
    assert!(detect_current_repo("/w/x", false, GitProbe::NotRun).is_none());
    assert_eq!(detect_current_repo("/w/x", true, GitProbe::NotRun).unwrap().error, Some("Failed to run git".to_string()));
}

#[test]
fn repository_list_keys() {
    let mut a = app();
    a.mode = AppMode::Repos;
    let found = sort_by_name(&vec![
        RepoEntry::from_path("/w/zed", GitProbe::Counted("1".to_string())),
        RepoEntry::from_path("/w/amy", GitProbe::NoGitDir),
    ]);
    assert_eq!(found[0].name, "amy");
    add_scanned_repos(&mut a, "/w", found);
    assert_eq!(a.msg, "Found 2 new repo(s) in /w");
    assert_eq!(a.repos.len(), 2);
    add_scanned_repos(&mut a, "/w", vec![RepoEntry::from_path("/w/zed", GitProbe::NotRun)]);
    assert_eq!(a.msg, "Found 0 new repo(s) in /w");
    add_scanned_repos(&mut a, "/w", vec![]);
    assert_eq!(a.msg, "No git repos found in /w");
    assert!(matches!(handle_key(&mut a, Key::Enter, false), Action::Nothing));
    assert_eq!(a.msg, "Cannot switch: repository is invalid");
    handle_key(&mut a, Key::Char('j'), false);
    assert!(matches!(handle_key(&mut a, Key::Enter, false), Action::SwitchRepo(1)));
    after_switch(&mut a, 1, Ok(()));
    assert_eq!(a.msg, "Switched to zed");
    assert_eq!(a.mode, AppMode::Tree);
    assert!(a.refresh);
    a.mode = AppMode::Repos;
    handle_key(&mut a, Key::Char('x'), false);
    assert_eq!(a.msg, "Removed zed");
    assert_eq!(a.repos_cursor, 0);
    assert_eq!(a.repos.len(), 1);
}

#[test]
fn adding_a_repository() {
    let mut a = app();
    start_repo_add(&mut a, "/w".to_string());
    assert_eq!(a.mode, AppMode::ReposAdd);
    assert_eq!(a.repos_add_input, "/w");
    handle_key(&mut a, Key::Char('/'), false);
    handle_key(&mut a, Key::Char('r'), false);
    match handle_key(&mut a, Key::Enter, false) {
        Action::AddRepo(p) => assert_eq!(p, "/w/r"),
        other => panic!("unexpected {:?}", other),
    }
    let e = RepoEntry::from_path("/w/r", GitProbe::Counted("3".to_string()));
    finish_repo_add(&mut a, "/w/r", Ok(()), Some(e));
    assert_eq!(a.msg, "Added r");
    assert_eq!(a.mode, AppMode::Repos);
    assert!(a.repos_add_input.is_empty());
    finish_repo_add(&mut a, "/w/r", Ok(()), None);
    assert_eq!(a.msg, "Repository already in list");
    finish_repo_add(&mut a, "/w/q", Err("Not a directory: /w/q".to_string()), None);
    assert_eq!(a.msg, "Invalid path: Not a directory: /w/q");
    complete_repo_path(&mut a, "/w", &vec!["zz".to_string(), "bb".to_string()]);
    assert_eq!(a.repos_add_input, "/w/bb");
    assert_eq!(sort_names(&vec!["b".to_string(), "B".to_string(), "a".to_string()]), vec!["B", "a", "b"]);
}

#[test]
fn clipboard_tools_and_commands() {
    assert_eq!(clipboard_tools(), vec!["xclip", "xsel", "wl-copy", "pbcopy", "termux-clipboard-set"]);
    assert_eq!(clipboard_command_for("xclip"), "xclip -selection clipboard");
    assert_eq!(clipboard_command_for("xsel"), "xsel --clipboard --input");
    assert_eq!(clipboard_command_for("pbcopy"), "pbcopy");
}

fn args(v: &[&str]) -> Vec<String> {
    v.iter().map(|s| s.to_string()).collect()
}

#[test]
fn command_line_routes() {
    assert!(matches!(route(&args(&["g", "issues"])), Route::Issues));
    assert!(matches!(route(&args(&["g", "issue", "create"])), Route::IssueCreate));
    assert!(matches!(route(&args(&["g", "issue"])), Route::IssueHelp));
    assert!(matches!(route(&args(&["g", "issue", "help"])), Route::IssueHelp));
    match route(&args(&["g", "issue", "close"])) {
        Route::UnknownIssue(w) => assert_eq!(w, "close"),
        _ => panic!("expected an unknown subcommand"),
    }
    assert!(matches!(route(&args(&["g", "-a"])), Route::Tui));
}

#[test]
fn terminal_options() {
    match parse_tui_args(&args(&["g", "-n", "+50", "--all", "-b", "dev"])) {
        TuiArgs::Run { count, all, branch } => {
            assert_eq!(count, Some(50));
            assert!(all);
            assert_eq!(branch, Some("dev".to_string()));
        },
        _ => panic!("expected options"),
    }
    assert!(matches!(parse_tui_args(&args(&["g", "-h", "junk"])), TuiArgs::Help));
    assert!(matches!(parse_tui_args(&args(&["g", "-V"])), TuiArgs::Version));
    assert!(matches!(parse_tui_args(&args(&["g", "--count"])), TuiArgs::MissingValue(ref f) if f == "count"));
    assert!(matches!(parse_tui_args(&args(&["g", "-n", "x1"])), TuiArgs::InvalidCount(ref s) if s == "x1"));
    assert!(matches!(parse_tui_args(&args(&["g", "--what"])), TuiArgs::Unknown(ref s) if s == "--what"));
}

#[test]
fn issue_command_options() {
    match parse_issue_args(&args(&["g", "issues", "--state", "all", "--owner", "o"]), 2, false) {
        IssueArgs::Parsed(o) => {
            assert_eq!(o.state, "all");
            assert_eq!(o.owner, Some("o".to_string()));
            assert_eq!(o.repo, None);
        },
        _ => panic!("expected options"),
    }
    match parse_issue_args(&args(&["g", "issue", "create", "--title", "T"]), 3, true) {
        IssueArgs::Parsed(o) => {
            assert_eq!(o.title, Some("T".to_string()));
            assert_eq!(o.state, "open");
            assert!(o.body.is_empty());
        },
        _ => panic!("expected options"),
    }
    assert!(matches!(parse_issue_args(&args(&["g", "issues", "--title", "T"]), 2, false), IssueArgs::Unknown(ref s) if s == "--title"));
    assert!(matches!(parse_issue_args(&args(&["g", "issues", "--repo"]), 2, false), IssueArgs::MissingValue));
}

#[test]
fn issue_command_output() {
    let issues = vec![IssueSummary {
        number: 3,
        title: "T".to_string(),
        user: "u".to_string(),
        open: true,
        assignee: None,
        labels: vec!["a".to_string(), "b".to_string(), "c".to_string(), "d".to_string()],
    }];
    let lines = cli_listing_lines(&issues, "o", "r", "open", true);
    assert_eq!(lines.len(), 5);
    assert_eq!(lines[0], "\x1b[1m\x1b[36m o/r\x1b[0m  \x1b[2m(1 issues, showing up to 50)\x1b[0m");
    assert!(lines[3].contains("[c]") && !lines[3].contains("[d]") && lines[3].contains("…"));
    assert_eq!(lines[4], "  \x1b[2m(more results available on next page)\x1b[0m");
    let none = cli_listing_lines(&vec![], "o", "r", "closed", false);
    assert_eq!(none, vec!["  \x1b[2mNo closed issues found for o/r\x1b[0m".to_string()]);
    assert_eq!(
        created_issue_lines(8, "T", "https://u"),
        vec!["\x1b[92m✓\x1b[0m Created issue \x1b[1m#8 \x1b[0m", "  Title: T", "  URL:   https://u"]
    );
}

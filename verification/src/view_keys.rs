//! The keys of the gist views, the author report and the repository list.
use vstd::prelude::*;
use crate::gists::{apply_gists_filter, extract_gist_id, gist_id_from, gists_refiltered};
use crate::issue_keys::{is_move_key, is_move_key_exec, list_move, list_moved, list_room, sat_sub, typed};
use crate::issues::strings_view;
use crate::keys::{is_scroll_key, scrolled, Action, Key};
use crate::nav::{list_rows, list_rows_exec};
use crate::state::{show_msg, AppMode, AppState, RepoEntry};
use crate::text::{clear_string, concat2, eq_str, pop_char, popped, push_char};

verus! {

// ── Scrolling text views ────────────────────────────────────────────────────

/// Scrolling down must not overflow.
pub open spec fn scroll_room(s: usize, key: Key) -> bool {
    match key {
        Key::Char('j') | Key::Down => s + 1 <= usize::MAX,
        Key::Char('J') => s + 5 <= usize::MAX,
        _ => true,
    }
}

pub fn scroll_step(s: usize, key: Key) -> (r: usize)
    requires
        scroll_room(s, key),
    ensures
        r == scrolled(s, key),
{
    match key {
        Key::Char('j') | Key::Down => s + 1,
        Key::Char('k') | Key::Up => if s >= 1 { s - 1 } else { 0 },
        Key::Char('J') => s + 5,
        Key::Char('K') => if s >= 5 { s - 5 } else { 0 },
        _ => s,
    }
}

fn is_scroll_key_exec(key: Key) -> (r: bool)
    ensures
        r == is_scroll_key(key),
{
    match key {
        Key::Char('j') | Key::Down | Key::Char('k') | Key::Up | Key::Char('J') | Key::Char('K') => true,
        _ => false,
    }
}

// ── Gist list ───────────────────────────────────────────────────────────────

/// What the gist keys need so as not to overflow.
pub open spec fn gists_room(app: AppState, key: Key) -> bool {
    &&& list_room(app.gists_cursor, app.gists_scroll, app.term_h, key)
    &&& key == Key::Char('G') ==> app.gists_scroll + list_rows(app.term_h) <= usize::MAX
}

/// What a key does in the gist list.
pub open spec fn gists_key_post(o: AppState, f: AppState, key: Key, r: Action) -> bool {
    if is_move_key(key) {
        let (c, s) = list_moved(o.gists_cursor, o.gists_scroll, o.gists_lines@.len(), o.term_h, key);
        f == (AppState { gists_cursor: c, gists_scroll: s, dirty: true, ..o }) && r == Action::Nothing
    } else {
        match key {
            Key::Char('/') => {
                &&& f == (AppState { gists_filter_input: f.gists_filter_input, mode: AppMode::GistsFilter, dirty: true, ..o })
                &&& f.gists_filter_input@.len() == 0 && r == Action::Nothing
            },
            Key::Char('g') => f == (AppState { gists_cursor: 0, gists_scroll: 0, dirty: true, ..o }) && r == Action::Nothing,
            Key::Char('G') => {
                let c = sat_sub(o.gists_lines@.len() as int, 1);
                let rows = list_rows(o.term_h);
                let s = if c >= o.gists_scroll + rows { (sat_sub(c as int, rows) + 1) as usize } else { o.gists_scroll };
                f == (AppState { gists_cursor: c, gists_scroll: s, dirty: true, ..o }) && r == Action::Nothing
            },
            Key::Char('y') | Key::Enter => match gist_id_from(strings_view(o.gists_lines@), o.gists_cursor as int) {
                Some(id) => {
                    &&& f == (AppState { dirty: true, ..o })
                    &&& (if key == Key::Enter {
                        r matches Action::OpenGistContent(x) && x@ == id
                    } else {
                        r matches Action::CopyGist(x) && x@ == id
                    })
                },
                None => {
                    &&& f == (AppState { msg: f.msg, msg_new: true, dirty: true, ..o })
                    &&& f.msg@ == "Could not find gist ID at cursor"@
                    &&& r == Action::Nothing
                },
            },
            Key::Char('q') | Key::Esc => f == (AppState { mode: AppMode::Tree, dirty: true, ..o }) && r == Action::Nothing,
            _ => f == o && r == Action::Nothing,
        }
    }
}

pub fn handle_gists_key(app: &mut AppState, key: Key) -> (r: Action)
    requires
        gists_room(*old(app), key),
    ensures
        gists_key_post(*old(app), *final(app), key, r),
{
    if is_move_key_exec(key) {
        let (c, s) = list_move(app.gists_cursor, app.gists_scroll, app.gists_lines.len(), app.term_h, key);
        app.gists_cursor = c;
        app.gists_scroll = s;
        app.dirty = true;
        return Action::Nothing;
    }
    match key {
        Key::Char('/') => {
            clear_string(&mut app.gists_filter_input);
            app.mode = AppMode::GistsFilter;
            app.dirty = true;
            Action::Nothing
        },
        Key::Char('g') => {
            app.gists_cursor = 0;
            app.gists_scroll = 0;
            app.dirty = true;
            Action::Nothing
        },
        Key::Char('G') => {
            let n = app.gists_lines.len();
            let c = if n >= 1 { n - 1 } else { 0 };
            let rows = list_rows_exec(app.term_h);
            app.gists_cursor = c;
            if c >= app.gists_scroll + rows {
                app.gists_scroll = (if c >= rows { c - rows } else { 0 }) + 1;
            }
            app.dirty = true;
            Action::Nothing
        },
        Key::Char('y') | Key::Enter => {
            let r = match extract_gist_id(&app.gists_lines, app.gists_cursor) {
                Some(id) => if key == Key::Enter { Action::OpenGistContent(id) } else { Action::CopyGist(id) },
                None => {
                    proof {
                        reveal_strlit("Could not find gist ID at cursor");
                    }
                    show_msg(app, "Could not find gist ID at cursor");
                    Action::Nothing
                },
            };
            app.dirty = true;
            r
        },
        Key::Char('q') | Key::Esc => {
            app.mode = AppMode::Tree;
            app.dirty = true;
            Action::Nothing
        },
        _ => Action::Nothing,
    }
}

/// What a key does while the gist filter is typed: the filter follows the input,
/// Enter and Esc go back to the list, and the list is filtered again.
pub open spec fn gists_filter_post(o: AppState, f: AppState, key: Key) -> bool {
    match key {
        Key::Enter | Key::Esc | Key::Backspace | Key::Char(_) => {
            let input = match key {
                Key::Esc => seq![],
                Key::Backspace | Key::Char(_) => typed(o.gists_filter_input@, key),
                _ => o.gists_filter_input@,
            };
            let mode = match key {
                Key::Enter | Key::Esc => AppMode::Gists,
                _ => o.mode,
            };
            let m = AppState {
                gists_filter_input: f.gists_filter_input,
                gists_filter_text: f.gists_filter_text,
                mode: mode,
                dirty: true,
                ..o
            };
            &&& f.gists_filter_input@ == input && f.gists_filter_text@ == input
            &&& gists_refiltered(m, f)
        },
        _ => f == o,
    }
}

pub fn handle_gists_filter_key(app: &mut AppState, key: Key)
    ensures
        gists_filter_post(*old(app), *final(app), key),
{
    match key {
        Key::Enter => {
            app.mode = AppMode::Gists;
        },
        Key::Esc => {
            clear_string(&mut app.gists_filter_input);
            app.mode = AppMode::Gists;
        },
        Key::Backspace => {
            pop_char(&mut app.gists_filter_input);
        },
        Key::Char(c) => {
            push_char(&mut app.gists_filter_input, c);
        },
        _ => {
            return;
        },
    }
    app.gists_filter_text = app.gists_filter_input.clone();
    app.dirty = true;
    apply_gists_filter(app);
}

// ── Gist content ────────────────────────────────────────────────────────────

/// What a key does in the content view of a gist.
pub open spec fn gist_content_post(o: AppState, f: AppState, key: Key) -> bool {
    if is_scroll_key(key) {
        f == (AppState { gist_content_scroll: scrolled(o.gist_content_scroll, key), dirty: true, ..o })
    } else {
        match key {
            Key::Char('g') => f == (AppState { gist_content_scroll: 0, dirty: true, ..o }),
            Key::Char('G') => f == (AppState { gist_content_scroll: usize::MAX, dirty: true, ..o }),
            Key::Char('q') | Key::Esc => f == (AppState { mode: AppMode::Gists, gist_content_scroll: 0, dirty: true, ..o }),
            _ => f == o,
        }
    }
}

pub fn handle_gist_content_key(app: &mut AppState, key: Key)
    requires
        scroll_room(old(app).gist_content_scroll, key),
    ensures
        gist_content_post(*old(app), *final(app), key),
{
    if is_scroll_key_exec(key) {
        app.gist_content_scroll = scroll_step(app.gist_content_scroll, key);
        app.dirty = true;
        return;
    }
    match key {
        Key::Char('g') => {
            app.gist_content_scroll = 0;
            app.dirty = true;
        },
        Key::Char('G') => {
            app.gist_content_scroll = usize::MAX;
            app.dirty = true;
        },
        Key::Char('q') | Key::Esc => {
            app.mode = AppMode::Gists;
            app.gist_content_scroll = 0;
            app.dirty = true;
        },
        _ => {},
    }
}

// ── Author report ───────────────────────────────────────────────────────────

/// The report order after `t`: by date after by name, by name otherwise.
pub open spec fn toggled_sort(s: Seq<char>) -> Seq<char> {
    if s == "name"@ { "date"@ } else { "name"@ }
}

/// What a key does in the author report.
pub open spec fn report_key_post(o: AppState, f: AppState, key: Key, r: Action) -> bool {
    if is_scroll_key(key) {
        f == (AppState { report_scroll: scrolled(o.report_scroll, key), dirty: true, ..o }) && r == Action::Nothing
    } else {
        match key {
            Key::Char('g') => f == (AppState { report_scroll: 0, dirty: true, ..o }) && r == Action::Nothing,
            Key::Char('G') => f == (AppState { report_scroll: usize::MAX, dirty: true, ..o }) && r == Action::Nothing,
            Key::Char('/') => {
                &&& f == (AppState {
                    report_email_input: f.report_email_input,
                    report_ac_idx: 0,
                    report_ac_list: f.report_ac_list,
                    mode: AppMode::ReportFilter,
                    dirty: true,
                    ..o
                })
                &&& f.report_email_input@.len() == 0 && f.report_ac_list@.len() == 0
                &&& r == Action::Nothing
            },
            Key::Char('t') => {
                &&& f == (AppState { report_sort: f.report_sort, dirty: true, ..o })
                &&& f.report_sort@ == toggled_sort(o.report_sort@)
                &&& r == Action::OpenReport
            },
            Key::Char('b') => {
                &&& f == (AppState {
                    mode: AppMode::SidebarFocus,
                    report_email_filter: f.report_email_filter,
                    branch_idx: 0,
                    dirty: true,
                    ..o
                })
                &&& f.report_email_filter@.len() == 0 && r == Action::Nothing
            },
            Key::Char('q') | Key::Esc => {
                &&& f == (AppState { mode: AppMode::Tree, report_email_filter: f.report_email_filter, dirty: true, ..o })
                &&& f.report_email_filter@.len() == 0 && r == Action::Nothing
            },
            _ => f == o && r == Action::Nothing,
        }
    }
}

pub fn handle_report_key(app: &mut AppState, key: Key) -> (r: Action)
    requires
        scroll_room(old(app).report_scroll, key),
    ensures
        report_key_post(*old(app), *final(app), key, r),
{
    if is_scroll_key_exec(key) {
        app.report_scroll = scroll_step(app.report_scroll, key);
        app.dirty = true;
        return Action::Nothing;
    }
    match key {
        Key::Char('g') => {
            app.report_scroll = 0;
            app.dirty = true;
            Action::Nothing
        },
        Key::Char('G') => {
            app.report_scroll = usize::MAX;
            app.dirty = true;
            Action::Nothing
        },
        Key::Char('/') => {
            clear_string(&mut app.report_email_input);
            app.report_ac_idx = 0;
            app.report_ac_list = Vec::new();
            app.mode = AppMode::ReportFilter;
            app.dirty = true;
            Action::Nothing
        },
        Key::Char('t') => {
            proof {
                reveal_strlit("name");
            }
            if eq_str(app.report_sort.as_str(), "name") {
                app.report_sort = String::from_str("date");
            } else {
                app.report_sort = String::from_str("name");
            }
            app.dirty = true;
            Action::OpenReport
        },
        Key::Char('b') => {
            app.mode = AppMode::SidebarFocus;
            clear_string(&mut app.report_email_filter);
            app.branch_idx = 0;
            app.dirty = true;
            Action::Nothing
        },
        Key::Char('q') | Key::Esc => {
            app.mode = AppMode::Tree;
            clear_string(&mut app.report_email_filter);
            app.dirty = true;
            Action::Nothing
        },
        _ => Action::Nothing,
    }
}

/// What a key does while an e-mail filter of the report is typed (the
/// suggestions are in `report_ac_list`).
pub open spec fn report_filter_post(o: AppState, f: AppState, key: Key, r: Action) -> bool {
    let ac = o.report_ac_list@;
    match key {
        Key::Enter => {
            let input = if ac.len() > 0 { ac[0]@ } else { o.report_email_input@ };
            &&& f == (AppState {
                report_email_input: f.report_email_input,
                report_email_filter: f.report_email_filter,
                mode: AppMode::Report,
                dirty: true,
                ..o
            })
            &&& f.report_email_input@ == input && f.report_email_filter@ == input
            &&& r == Action::OpenReport
        },
        Key::Tab => if ac.len() == 1 {
            &&& f == (AppState {
                report_email_input: f.report_email_input,
                report_email_filter: f.report_email_filter,
                mode: AppMode::Report,
                dirty: true,
                ..o
            })
            &&& f.report_email_input@ == ac[0]@ && f.report_email_filter@ == ac[0]@
            &&& r == Action::OpenReport
        } else if ac.len() > 1 {
            let idx: usize = if o.report_ac_idx + 1 >= ac.len() { 0 } else { (o.report_ac_idx + 1) as usize };
            &&& f == (AppState { report_ac_idx: idx, report_email_input: f.report_email_input, dirty: true, ..o })
            &&& f.report_email_input@ == ac[idx as int]@
            &&& r == Action::Nothing
        } else {
            f == o && r == Action::Nothing
        },
        Key::Esc => {
            &&& f == (AppState { report_email_input: f.report_email_input, mode: AppMode::Report, dirty: true, ..o })
            &&& f.report_email_input@.len() == 0 && r == Action::Nothing
        },
        Key::Backspace | Key::Char(_) => {
            &&& f == (AppState { report_email_input: f.report_email_input, report_ac_idx: 0, dirty: true, ..o })
            &&& f.report_email_input@ == typed(o.report_email_input@, key) && r == Action::Nothing
        },
        _ => f == o && r == Action::Nothing,
    }
}

pub fn handle_report_filter_key(app: &mut AppState, key: Key) -> (r: Action)
    ensures
        report_filter_post(*old(app), *final(app), key, r),
{
    let n = app.report_ac_list.len();
    match key {
        Key::Enter => {
            if n > 0 {
                app.report_email_input = app.report_ac_list[0].clone();
            }
            app.report_email_filter = app.report_email_input.clone();
            app.mode = AppMode::Report;
            app.dirty = true;
            Action::OpenReport
        },
        Key::Tab => {
            if n == 1 {
                app.report_email_input = app.report_ac_list[0].clone();
                app.report_email_filter = app.report_email_input.clone();
                app.mode = AppMode::Report;
                app.dirty = true;
                Action::OpenReport
            } else if n > 1 {
                app.report_ac_idx = if app.report_ac_idx >= n - 1 { 0 } else { app.report_ac_idx + 1 };
                app.report_email_input = app.report_ac_list[app.report_ac_idx].clone();
                app.dirty = true;
                Action::Nothing
            } else {
                Action::Nothing
            }
        },
        Key::Esc => {
            clear_string(&mut app.report_email_input);
            app.mode = AppMode::Report;
            app.dirty = true;
            Action::Nothing
        },
        Key::Backspace => {
            pop_char(&mut app.report_email_input);
            app.report_ac_idx = 0;
            app.dirty = true;
            Action::Nothing
        },
        Key::Char(c) => {
            push_char(&mut app.report_email_input, c);
            app.report_ac_idx = 0;
            app.dirty = true;
            Action::Nothing
        },
        _ => Action::Nothing,
    }
}

// ── Repository list ─────────────────────────────────────────────────────────

/// What the repository keys need so as not to overflow.
pub open spec fn repos_room(app: AppState, key: Key) -> bool {
    list_room(app.repos_cursor, app.repos_scroll, app.term_h, key)
}

/// What a key does in the repository list.
pub open spec fn repos_key_post(o: AppState, f: AppState, key: Key, r: Action) -> bool {
    let n = o.repos@.len();
    if is_move_key(key) {
        let (c, s) = list_moved(o.repos_cursor, o.repos_scroll, n, o.term_h, key);
        f == (AppState { repos_cursor: c, repos_scroll: s, dirty: true, ..o }) && r == Action::Nothing
    } else {
        match key {
            Key::Char('g') => f == (AppState { repos_cursor: 0, dirty: true, ..o }) && r == Action::Nothing,
            Key::Char('G') => f == (AppState { repos_cursor: sat_sub(n as int, 1), dirty: true, ..o }) && r == Action::Nothing,
            Key::Enter => if o.repos_cursor < n {
                if o.repos@[o.repos_cursor as int].error is None {
                    f == (AppState { dirty: true, ..o }) && r == Action::SwitchRepo(o.repos_cursor)
                } else {
                    &&& f == (AppState { msg: f.msg, msg_new: true, dirty: true, ..o })
                    &&& f.msg@ == "Cannot switch: repository is invalid"@
                    &&& r == Action::Nothing
                }
            } else {
                f == (AppState { dirty: true, ..o }) && r == Action::Nothing
            },
            Key::Char('a') => f == o && r == Action::FillRepoPathFromCwd,
            Key::Char('s') => f == o && r == Action::ScanRepos,
            Key::Char('x') => if o.repos_cursor < n {
                let rest = o.repos@.remove(o.repos_cursor as int);
                let c = if o.repos_cursor >= rest.len() && rest.len() > 0 { (rest.len() - 1) as usize } else { o.repos_cursor };
                &&& f == (AppState { repos: f.repos, repos_cursor: c, msg: f.msg, msg_new: true, dirty: true, ..o })
                &&& f.repos@ == rest
                &&& f.msg@ == "Removed "@ + o.repos@[o.repos_cursor as int].name@
                &&& r == Action::Nothing
            } else {
                f == (AppState { dirty: true, ..o }) && r == Action::Nothing
            },
            Key::Char('q') | Key::Esc => f == (AppState { mode: AppMode::Tree, dirty: true, ..o }) && r == Action::Nothing,
            _ => f == o && r == Action::Nothing,
        }
    }
}

pub fn handle_repos_key(app: &mut AppState, key: Key) -> (r: Action)
    requires
        repos_room(*old(app), key),
    ensures
        repos_key_post(*old(app), *final(app), key, r),
{
    let n = app.repos.len();
    if is_move_key_exec(key) {
        let (c, s) = list_move(app.repos_cursor, app.repos_scroll, n, app.term_h, key);
        app.repos_cursor = c;
        app.repos_scroll = s;
        app.dirty = true;
        return Action::Nothing;
    }
    match key {
        Key::Char('g') => {
            app.repos_cursor = 0;
            app.dirty = true;
            Action::Nothing
        },
        Key::Char('G') => {
            app.repos_cursor = if n >= 1 { n - 1 } else { 0 };
            app.dirty = true;
            Action::Nothing
        },
        Key::Enter => {
            let r = if app.repos_cursor < n {
                if app.repos[app.repos_cursor].is_valid() {
                    Action::SwitchRepo(app.repos_cursor)
                } else {
                    proof {
                        reveal_strlit("Cannot switch: repository is invalid");
                    }
                    show_msg(app, "Cannot switch: repository is invalid");
                    Action::Nothing
                }
            } else {
                Action::Nothing
            };
            app.dirty = true;
            r
        },
        Key::Char('a') => Action::FillRepoPathFromCwd,
        Key::Char('s') => Action::ScanRepos,
        Key::Char('x') => {
            if app.repos_cursor < n {
                let removed = app.repos.remove(app.repos_cursor);
                app.msg = concat2("Removed ", removed.name.as_str());
                app.msg_new = true;
                let m = app.repos.len();
                if app.repos_cursor >= m && m > 0 {
                    app.repos_cursor = m - 1;
                }
            }
            app.dirty = true;
            Action::Nothing
        },
        Key::Char('q') | Key::Esc => {
            app.mode = AppMode::Tree;
            app.dirty = true;
            Action::Nothing
        },
        _ => Action::Nothing,
    }
}

/// What a key does while a repository path is typed.
pub open spec fn repos_add_post(o: AppState, f: AppState, key: Key, r: Action) -> bool {
    match key {
        Key::Enter => f == o && (r matches Action::AddRepo(p) && p@ == o.repos_add_input@),
        Key::Tab => f == o && r == Action::CompleteRepoPath,
        Key::Esc => {
            &&& f == (AppState { repos_add_input: f.repos_add_input, mode: AppMode::Repos, dirty: true, ..o })
            &&& f.repos_add_input@.len() == 0 && r == Action::Nothing
        },
        Key::Backspace | Key::Char(_) => {
            &&& f == (AppState { repos_add_input: f.repos_add_input, dirty: true, ..o })
            &&& f.repos_add_input@ == typed(o.repos_add_input@, key) && r == Action::Nothing
        },
        _ => f == o && r == Action::Nothing,
    }
}

pub fn handle_repos_add_key(app: &mut AppState, key: Key) -> (r: Action)
    ensures
        repos_add_post(*old(app), *final(app), key, r),
{
    match key {
        Key::Enter => Action::AddRepo(app.repos_add_input.clone()),
        Key::Tab => Action::CompleteRepoPath,
        Key::Esc => {
            clear_string(&mut app.repos_add_input);
            app.mode = AppMode::Repos;
            app.dirty = true;
            Action::Nothing
        },
        Key::Backspace => {
            pop_char(&mut app.repos_add_input);
            app.dirty = true;
            Action::Nothing
        },
        Key::Char(c) => {
            push_char(&mut app.repos_add_input, c);
            app.dirty = true;
            Action::Nothing
        },
        _ => Action::Nothing,
    }
}

} // verus!

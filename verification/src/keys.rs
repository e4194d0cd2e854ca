//! What each key does to the state of the view that has the keyboard. Work that
//! needs the outside world (git, GitHub, the clipboard, the file system) is
//! returned as an action for the caller to perform.
use vstd::prelude::*;
use crate::state::{AppMode, AppState, RenderLine, show_msg};
use crate::render::{
    build_render_buffer, data_ready, lemma_data_ready_renders, lines_point_in, render_view, rendered,
};
use crate::graph::{build_desc_set, commits_view, is_descendant_set};
use crate::text::{
    byte_prefix, byte_prefix_chars, chars_of, clear_string, concat3, pop_char, popped, push_char, push_str,
    split_lines, string_of, text_lines,
};
use crate::issues::strings_view;
use crate::view_keys::{scroll_room, scroll_step};

verus! {

/// A key press, as the views tell keys apart.
#[derive(Clone, Copy, PartialEq, Eq, Debug, Structural)]
pub enum Key {
    Char(char),
    Enter,
    Esc,
    Backspace,
    Tab,
    Up,
    Down,
    PageUp,
    PageDown,
    Home,
    End,
    Other,
}

/// Work left to the caller after a key.
#[derive(Debug)]
pub enum Action {
    Nothing,
    Quit,
    OpenDiff(usize),
    OpenFiles(usize),
    CopyCommitHash(usize),
    LastWeekDates,
    OpenReport,
    OpenIssuesView,
    OpenGists,
    StartCreateIssue,
    StartEditIssue,
    OpenIssueDetail,
    DeleteIssue,
    SubmitIssue,
    UpdateIssue,
    OpenImages(Vec<String>),
    CopyGist(String),
    OpenGistContent(String),
    SwitchRepo(usize),
    FillRepoPathFromCwd,
    ScanRepos,
    AddRepo(String),
    CompleteRepoPath,
    UpdateReportCompletions,
}

// ── Tree cursor ─────────────────────────────────────────────────────────────

pub open spec fn ci_at(lines: Seq<RenderLine>, idx: int) -> Option<usize> {
    if 0 <= idx < lines.len() { lines[idx].commit_idx } else { None }
}

/// The first line at or after `n` that belongs to another commit than `ci`.
pub open spec fn next_other(lines: Seq<RenderLine>, n: int, ci: Option<usize>) -> int
    decreases lines.len() - n,
{
    if 0 <= n < lines.len() && lines[n].commit_idx == ci {
        next_other(lines, n + 1, ci)
    } else {
        n
    }
}

/// Going up from `n`: the first line at or before `n` of another commit than
/// `ci`, or line 0.
pub open spec fn prev_other(lines: Seq<RenderLine>, n: int, ci: Option<usize>) -> int
    decreases n,
{
    if n <= 0 || lines[n].commit_idx != ci {
        if n < 0 { 0 } else { n }
    } else {
        prev_other(lines, n - 1, ci)
    }
}

/// Going down from `n` over at most five changes of commit, stopping at the last
/// line.
pub open spec fn jump_down(lines: Seq<RenderLine>, n: int, ci: Option<usize>, cnt: int) -> int
    decreases lines.len() - n,
{
    if cnt < 5 && n < lines.len() - 1 && n >= -1 {
        let n1 = n + 1;
        if lines[n1].commit_idx != ci {
            jump_down(lines, n1, lines[n1].commit_idx, cnt + 1)
        } else {
            jump_down(lines, n1, ci, cnt)
        }
    } else {
        n
    }
}

/// Going up from `n` (started at `start`) over at most five changes of commit:
/// on the first step up it stops unless the commit changed.
pub open spec fn jump_up(lines: Seq<RenderLine>, n: int, ci: Option<usize>, cnt: int, start: int) -> int
    decreases n,
{
    if n <= 0 {
        n
    } else {
        let n1 = n - 1;
        let changed = lines[n1].commit_idx != ci;
        let ci1 = if changed { lines[n1].commit_idx } else { ci };
        let cnt1 = if changed { cnt + 1 } else { cnt };
        if cnt1 >= 5 {
            n1
        } else if cnt1 > 0 || n1 == start {
            jump_up(lines, n1, ci1, cnt1, start)
        } else {
            n1
        }
    }
}

proof fn lemma_next_other_bounds(lines: Seq<RenderLine>, n: int, ci: Option<usize>)
    ensures
        n <= next_other(lines, n, ci),
        n <= lines.len() ==> next_other(lines, n, ci) <= lines.len(),
    decreases lines.len() - n,
{
    if 0 <= n < lines.len() && lines[n].commit_idx == ci {
        lemma_next_other_bounds(lines, n + 1, ci);
    }
}

proof fn lemma_prev_other_bounds(lines: Seq<RenderLine>, n: int, ci: Option<usize>)
    ensures
        n >= 0 ==> 0 <= prev_other(lines, n, ci) <= n,
    decreases n,
{
    if n > 0 && lines[n].commit_idx == ci {
        lemma_prev_other_bounds(lines, n - 1, ci);
    }
}

proof fn lemma_jump_down_bounds(lines: Seq<RenderLine>, n: int, ci: Option<usize>, cnt: int)
    requires
        0 <= n < lines.len(),
    ensures
        n <= jump_down(lines, n, ci, cnt) < lines.len(),
    decreases lines.len() - n,
{
    if cnt < 5 && n < lines.len() - 1 {
        let n1 = n + 1;
        if lines[n1].commit_idx != ci {
            lemma_jump_down_bounds(lines, n1, lines[n1].commit_idx, cnt + 1);
        } else {
            lemma_jump_down_bounds(lines, n1, ci, cnt);
        }
    }
}

proof fn lemma_jump_up_bounds(lines: Seq<RenderLine>, n: int, ci: Option<usize>, cnt: int, start: int)
    requires
        0 <= n,
    ensures
        0 <= jump_up(lines, n, ci, cnt, start) <= n,
    decreases n,
{
    if n > 0 {
        let n1 = n - 1;
        let changed = lines[n1].commit_idx != ci;
        let ci1 = if changed { lines[n1].commit_idx } else { ci };
        let cnt1 = if changed { cnt + 1 } else { cnt };
        if cnt1 < 5 && (cnt1 > 0 || n1 == start) {
            lemma_jump_up_bounds(lines, n1, ci1, cnt1, start);
        }
    }
}

/// The cursor keys keep the tree cursor on a line of the tree (the page keys
/// on a screen of at least four rows, the height that the tree's frame takes).
pub proof fn law_cursor_keys_stay_on_lines(lines: Seq<RenderLine>, c: isize, term_h: u16, key: Key)
    requires
        0 <= c < lines.len(),
        lines.len() <= isize::MAX,
        term_h >= 4,
        is_cursor_key(key),
    ensures
        0 <= cursor_after(lines, c, term_h, key) < lines.len(),
{
    let u = c as usize as int;
    assert(u == c);
    lemma_next_other_bounds(lines, u + 1, ci_at(lines, u));
    lemma_prev_other_bounds(lines, if u >= 1 { u - 1 } else { 0 }, ci_at(lines, u));
    lemma_jump_down_bounds(lines, u, ci_at(lines, u), 0);
    lemma_jump_up_bounds(lines, u, ci_at(lines, u), 0, u);
}

fn next_other_exec(lines: &Vec<RenderLine>, n: usize, ci: Option<usize>) -> (r: usize)
    ensures
        r == next_other(lines@, n as int, ci),
{
    let mut k = n;
    while k < lines.len() && lines[k].commit_idx == ci
        invariant
            n <= k,
            next_other(lines@, k as int, ci) == next_other(lines@, n as int, ci),
        decreases lines@.len() - k,
    {
        k = k + 1;
    }
    k
}

/// The new tree cursor after `j`: the first line of the next commit, if any.
pub open spec fn tree_down(lines: Seq<RenderLine>, cursor: isize) -> isize {
    let ci = ci_at(lines, cursor as usize as int);
    let n = next_other(lines, (cursor + 1) as usize as int, ci);
    if n < lines.len() { n as isize } else { cursor }
}

/// The new tree cursor after `k`.
pub open spec fn tree_up(lines: Seq<RenderLine>, cursor: isize) -> isize {
    let u = cursor as usize as int;
    let ci = ci_at(lines, u);
    let n = prev_other(lines, if u >= 1 { u - 1 } else { 0 }, ci);
    if lines[n].commit_idx != ci { n as isize } else { cursor }
}

pub open spec fn tree_page_up(cursor: isize, term_h: u16) -> isize {
    let c = cursor - (term_h as int - 4);
    if c < 0 { 0 } else { c as isize }
}

pub open spec fn tree_page_down(cursor: isize, term_h: u16, len: nat) -> isize {
    let c = cursor + (term_h as int - 4);
    let max: int = if len == 0 { 0 } else { len - 1 };
    if c > max { max as isize } else { c as isize }
}

pub open spec fn last_line(len: nat) -> isize {
    (if len == 0 { 0 } else { len - 1 }) as isize
}

/// What a cursor key needs so as not to fail: indexes in range and no overflow.
pub open spec fn tree_cursor_key_ok(app: AppState, key: Key) -> bool {
    let len = app.render_lines@.len();
    let u = app.cursor as usize as int;
    match key {
        Key::Char('j') | Key::Down => app.cursor < isize::MAX,
        Key::Char('k') | Key::Up => (if u >= 1 { u - 1 } else { 0 }) < len,
        Key::Char('J') => len >= 1,
        Key::Char('K') => u <= len,
        Key::PageUp => isize::MIN <= app.cursor - (app.term_h as int - 4) <= isize::MAX,
        Key::PageDown => isize::MIN <= app.cursor + (app.term_h as int - 4) <= isize::MAX && len <= isize::MAX,
        Key::Char('G') | Key::End => len <= isize::MAX,
        _ => true,
    }
}

/// The tree cursor after a cursor key.
pub open spec fn cursor_after(lines: Seq<RenderLine>, c: isize, term_h: u16, key: Key) -> isize {
    match key {
        Key::Char('j') | Key::Down => tree_down(lines, c),
        Key::Char('k') | Key::Up => tree_up(lines, c),
        Key::Char('J') => jump_down(lines, c as usize as int, ci_at(lines, c as usize as int), 0) as usize as isize,
        Key::Char('K') => {
            let u = c as usize as int;
            let n = jump_up(lines, u, ci_at(lines, u), 0, u);
            if n != u { n as usize as isize } else { c }
        },
        Key::Char('g') | Key::Home => 0,
        Key::Char('G') | Key::End => last_line(lines.len()),
        Key::PageUp => tree_page_up(c, term_h),
        Key::PageDown => tree_page_down(c, term_h, lines.len()),
        _ => c,
    }
}

fn tree_cursor_key(app: &mut AppState, key: Key)
    requires
        tree_cursor_key_ok(*old(app), key),
    ensures
        *final(app) == (AppState {
            cursor: cursor_after(old(app).render_lines@, old(app).cursor, old(app).term_h, key),
            dirty: true,
            ..*old(app)
        }),
{
    let len = app.render_lines.len();
    let u = app.cursor as usize;
    match key {
        Key::Char('j') | Key::Down => {
            let ci = if u < len { app.render_lines[u].commit_idx } else { None };
            let n = next_other_exec(&app.render_lines, (app.cursor + 1) as usize, ci);
            if n < len {
                app.cursor = n as isize;
            }
        },
        Key::Char('k') | Key::Up => {
            let ci = if u < len { app.render_lines[u].commit_idx } else { None };
            let mut n = if u >= 1 { u - 1 } else { 0 };
            let ghost n0 = n as int;
            while n > 0 && app.render_lines[n].commit_idx == ci
                invariant
                    n < len,
                    len == app.render_lines@.len(),
                    prev_other(app.render_lines@, n as int, ci) == prev_other(app.render_lines@, n0, ci),
                decreases n,
            {
                n = n - 1;
            }
            if app.render_lines[n].commit_idx != ci {
                app.cursor = n as isize;
            }
        },
        Key::Char('J') => {
            let mut cnt: usize = 0;
            let mut ci = if u < len { app.render_lines[u].commit_idx } else { None };
            let mut n = u;
            let ghost ci0 = ci;
            while cnt < 5 && n < len - 1
                invariant
                    len == app.render_lines@.len(),
                    len >= 1,
                    jump_down(app.render_lines@, n as int, ci, cnt as int) == jump_down(
                        app.render_lines@,
                        u as int,
                        ci0,
                        0,
                    ),
                    cnt <= 5,
                decreases len - n,
            {
                n = n + 1;
                if app.render_lines[n].commit_idx != ci {
                    ci = app.render_lines[n].commit_idx;
                    cnt = cnt + 1;
                }
            }
            app.cursor = n as isize;
        },
        Key::Char('K') => {
            let mut cnt: usize = 0;
            let mut ci = if u < len { app.render_lines[u].commit_idx } else { None };
            let mut n = u;
            let ghost ci0 = ci;
            loop
                invariant_except_break
                    n <= u,
                    u <= len,
                    len == app.render_lines@.len(),
                    cnt < 5,
                    cnt > 0 || n == u,
                    jump_up(app.render_lines@, n as int, ci, cnt as int, u as int) == jump_up(
                        app.render_lines@,
                        u as int,
                        ci0,
                        0,
                        u as int,
                    ),
                ensures
                    n as int == jump_up(app.render_lines@, u as int, ci0, 0, u as int),
                decreases n,
            {
                if n == 0 {
                    break;
                }
                n = n - 1;
                if app.render_lines[n].commit_idx != ci {
                    ci = app.render_lines[n].commit_idx;
                    cnt = cnt + 1;
                }
                if cnt >= 5 {
                    break;
                }
                if !(cnt > 0 || n == u) {
                    break;
                }
            }
            if n != u {
                app.cursor = n as isize;
            }
        },
        Key::Char('g') | Key::Home => {
            app.cursor = 0;
        },
        Key::Char('G') | Key::End => {
            app.cursor = (if len == 0 { 0 } else { len - 1 }) as isize;
        },
        Key::PageUp => {
            app.cursor = app.cursor - ((app.term_h as isize) - 4);
            if app.cursor < 0 {
                app.cursor = 0;
            }
        },
        Key::PageDown => {
            app.cursor = app.cursor + ((app.term_h as isize) - 4);
            let max = (if len == 0 { 0 } else { len - 1 }) as isize;
            if app.cursor > max {
                app.cursor = max;
            }
        },
        _ => {},
    }
    app.dirty = true;
}


// ── Tree view ───────────────────────────────────────────────────────────────

/// The commit of the line under the tree cursor, if any.
pub open spec fn selected(app: AppState) -> Option<usize> {
    if app.cursor >= 0 { ci_at(app.render_lines@, app.cursor as int) } else { None }
}

fn selected_exec(app: &AppState) -> (r: Option<usize>)
    ensures
        r == selected(*app),
{
    if app.cursor >= 0 && (app.cursor as usize) < app.render_lines.len() {
        app.render_lines[app.cursor as usize].commit_idx
    } else {
        None
    }
}

/// Whether a key moves the tree cursor.
pub open spec fn is_cursor_key(key: Key) -> bool {
    match key {
        Key::Char('j') | Key::Down | Key::Char('k') | Key::Up | Key::Char('J') | Key::Char('K')
        | Key::Char('g') | Key::Home | Key::Char('G') | Key::End | Key::PageUp | Key::PageDown => true,
        _ => false,
    }
}

fn is_cursor_key_exec(key: Key) -> (r: bool)
    ensures
        r == is_cursor_key(key),
{
    match key {
        Key::Char('j') | Key::Down | Key::Char('k') | Key::Up | Key::Char('J') | Key::Char('K')
        | Key::Char('g') | Key::Home | Key::Char('G') | Key::End | Key::PageUp | Key::PageDown => true,
        _ => false,
    }
}

/// Whether a tree key reads or redraws the tree: the cursor keys and those
/// that act on the selected commit or on the filters of the drawn tree.
pub open spec fn tree_key_draws(key: Key) -> bool {
    is_cursor_key(key) || match key {
        Key::Char('m') | Key::Char('c') | Key::Char('o') | Key::Enter | Key::Esc | Key::Char('d')
        | Key::Char('f') | Key::Char('y') | Key::Char('D') => true,
        _ => false,
    }
}

pub fn tree_key_draws_exec(key: Key) -> (r: bool)
    ensures
        r == tree_key_draws(key),
{
    is_cursor_key_exec(key) || match key {
        Key::Char('m') | Key::Char('c') | Key::Char('o') | Key::Enter | Key::Esc | Key::Char('d')
        | Key::Char('f') | Key::Char('y') | Key::Char('D') => true,
        _ => false,
    }
}

/// Rebuilds the tree lines of a state whose git data is ready.
fn rerender(app: &mut AppState)
    requires
        data_ready(*old(app)),
    ensures
        *final(app) == (AppState { render_lines: final(app).render_lines, ..*old(app) }),
        render_view(final(app).render_lines@) == rendered(*old(app)),
        lines_point_in(*final(app)),
{
    proof {
        lemma_data_ready_renders(*app);
    }
    build_render_buffer(app);
}

/// What a tree key other than the cursor keys does: `o` is the state before the
/// key, `f` after it, and `r` the work left to the caller.
pub open spec fn tree_key_post(o: AppState, f: AppState, key: Key, r: Action) -> bool {
    match key {
        Key::Char('q') | Key::Char('Q') => f == o && r == Action::Quit,
        Key::Char('a') => {
            &&& f == (AppState {
                show_all: !o.show_all,
                branch_filter: f.branch_filter,
                filter_text: f.filter_text,
                descendant_filter: f.descendant_filter,
                refresh: true,
                ..o
            })
            &&& f.branch_filter@.len() == 0 && f.filter_text@.len() == 0
            &&& f.descendant_filter@.len() == 0
            &&& r == Action::Nothing
        },
        Key::Char('m') => {
            let mid = AppState { show_meta: !o.show_meta, ..o };
            &&& f == (AppState { render_lines: f.render_lines, dirty: true, ..mid })
            &&& render_view(f.render_lines@) == rendered(mid)
            &&& r == Action::Nothing
        },
        Key::Char('c') => {
            let mid = AppState { compact: !o.compact, ..o };
            &&& f == (AppState { render_lines: f.render_lines, dirty: true, ..mid })
            &&& render_view(f.render_lines@) == rendered(mid)
            &&& r == Action::Nothing
        },
        Key::Char('+') => {
            let c = if o.count + 10 < 200 { (o.count + 10) as usize } else { 200 };
            f == (AppState { count: c, refresh: true, ..o }) && r == Action::Nothing
        },
        Key::Char('-') => {
            &&& (o.count > 10 ==> f == (AppState { count: (o.count - 10) as usize, refresh: true, ..o }))
            &&& (o.count <= 10 ==> f == o)
            &&& r == Action::Nothing
        },
        Key::Char('b') => f == (AppState { mode: AppMode::SidebarFocus, branch_idx: 0, dirty: true, ..o })
            && r == Action::Nothing,
        Key::Char('0') => {
            &&& f == (AppState {
                branch_filter: f.branch_filter,
                filter_text: f.filter_text,
                descendant_filter: f.descendant_filter,
                descendant_set: f.descendant_set,
                date_from: f.date_from,
                date_to: f.date_to,
                refresh: true,
                ..o
            })
            &&& f.branch_filter@.len() == 0 && f.filter_text@.len() == 0
            &&& f.descendant_filter@.len() == 0 && f.date_from@.len() == 0 && f.date_to@.len() == 0
            &&& f.descendant_set@.len() == 0
            &&& r == Action::Nothing
        },
        Key::Char('/') => {
            &&& f == (AppState { filter_input: f.filter_input, mode: AppMode::TreeFilter, dirty: true, ..o })
            &&& f.filter_input@.len() == 0
            &&& r == Action::Nothing
        },
        Key::Char('o') | Key::Enter => {
            &&& r == Action::Nothing
            &&& match selected(o) {
                Some(ci) => {
                    let mid = AppState {
                        descendant_filter: f.descendant_filter,
                        descendant_set: f.descendant_set,
                        cursor: 0,
                        ..o
                    };
                    &&& f == (AppState { render_lines: f.render_lines, dirty: true, ..mid })
                    &&& f.descendant_filter@ == commits_view(o.commits@)[ci as int].hash
                    &&& f.descendant_filter@.len() > 0 ==> is_descendant_set(
                        commits_view(o.commits@),
                        f.descendant_filter@,
                        f.descendant_set@.map_values(|h: String| h@).to_set(),
                    )
                    &&& f.descendant_filter@.len() == 0 ==> f.descendant_set@.len() == 0
                    &&& render_view(f.render_lines@) == rendered(mid)
                },
                None => f == o,
            }
        },
        Key::Esc => {
            &&& r == Action::Nothing
            &&& if o.descendant_filter@.len() > 0 {
                let mid = AppState {
                    descendant_filter: f.descendant_filter,
                    descendant_set: f.descendant_set,
                    cursor: 0,
                    ..o
                };
                &&& f == (AppState { render_lines: f.render_lines, dirty: true, ..mid })
                &&& f.descendant_filter@.len() == 0 && f.descendant_set@.len() == 0
                &&& render_view(f.render_lines@) == rendered(mid)
            } else if o.date_from@.len() > 0 || o.date_to@.len() > 0 {
                let mid = AppState { date_from: f.date_from, date_to: f.date_to, cursor: 0, ..o };
                &&& f == (AppState { render_lines: f.render_lines, dirty: true, ..mid })
                &&& f.date_from@.len() == 0 && f.date_to@.len() == 0
                &&& render_view(f.render_lines@) == rendered(mid)
            } else {
                f == o
            }
        },
        Key::Char('d') | Key::Char('f') => match selected(o) {
            Some(ci) => f == (AppState { dirty: true, ..o }) && r == (if key == Key::Char('d') {
                Action::OpenDiff(ci)
            } else {
                Action::OpenFiles(ci)
            }),
            None => f == o && r == Action::Nothing,
        },
        Key::Char('y') => match selected(o) {
            Some(ci) => if o.clipboard_cmd is Some {
                f == (AppState { dirty: true, ..o }) && r == Action::CopyCommitHash(ci)
            } else {
                &&& f == (AppState { msg: f.msg, msg_new: true, dirty: true, ..o })
                &&& f.msg@ == "No clipboard tool found"@
                &&& r == Action::Nothing
            },
            None => f == (AppState { dirty: true, ..o }) && r == Action::Nothing,
        },
        Key::Char('D') => if o.date_from@.len() > 0 || o.date_to@.len() > 0 {
            let mid = AppState { date_from: f.date_from, date_to: f.date_to, msg: f.msg, msg_new: true, cursor: 0, ..o };
            &&& f == (AppState { render_lines: f.render_lines, dirty: true, ..mid })
            &&& f.date_from@.len() == 0 && f.date_to@.len() == 0
            &&& f.msg@ == "Date filter cleared"@
            &&& render_view(f.render_lines@) == rendered(mid)
            &&& r == Action::Nothing
        } else {
            f == o && r == Action::LastWeekDates
        },
        Key::Char('?') => f == (AppState { mode: AppMode::Help, dirty: true, ..o }) && r == Action::Nothing,
        Key::Char('R') => f == (AppState { dirty: true, ..o }) && r == Action::OpenReport,
        Key::Char('r') => f == (AppState { refresh: true, ..o }) && r == Action::Nothing,
        Key::Char('i') => f == (AppState { dirty: true, ..o }) && r == Action::OpenIssuesView,
        Key::Char('P') => f == (AppState { mode: AppMode::Repos, dirty: true, ..o }) && r == Action::Nothing,
        Key::Char('\'') => f == (AppState { dirty: true, ..o }) && r == Action::OpenGists,
        _ => f == o && r == Action::Nothing,
    }
}

fn tree_toggle_key(app: &mut AppState, key: Key) -> (r: Action)
    requires
        key == Key::Char('q') || key == Key::Char('Q') || key == Key::Char('a') || key == Key::Char('+') || key == Key::Char('-') || key == Key::Char('b') || key == Key::Char('0') || key == Key::Char('/'),
    ensures
        tree_key_post(*old(app), *final(app), key, r),
        data_ready(*old(app)) ==> data_ready(*final(app)),
{
    match key {
        Key::Char('q') | Key::Char('Q') => Action::Quit,
        Key::Char('a') => {
            app.show_all = !app.show_all;
            clear_string(&mut app.branch_filter);
            clear_string(&mut app.filter_text);
            clear_string(&mut app.descendant_filter);
            app.refresh = true;
            Action::Nothing
        },
        Key::Char('+') => {
            app.count = if app.count < 190 { app.count + 10 } else { 200 };
            app.refresh = true;
            Action::Nothing
        },
        Key::Char('-') => {
            if app.count > 10 {
                app.count = app.count - 10;
                app.refresh = true;
            }
            Action::Nothing
        },
        Key::Char('b') => {
            app.mode = AppMode::SidebarFocus;
            app.branch_idx = 0;
            app.dirty = true;
            Action::Nothing
        },
        Key::Char('0') => {
            clear_string(&mut app.branch_filter);
            clear_string(&mut app.filter_text);
            clear_string(&mut app.descendant_filter);
            clear_string(&mut app.date_from);
            clear_string(&mut app.date_to);
            app.descendant_set = Vec::new();
            app.refresh = true;
            Action::Nothing
        },
        Key::Char('/') => {
            clear_string(&mut app.filter_input);
            app.mode = AppMode::TreeFilter;
            app.dirty = true;
            Action::Nothing
        },
        _ => Action::Nothing,
    }
}

fn tree_mode_key(app: &mut AppState, key: Key) -> (r: Action)
    requires
        key == Key::Char('?') || key == Key::Char('R') || key == Key::Char('r') || key == Key::Char('i') || key == Key::Char('P') || key == Key::Char('\''),
    ensures
        tree_key_post(*old(app), *final(app), key, r),
        data_ready(*old(app)) ==> data_ready(*final(app)),
{
    match key {
        Key::Char('?') => {
            app.mode = AppMode::Help;
            app.dirty = true;
            Action::Nothing
        },
        Key::Char('R') => {
            app.dirty = true;
            Action::OpenReport
        },
        Key::Char('r') => {
            app.refresh = true;
            Action::Nothing
        },
        Key::Char('i') => {
            app.dirty = true;
            Action::OpenIssuesView
        },
        Key::Char('P') => {
            app.mode = AppMode::Repos;
            app.dirty = true;
            Action::Nothing
        },
        Key::Char('\'') => {
            app.dirty = true;
            Action::OpenGists
        },
        _ => Action::Nothing,
    }
}

fn tree_redraw_key(app: &mut AppState, key: Key) -> (r: Action)
    requires
        data_ready(*old(app)),
        key == Key::Char('m') || key == Key::Char('c'),
    ensures
        tree_key_post(*old(app), *final(app), key, r),
        data_ready(*final(app)),
{
    match key {
        Key::Char('m') => {
            app.show_meta = !app.show_meta;
            rerender(app);
            app.dirty = true;
            Action::Nothing
        },
        Key::Char('c') => {
            app.compact = !app.compact;
            rerender(app);
            app.dirty = true;
            Action::Nothing
        },
        _ => Action::Nothing,
    }
}

#[verifier::rlimit(40)]
fn tree_descend_key(app: &mut AppState, key: Key) -> (r: Action)
    requires
        data_ready(*old(app)),
        lines_point_in(*old(app)),
        key == Key::Char('o') || key == Key::Enter,
    ensures
        tree_key_post(*old(app), *final(app), key, r),
        data_ready(*final(app)),
{
    match key {
        Key::Char('o') | Key::Enter => {
            match selected_exec(app) {
                Some(ci) => {
                    let h = app.commits[ci].hash.clone();
                    let set = build_desc_set(&app.commits, &h);
                    app.descendant_filter = h;
                    app.descendant_set = set;
                    app.cursor = 0;
                    rerender(app);
                    app.dirty = true;
                },
                None => {},
            }
            Action::Nothing
        },
        _ => Action::Nothing,
    }
}

#[verifier::rlimit(40)]
fn tree_esc_key(app: &mut AppState, key: Key) -> (r: Action)
    requires
        data_ready(*old(app)),
        key == Key::Esc,
    ensures
        tree_key_post(*old(app), *final(app), key, r),
        data_ready(*final(app)),
{
    match key {
        Key::Esc => {
            if app.descendant_filter.as_str().unicode_len() > 0 {
                clear_string(&mut app.descendant_filter);
                app.descendant_set = Vec::new();
                app.cursor = 0;
                rerender(app);
                app.dirty = true;
            } else if app.date_from.as_str().unicode_len() > 0 || app.date_to.as_str().unicode_len() > 0 {
                clear_string(&mut app.date_from);
                clear_string(&mut app.date_to);
                app.cursor = 0;
                rerender(app);
                app.dirty = true;
            }
            Action::Nothing
        },
        _ => Action::Nothing,
    }
}

fn tree_commit_key(app: &mut AppState, key: Key) -> (r: Action)
    requires
        data_ready(*old(app)),
        key == Key::Char('d') || key == Key::Char('f') || key == Key::Char('y'),
    ensures
        tree_key_post(*old(app), *final(app), key, r),
        data_ready(*final(app)),
{
    match key {
        Key::Char('d') | Key::Char('f') => {
            match selected_exec(app) {
                Some(ci) => {
                    app.dirty = true;
                    if key == Key::Char('d') { Action::OpenDiff(ci) } else { Action::OpenFiles(ci) }
                },
                None => Action::Nothing,
            }
        },
        Key::Char('y') => {
            app.dirty = true;
            match selected_exec(app) {
                Some(ci) => {
                    if app.clipboard_cmd.is_some() {
                        Action::CopyCommitHash(ci)
                    } else {
                        show_msg(app, "No clipboard tool found");
                        app.dirty = true;
                        Action::Nothing
                    }
                },
                None => Action::Nothing,
            }
        },
        _ => Action::Nothing,
    }
}

#[verifier::rlimit(40)]
fn tree_dates_key(app: &mut AppState, key: Key) -> (r: Action)
    requires
        data_ready(*old(app)),
        key == Key::Char('D'),
    ensures
        tree_key_post(*old(app), *final(app), key, r),
        data_ready(*final(app)),
{
    match key {
        Key::Char('D') => {
            if app.date_from.as_str().unicode_len() > 0 || app.date_to.as_str().unicode_len() > 0 {
                clear_string(&mut app.date_from);
                clear_string(&mut app.date_to);
                show_msg(app, "Date filter cleared");
                app.cursor = 0;
                rerender(app);
                app.dirty = true;
                Action::Nothing
            } else {
                Action::LastWeekDates
            }
        },
        _ => Action::Nothing,
    }
}

/// The tree keys other than the cursor keys.
fn tree_view_key(app: &mut AppState, key: Key) -> (r: Action)
    requires
        tree_key_draws(key) ==> data_ready(*old(app)) && lines_point_in(*old(app)),
        !is_cursor_key(key),
    ensures
        tree_key_post(*old(app), *final(app), key, r),
        data_ready(*old(app)) ==> data_ready(*final(app)),
{
    match key {
        Key::Char('q') | Key::Char('Q') | Key::Char('a') | Key::Char('+') | Key::Char('-')
        | Key::Char('b') | Key::Char('0') | Key::Char('/') => tree_toggle_key(app, key),
        Key::Char('?') | Key::Char('R') | Key::Char('r') | Key::Char('i') | Key::Char('P')
        | Key::Char('\'') => tree_mode_key(app, key),
        Key::Char('m') | Key::Char('c') => tree_redraw_key(app, key),
        Key::Char('o') | Key::Enter => tree_descend_key(app, key),
        Key::Esc => tree_esc_key(app, key),
        Key::Char('d') | Key::Char('f') | Key::Char('y') => tree_commit_key(app, key),
        Key::Char('D') => tree_dates_key(app, key),
        _ => Action::Nothing,
    }
}


/// The tree keys: the cursor keys move the cursor, the others are
/// [`tree_key_post`].
pub fn handle_tree_key(app: &mut AppState, key: Key) -> (r: Action)
    requires
        tree_key_draws(key) ==> data_ready(*old(app)) && lines_point_in(*old(app)) && tree_cursor_key_ok(
            *old(app),
            key,
        ),
    ensures
        data_ready(*old(app)) ==> data_ready(*final(app)),
        is_cursor_key(key) ==> *final(app) == (AppState {
            cursor: cursor_after(old(app).render_lines@, old(app).cursor, old(app).term_h, key),
            dirty: true,
            ..*old(app)
        }) && r == Action::Nothing,
        !is_cursor_key(key) ==> tree_key_post(*old(app), *final(app), key, r),
{
    if is_cursor_key_exec(key) {
        tree_cursor_key(app, key);
        Action::Nothing
    } else {
        tree_view_key(app, key)
    }
}

// ── Help ────────────────────────────────────────────────────────────────────

/// In the help view `?`, `q` and `Esc` go back to the tree; other keys do
/// nothing.
pub open spec fn help_key_post(o: AppState, f: AppState, key: Key) -> bool {
    if key == Key::Char('?') || key == Key::Char('q') || key == Key::Esc {
        f == (AppState { mode: AppMode::Tree, dirty: true, ..o })
    } else {
        f == o
    }
}

/// The keys of the help view.
pub fn handle_help_key(app: &mut AppState, key: Key)
    ensures
        help_key_post(*old(app), *final(app), key),
{
    match key {
        Key::Char('?') | Key::Char('q') | Key::Esc => {
            app.mode = AppMode::Tree;
            app.dirty = true;
        },
        _ => {},
    }
}

// ── Tree filter ─────────────────────────────────────────────────────────────

/// What a key does while the tree filter is typed.
pub open spec fn tree_filter_post(o: AppState, f: AppState, key: Key) -> bool {
    match key {
        Key::Enter => f == (AppState { mode: AppMode::Tree, dirty: true, ..o }),
        Key::Esc => {
            let mid = AppState { filter_input: f.filter_input, filter_text: f.filter_text, mode: AppMode::Tree, ..o };
            &&& f == (AppState { render_lines: f.render_lines, dirty: true, ..mid })
            &&& f.filter_input@.len() == 0 && f.filter_text@.len() == 0
            &&& render_view(f.render_lines@) == rendered(mid)
        },
        Key::Backspace | Key::Char(_) => {
            let input = match key {
                Key::Char(c) => o.filter_input@.push(c),
                _ => popped(o.filter_input@),
            };
            let mid = AppState { filter_input: f.filter_input, filter_text: f.filter_text, scroll: 0, ..o };
            &&& f == (AppState { render_lines: f.render_lines, dirty: true, ..mid })
            &&& f.filter_input@ == input && f.filter_text@ == input
            &&& render_view(f.render_lines@) == rendered(mid)
        },
        _ => f == o,
    }
}

#[verifier::rlimit(40)]
pub fn handle_tree_filter_key(app: &mut AppState, key: Key)
    requires
        data_ready(*old(app)),
    ensures
        data_ready(*final(app)),
        tree_filter_post(*old(app), *final(app), key),
{
    match key {
        Key::Enter => {
            app.mode = AppMode::Tree;
            app.dirty = true;
        },
        Key::Esc => {
            clear_string(&mut app.filter_input);
            clear_string(&mut app.filter_text);
            app.mode = AppMode::Tree;
            rerender(app);
            app.dirty = true;
        },
        Key::Backspace => {
            pop_char(&mut app.filter_input);
            app.filter_text = app.filter_input.clone();
            app.scroll = 0;
            rerender(app);
            app.dirty = true;
        },
        Key::Char(c) => {
            push_char(&mut app.filter_input, c);
            app.filter_text = app.filter_input.clone();
            app.scroll = 0;
            rerender(app);
            app.dirty = true;
        },
        _ => {},
    }
}

// ── Branch sidebar ──────────────────────────────────────────────────────────

/// The last index of a list of `n` (0 for none).
pub open spec fn last_index(n: nat) -> usize {
    if n == 0 { 0 } else { (n - 1) as usize }
}

/// What a key does while the branch list has the keyboard.
pub open spec fn sidebar_post(o: AppState, f: AppState, key: Key) -> bool {
    let nb = o.branches@.len();
    match key {
        Key::Char('j') | Key::Down => {
            let b = if o.branch_idx + 1 >= nb { last_index(nb) } else { (o.branch_idx + 1) as usize };
            f == (AppState { branch_idx: b, dirty: true, ..o })
        },
        Key::Char('k') | Key::Up => {
            let b = if o.branch_idx >= 1 { (o.branch_idx - 1) as usize } else { 0 };
            f == (AppState { branch_idx: b, dirty: true, ..o })
        },
        Key::Char('g') => f == (AppState { branch_idx: 0, dirty: true, ..o }),
        Key::Char('G') => f == (AppState { branch_idx: last_index(nb), dirty: true, ..o }),
        Key::Enter => {
            &&& f == (AppState { branch_filter: f.branch_filter, mode: AppMode::Tree, refresh: true, ..o })
            &&& f.branch_filter@ == (if o.branch_idx < nb { o.branches@[o.branch_idx as int].name@ } else { o.branch_filter@ })
        },
        Key::Char('0') => {
            &&& f == (AppState { branch_filter: f.branch_filter, mode: AppMode::Tree, refresh: true, ..o })
            &&& f.branch_filter@.len() == 0
        },
        Key::Esc | Key::Char('b') | Key::Char('q') => f == (AppState { mode: AppMode::Tree, dirty: true, ..o }),
        _ => f == o,
    }
}

pub fn handle_sidebar_key(app: &mut AppState, key: Key)
    ensures
        sidebar_post(*old(app), *final(app), key),
{
    let nb = app.branches.len();
    match key {
        Key::Char('j') | Key::Down => {
            if app.branch_idx >= nb || nb - app.branch_idx <= 1 {
                app.branch_idx = if nb == 0 { 0 } else { nb - 1 };
            } else {
                app.branch_idx = app.branch_idx + 1;
            }
            app.dirty = true;
        },
        Key::Char('k') | Key::Up => {
            app.branch_idx = if app.branch_idx >= 1 { app.branch_idx - 1 } else { 0 };
            app.dirty = true;
        },
        Key::Char('g') => {
            app.branch_idx = 0;
            app.dirty = true;
        },
        Key::Char('G') => {
            app.branch_idx = if nb == 0 { 0 } else { nb - 1 };
            app.dirty = true;
        },
        Key::Enter => {
            if app.branch_idx < nb {
                app.branch_filter = app.branches[app.branch_idx].name.clone();
            }
            app.mode = AppMode::Tree;
            app.refresh = true;
        },
        Key::Char('0') => {
            clear_string(&mut app.branch_filter);
            app.mode = AppMode::Tree;
            app.refresh = true;
        },
        Key::Esc | Key::Char('b') | Key::Char('q') => {
            app.mode = AppMode::Tree;
            app.dirty = true;
        },
        _ => {},
    }
}

// ── Diff and files ──────────────────────────────────────────────────────────

/// A scroll offset after a key of a text view: `j`/`k` by one line, `J`/`K` by five.
pub open spec fn scrolled(s: usize, key: Key) -> usize {
    match key {
        Key::Char('j') | Key::Down => (s + 1) as usize,
        Key::Char('k') | Key::Up => if s >= 1 { (s - 1) as usize } else { 0 },
        Key::Char('J') => (s + 5) as usize,
        Key::Char('K') => if s >= 5 { (s - 5) as usize } else { 0 },
        _ => s,
    }
}

pub open spec fn is_scroll_key(key: Key) -> bool {
    match key {
        Key::Char('j') | Key::Down | Key::Char('k') | Key::Up | Key::Char('J') | Key::Char('K') => true,
        _ => false,
    }
}

/// What a key does in the diff view.
pub open spec fn diff_post(o: AppState, f: AppState, key: Key, r: Action) -> bool {
    if is_scroll_key(key) {
        f == (AppState { diff_scroll: scrolled(o.diff_scroll, key), dirty: true, ..o }) && r == Action::Nothing
    } else {
        match key {
            Key::Char('q') | Key::Esc => f == (AppState { mode: AppMode::Tree, dirty: true, ..o }) && r == Action::Nothing,
            Key::Char('e') => f == (AppState { dirty: true, ..o }) && r == Action::StartEditIssue,
            _ => f == o && r == Action::Nothing,
        }
    }
}

pub fn handle_diff_key(app: &mut AppState, key: Key) -> (r: Action)
    requires
        scroll_room(old(app).diff_scroll, key),
    ensures
        diff_post(*old(app), *final(app), key, r),
{
    match key {
        Key::Char('j') | Key::Down | Key::Char('k') | Key::Up | Key::Char('J') | Key::Char('K') => {
            app.diff_scroll = scroll_step(app.diff_scroll, key);
            app.dirty = true;
            Action::Nothing
        },
        Key::Char('q') | Key::Esc => {
            app.mode = AppMode::Tree;
            app.dirty = true;
            Action::Nothing
        },
        Key::Char('e') => {
            app.dirty = true;
            Action::StartEditIssue
        },
        _ => Action::Nothing,
    }
}

/// What a key does in the files view.
pub open spec fn files_post(o: AppState, f: AppState, key: Key) -> bool {
    if is_scroll_key(key) {
        f == (AppState { files_scroll: scrolled(o.files_scroll, key), dirty: true, ..o })
    } else {
        match key {
            Key::Char('q') | Key::Esc => f == (AppState { mode: AppMode::Tree, dirty: true, ..o }),
            _ => f == o,
        }
    }
}

pub fn handle_files_key(app: &mut AppState, key: Key)
    requires
        scroll_room(old(app).files_scroll, key),
    ensures
        files_post(*old(app), *final(app), key),
{
    match key {
        Key::Char('j') | Key::Down | Key::Char('k') | Key::Up | Key::Char('J') | Key::Char('K') => {
            app.files_scroll = scroll_step(app.files_scroll, key);
            app.dirty = true;
        },
        Key::Char('q') | Key::Esc => {
            app.mode = AppMode::Tree;
            app.dirty = true;
        },
        _ => {},
    }
}


// ── After the caller's work ────────────────────────────────────────────────

/// After the hash of commit `ci` went to the clipboard (`copied`) or not.
pub fn after_hash_copied(app: &mut AppState, ci: usize, copied: bool)
    requires
        ci < old(app).commits@.len(),
        copied ==> byte_prefix(old(app).commits@[ci as int].hash@, 7) is Some,
    ensures
        copied ==> *final(app) == (AppState { msg: final(app).msg, msg_new: true, ..*old(app) })
            && final(app).msg@ == "Copied "@ + byte_prefix(old(app).commits@[ci as int].hash@, 7)->0
            + " to clipboard"@,
        !copied ==> *final(app) == *old(app),
{
    if copied {
        let hv = chars_of(app.commits[ci].hash.as_str());
        let short = byte_prefix_chars(&hv, 7);
        let s = string_of(&short, 0, short.len());
        assert(s@ =~= short@);
        app.msg = concat3("Copied ", s.as_str(), " to clipboard");
        app.msg_new = true;
    }
}

/// The message after the last-week date filter is set.
pub open spec fn last_week_msg(from: Seq<char>, to: Seq<char>) -> Seq<char> {
    "Last 7 days: "@ + from + " → "@ + to
}

/// Sets the date filter to the last seven days, given today's date and the date
/// a week ago as the `date` command prints them (`week_ago` empty when it could
/// not be had), then draws the tree again from its top.
pub fn apply_last_week(app: &mut AppState, today: String, week_ago: String)
    requires
        data_ready(*old(app)),
    ensures
        data_ready(*final(app)),
        ({
            let o = *old(app);
            let f = *final(app);
            let mid = if week_ago@.len() > 0 {
                AppState { date_from: f.date_from, date_to: f.date_to, msg: f.msg, msg_new: true, cursor: 0, ..o }
            } else {
                AppState { cursor: 0, ..o }
            };
            &&& f == (AppState { render_lines: f.render_lines, dirty: true, ..mid })
            &&& render_view(f.render_lines@) == rendered(mid)
            &&& week_ago@.len() > 0 ==> f.date_from@ == week_ago@ && f.date_to@ == today@
                && f.msg@ == last_week_msg(week_ago@, today@)
        }),
{
    if week_ago.as_str().unicode_len() > 0 {
        let mut m = String::from_str("Last 7 days: ");
        push_str(&mut m, week_ago.as_str());
        push_str(&mut m, " → ");
        push_str(&mut m, today.as_str());
        app.date_from = week_ago;
        app.date_to = today;
        app.msg = m;
        app.msg_new = true;
    }
    app.cursor = 0;
    rerender(app);
    app.dirty = true;
}

/// Which text view of a commit is opened.
#[derive(Clone, Copy, PartialEq, Eq, Structural)]
pub enum CommitText {
    Diff,
    Files,
}

/// The diff or the file list of commit `ci` opened with the output of git
/// (`None` when git could not be run); a commit past the window changes nothing.
pub open spec fn commit_text_opened(o: AppState, f: AppState, ci: usize, which: CommitText, output: Option<String>) -> bool {
    &&& ci >= o.commits@.len() ==> f == o
    &&& ci < o.commits@.len() ==> ({
        let lines = match output {
            Some(t) => text_lines(t@),
            None => if which == CommitText::Diff { seq!["  Failed to load diff"@] } else { seq!["  Failed to load files"@] },
        };
        if which == CommitText::Diff {
            &&& f == (AppState { diff_lines: f.diff_lines, diff_scroll: 0, mode: AppMode::Diff, ..o })
            &&& strings_view(f.diff_lines@) == lines
        } else {
            &&& f == (AppState { files_lines: f.files_lines, files_scroll: 0, mode: AppMode::Files, ..o })
            &&& strings_view(f.files_lines@) == lines
        }
    })
}

/// Opens the diff of commit `ci` with what `git show` printed.
pub fn open_diff(app: &mut AppState, ci: usize, output: Option<String>)
    ensures
        commit_text_opened(*old(app), *final(app), ci, CommitText::Diff, output),
{
    show_commit_text(app, ci, CommitText::Diff, output);
}

/// Opens the file list of commit `ci` with what `git diff-tree --stat` printed.
pub fn open_files(app: &mut AppState, ci: usize, output: Option<String>)
    ensures
        commit_text_opened(*old(app), *final(app), ci, CommitText::Files, output),
{
    show_commit_text(app, ci, CommitText::Files, output);
}

/// Opens the diff or the file list of commit `ci` with the output of git
/// (`None` when git could not be run). A commit past the window changes nothing.
pub fn show_commit_text(app: &mut AppState, ci: usize, which: CommitText, output: Option<String>)
    ensures
        commit_text_opened(*old(app), *final(app), ci, which, output),
{
    if ci >= app.commits.len() {
        return;
    }
    let lines = match output {
        Some(t) => split_lines(t.as_str()),
        None => {
            let mut v: Vec<String> = Vec::new();
            let l = if which == CommitText::Diff {
                String::from_str("  Failed to load diff")
            } else {
                String::from_str("  Failed to load files")
            };
            v.push(l);
            assert(strings_view(v@) =~= seq![l@]);
            v
        },
    };
    if which == CommitText::Diff {
        app.diff_lines = lines;
        app.diff_scroll = 0;
        app.mode = AppMode::Diff;
    } else {
        app.files_lines = lines;
        app.files_scroll = 0;
        app.mode = AppMode::Files;
    }
}

} // verus!

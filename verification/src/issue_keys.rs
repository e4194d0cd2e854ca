//! The keys of the issue views: the list, its three filters, the detail view and
//! the create and edit forms.
use vstd::prelude::*;
use crate::issues::{
    apply_issues_filter, extract_image_urls, image_urls_from, issue_number_for_prompt, kept_lines,
    clamped, number_or_zero, num_run, replace_label_current_token, replaced_token, strings_view,
    update_label_ac, labels_starting_with, after_last_comma, lemma_strings_view_push,
};
use crate::keys::{Action, Key};
use crate::nav::{law_move_down_keeps_cursor_in_view, list_rows, list_rows_exec, move_down, move_up, moved_down, moved_up};
use crate::state::{AppMode, AppState};
use crate::text::{
    clear_string, concat2, decimal, eq_str, lowercase, pop_char, popped, push_char, push_str,
    trimmed, u64_to_decimal,
};

verus! {

// ── List movement ───────────────────────────────────────────────────────────

/// Cursor and scroll of a list of `len` rows after a movement key.
pub open spec fn list_moved(cursor: usize, scroll: usize, len: nat, term_h: u16, key: Key) -> (usize, usize) {
    match key {
        Key::Char('j') | Key::Down => moved_down(cursor, scroll, len, list_rows(term_h), 1),
        Key::Char('J') => moved_down(cursor, scroll, len, list_rows(term_h), 5),
        Key::Char('k') | Key::Up => moved_up(cursor, scroll, 1),
        Key::Char('K') => moved_up(cursor, scroll, 5),
        _ => (cursor, scroll),
    }
}

pub open spec fn is_move_key(key: Key) -> bool {
    match key {
        Key::Char('j') | Key::Down | Key::Char('J') | Key::Char('k') | Key::Up | Key::Char('K') => true,
        _ => false,
    }
}

/// Moving down must not overflow the cursor or the bottom of the view.
pub open spec fn list_room(cursor: usize, scroll: usize, term_h: u16, key: Key) -> bool {
    match key {
        Key::Char('j') | Key::Down => cursor + 1 <= usize::MAX && scroll + list_rows(term_h) <= usize::MAX,
        Key::Char('J') => cursor + 5 <= usize::MAX && scroll + list_rows(term_h) <= usize::MAX,
        _ => true,
    }
}

pub fn list_move(cursor: usize, scroll: usize, len: usize, term_h: u16, key: Key) -> (r: (usize, usize))
    requires
        list_room(cursor, scroll, term_h, key),
    ensures
        r == list_moved(cursor, scroll, len as nat, term_h, key),
{
    let rows = list_rows_exec(term_h);
    match key {
        Key::Char('j') | Key::Down => move_down(cursor, scroll, len, rows, 1),
        Key::Char('J') => move_down(cursor, scroll, len, rows, 5),
        Key::Char('k') | Key::Up => move_up(cursor, scroll, 1),
        Key::Char('K') => move_up(cursor, scroll, 5),
        _ => (cursor, scroll),
    }
}

pub fn is_move_key_exec(key: Key) -> (r: bool)
    ensures
        r == is_move_key(key),
{
    match key {
        Key::Char('j') | Key::Down | Key::Char('J') | Key::Char('k') | Key::Up | Key::Char('K') => true,
        _ => false,
    }
}

/// `max(0, a - b)` on indexes.
pub open spec fn sat_sub(a: int, b: int) -> usize {
    if a >= b { (a - b) as usize } else { 0 }
}

// ── Issue list ──────────────────────────────────────────────────────────────

/// The state filter after `s`: open, closed, all, and round again.
pub open spec fn next_issue_state(s: Seq<char>) -> Seq<char> {
    if s == "open"@ { "closed"@ } else if s == "closed"@ { "all"@ } else { "open"@ }
}

/// The date filter after `t`: off, today, week, month, year, and off again.
pub open spec fn next_date_filter(s: Seq<char>) -> Seq<char> {
    if s.len() == 0 { "today"@ }
    else if s == "today"@ { "week"@ }
    else if s == "week"@ { "month"@ }
    else if s == "month"@ { "year"@ }
    else { seq![] }
}

/// Pressing `s` three times in the issue list comes back to the state filter
/// it started from (once on one of `open`, `closed`, `all`; from any other
/// value the first press gives `open`).
pub proof fn law_state_filter_cycles(s: Seq<char>)
    ensures
        next_issue_state(next_issue_state(next_issue_state(next_issue_state(s)))) == next_issue_state(s),
        s == "open"@ || s == "closed"@ || s == "all"@ ==> next_issue_state(next_issue_state(next_issue_state(s))) == s,
{
    reveal_strlit("open");
    reveal_strlit("closed");
    reveal_strlit("all");
}

/// Pressing `d` five times in the issue list comes back to the date filter it
/// started from (once on one of off, `today`, `week`, `month`, `year`).
pub proof fn law_date_filter_cycles(s: Seq<char>)
    ensures
        s.len() == 0 || s == "today"@ || s == "week"@ || s == "month"@ || s == "year"@ ==> next_date_filter(
            next_date_filter(next_date_filter(next_date_filter(next_date_filter(s)))),
        ) == s,
{
    reveal_strlit("today");
    reveal_strlit("week");
    reveal_strlit("month");
    reveal_strlit("year");
    let (t, w, m, y) = ("today"@, "week"@, "month"@, "year"@);
    assert(t.len() > 0 && w.len() > 0 && m.len() > 0 && y.len() > 0);
    assert(t != w && t != m && t != y && w != m && w != y && m != y) by {
        assert(t[0] != w[0] && t[0] != m[0] && t[0] != y[0] && w[0] != m[0] && w[0] != y[0] && m[0] != y[0]);
    }
    if s.len() == 0 {
        assert(s =~= seq![]);
    }
}

/// The message after the date filter changed.
pub open spec fn date_filter_msg(f: Seq<char>) -> Seq<char> {
    if f.len() == 0 { "Date filter: off"@ } else { "Date filter: "@ + f }
}

/// The line under the issue cursor ("" past the end).
pub open spec fn issue_line_at(app: AppState) -> Seq<char> {
    if app.issues_cursor < app.issues_lines@.len() { app.issues_lines@[app.issues_cursor as int]@ } else { seq![] }
}

/// The question asked before an issue is closed.
pub open spec fn delete_prompt(line: Seq<char>) -> Seq<char> {
    "Press x again to delete issue #"@ + decimal(number_or_zero(num_run(line).digits) as nat)
}

/// What a key does in the issue list.
pub open spec fn issues_key_post(o: AppState, f: AppState, key: Key, r: Action) -> bool {
    if is_move_key(key) {
        let (c, s) = list_moved(o.issues_cursor, o.issues_scroll, o.issues_lines@.len(), o.term_h, key);
        f == (AppState { issues_cursor: c, issues_scroll: s, dirty: true, ..o }) && r == Action::Nothing
    } else {
        match key {
            Key::Char('/') => {
                &&& f == (AppState { issues_filter_input: f.issues_filter_input, mode: AppMode::IssuesFilter, dirty: true, ..o })
                &&& f.issues_filter_input@.len() == 0 && r == Action::Nothing
            },
            Key::Char('l') => {
                &&& f == (AppState { issues_label_filter_input: f.issues_label_filter_input, mode: AppMode::IssuesLabelFilter, dirty: true, ..o })
                &&& f.issues_label_filter_input@.len() == 0 && r == Action::Nothing
            },
            Key::Char('p') => {
                &&& f == (AppState {
                    issues_project_status_filter_input: f.issues_project_status_filter_input,
                    mode: AppMode::IssuesProjectStatusFilter,
                    dirty: true,
                    ..o
                })
                &&& f.issues_project_status_filter_input@.len() == 0 && r == Action::Nothing
            },
            Key::Char('s') => {
                &&& f == (AppState { issues_state: f.issues_state, issues_cursor: 0, issues_scroll: 0, dirty: true, ..o })
                &&& f.issues_state@ == next_issue_state(o.issues_state@)
                &&& r == Action::OpenIssuesView
            },
            Key::Char('c') => f == (AppState { dirty: true, ..o }) && r == Action::StartCreateIssue,
            Key::Char('e') => f == (AppState { dirty: true, ..o }) && r == Action::StartEditIssue,
            Key::Enter => f == (AppState { dirty: true, ..o }) && r == Action::OpenIssueDetail,
            Key::Char('x') => if o.confirm_delete_issue {
                f == (AppState { dirty: true, ..o }) && r == Action::DeleteIssue
            } else {
                &&& f == (AppState { confirm_delete_issue: true, msg: f.msg, msg_new: true, dirty: true, ..o })
                &&& f.msg@ == delete_prompt(issue_line_at(o))
                &&& r == Action::Nothing
            },
            Key::Char('q') | Key::Esc => f == (AppState { mode: AppMode::Tree, confirm_delete_issue: false, dirty: true, ..o })
                && r == Action::Nothing,
            Key::Char('t') => {
                let d = next_date_filter(o.issues_date_filter@);
                &&& f == (AppState {
                    issues_date_filter: f.issues_date_filter,
                    msg: f.msg,
                    msg_new: true,
                    issues_cursor: 0,
                    issues_scroll: 0,
                    confirm_delete_issue: false,
                    dirty: true,
                    ..o
                })
                &&& f.issues_date_filter@ == d && f.msg@ == date_filter_msg(d)
                &&& r == Action::OpenIssuesView
            },
            Key::Char('g') => f == (AppState { issues_cursor: 0, issues_scroll: 0, confirm_delete_issue: false, dirty: true, ..o })
                && r == Action::Nothing,
            Key::Char('G') => {
                let c = sat_sub(o.issues_lines@.len() as int, 1);
                let s = sat_sub(c as int, sat_sub(list_rows(o.term_h), 1) as int);
                f == (AppState { issues_cursor: c, issues_scroll: s, confirm_delete_issue: false, dirty: true, ..o })
                    && r == Action::Nothing
            },
            _ => f == (AppState { confirm_delete_issue: false, ..o }) && r == Action::Nothing,
        }
    }
}

/// The cursor keys of the issue list (`j`, `k`, `J`, `K`, the arrows, `g` and
/// `G`) keep the cursor on the list (on its first row when it is empty) and on
/// the screen, on a terminal of more than six rows.
pub proof fn law_issue_cursor_stays_in_view(o: AppState, f: AppState, key: Key, r: Action)
    requires
        o.term_h > 6,
        o.issues_lines@.len() <= usize::MAX,
        o.issues_scroll <= o.issues_cursor < o.issues_scroll + list_rows(o.term_h),
        o.issues_cursor <= sat_sub(o.issues_lines@.len() as int, 1),
        is_move_key(key) || key == Key::Char('g') || key == Key::Char('G'),
        issues_key_post(o, f, key, r),
    ensures
        f.issues_scroll <= f.issues_cursor < f.issues_scroll + list_rows(f.term_h),
        f.issues_cursor <= sat_sub(f.issues_lines@.len() as int, 1),
        r == Action::Nothing,
{
    let n = o.issues_lines@.len();
    if n > 0 && (key == Key::Char('j') || key == Key::Down) {
        law_move_down_keeps_cursor_in_view(o.issues_cursor, o.issues_scroll, n, list_rows(o.term_h), 1);
    } else if n > 0 && key == Key::Char('J') {
        law_move_down_keeps_cursor_in_view(o.issues_cursor, o.issues_scroll, n, list_rows(o.term_h), 5);
    }
}

/// Deleting an issue from the list takes two presses of `x`: from a list with
/// no question pending, the first press only asks and the second deletes; and
/// no key deletes unless the press before it asked.
pub proof fn law_delete_takes_two_presses(o: AppState, f1: AppState, f2: AppState, r1: Action, r2: Action)
    requires
        !o.confirm_delete_issue,
        issues_key_post(o, f1, Key::Char('x'), r1),
        issues_key_post(f1, f2, Key::Char('x'), r2),
    ensures
        r1 == Action::Nothing && f1.confirm_delete_issue,
        r2 == Action::DeleteIssue,
        forall|key: Key, f: AppState, r: Action|
            #[trigger] issues_key_post(o, f, key, r) ==> r != Action::DeleteIssue,
{
    assert(!is_move_key(Key::Char('x')));
    assert forall|key: Key, f: AppState, r: Action| #[trigger] issues_key_post(o, f, key, r) implies r
        != Action::DeleteIssue by {
        if !is_move_key(key) {
            if key == Key::Char('s') {
                assert(r == Action::OpenIssuesView);
            }
        }
    }
}

fn next_issue_state_exec(s: &String) -> (r: String)
    ensures
        r@ == next_issue_state(s@),
{
    proof {
        reveal_strlit("open");
        reveal_strlit("closed");
        reveal_strlit("all");
    }
    if eq_str(s.as_str(), "open") {
        String::from_str("closed")
    } else if eq_str(s.as_str(), "closed") {
        String::from_str("all")
    } else {
        String::from_str("open")
    }
}

fn next_date_filter_exec(s: &String) -> (r: String)
    ensures
        r@ == next_date_filter(s@),
{
    if s.as_str().unicode_len() == 0 {
        String::from_str("today")
    } else if eq_str(s.as_str(), "today") {
        String::from_str("week")
    } else if eq_str(s.as_str(), "week") {
        String::from_str("month")
    } else if eq_str(s.as_str(), "month") {
        String::from_str("year")
    } else {
        String::new()
    }
}

fn issue_line_at_exec(app: &AppState) -> (r: String)
    ensures
        r@ == issue_line_at(*app),
{
    if app.issues_cursor < app.issues_lines.len() {
        app.issues_lines[app.issues_cursor].clone()
    } else {
        String::new()
    }
}

fn issues_plain_key(app: &mut AppState, key: Key) -> (r: Action)
    requires
        !is_move_key(key),
        key != Key::Char('x') && key != Key::Char('t') && key != Key::Char('s') && key != Key::Char('G'),
    ensures
        issues_key_post(*old(app), *final(app), key, r),
{
    match key {
        Key::Char('/') => {
            clear_string(&mut app.issues_filter_input);
            app.mode = AppMode::IssuesFilter;
            app.dirty = true;
            Action::Nothing
        },
        Key::Char('l') => {
            clear_string(&mut app.issues_label_filter_input);
            app.mode = AppMode::IssuesLabelFilter;
            app.dirty = true;
            Action::Nothing
        },
        Key::Char('p') => {
            clear_string(&mut app.issues_project_status_filter_input);
            app.mode = AppMode::IssuesProjectStatusFilter;
            app.dirty = true;
            Action::Nothing
        },
        Key::Char('c') => {
            app.dirty = true;
            Action::StartCreateIssue
        },
        Key::Char('e') => {
            app.dirty = true;
            Action::StartEditIssue
        },
        Key::Enter => {
            app.dirty = true;
            Action::OpenIssueDetail
        },
        Key::Char('q') | Key::Esc => {
            app.mode = AppMode::Tree;
            app.confirm_delete_issue = false;
            app.dirty = true;
            Action::Nothing
        },
        Key::Char('g') => {
            app.issues_cursor = 0;
            app.issues_scroll = 0;
            app.confirm_delete_issue = false;
            app.dirty = true;
            Action::Nothing
        },
        _ => {
            app.confirm_delete_issue = false;
            Action::Nothing
        },
    }
}

fn issues_state_key(app: &mut AppState, key: Key) -> (r: Action)
    requires
        key == Key::Char('x') || key == Key::Char('t') || key == Key::Char('s') || key == Key::Char('G'),
    ensures
        issues_key_post(*old(app), *final(app), key, r),
{
    if key == Key::Char('s') {
        app.issues_state = next_issue_state_exec(&app.issues_state);
        app.issues_cursor = 0;
        app.issues_scroll = 0;
        app.dirty = true;
        Action::OpenIssuesView
    } else if key == Key::Char('x') {
        if app.confirm_delete_issue {
            app.dirty = true;
            Action::DeleteIssue
        } else {
            app.confirm_delete_issue = true;
            let line = issue_line_at_exec(app);
            let num = issue_number_for_prompt(line.as_str());
            let digits = u64_to_decimal(num);
            proof {
                reveal_strlit("Press x again to delete issue #");
            }
            app.msg = concat2("Press x again to delete issue #", digits.as_str());
            app.msg_new = true;
            app.dirty = true;
            Action::Nothing
        }
    } else if key == Key::Char('t') {
        app.issues_date_filter = next_date_filter_exec(&app.issues_date_filter);
        if app.issues_date_filter.as_str().unicode_len() == 0 {
            app.msg = String::from_str("Date filter: off");
        } else {
            app.msg = concat2("Date filter: ", app.issues_date_filter.as_str());
        }
        app.msg_new = true;
        app.issues_cursor = 0;
        app.issues_scroll = 0;
        app.confirm_delete_issue = false;
        app.dirty = true;
        Action::OpenIssuesView
    } else {
        let n = app.issues_lines.len();
        let c = if n >= 1 { n - 1 } else { 0 };
        let rows = list_rows_exec(app.term_h);
        let r1 = if rows >= 1 { rows - 1 } else { 0 };
        app.issues_cursor = c;
        app.issues_scroll = if c >= r1 { c - r1 } else { 0 };
        app.confirm_delete_issue = false;
        app.dirty = true;
        Action::Nothing
    }
}

pub fn handle_issues_key(app: &mut AppState, key: Key) -> (r: Action)
    requires
        list_room(old(app).issues_cursor, old(app).issues_scroll, old(app).term_h, key),
    ensures
        issues_key_post(*old(app), *final(app), key, r),
{
    if is_move_key_exec(key) {
        let (c, s) = list_move(app.issues_cursor, app.issues_scroll, app.issues_lines.len(), app.term_h, key);
        app.issues_cursor = c;
        app.issues_scroll = s;
        app.dirty = true;
        Action::Nothing
    } else if key == Key::Char('x') || key == Key::Char('t') || key == Key::Char('s') || key == Key::Char('G') {
        issues_state_key(app, key)
    } else {
        issues_plain_key(app, key)
    }
}

// ── Filters of the issue list ───────────────────────────────────────────────

/// The issue list after `apply_issues_filter` on state `m`.
pub open spec fn issues_refiltered(m: AppState, f: AppState) -> bool {
    let kept = kept_lines(
        strings_view(m.issues_lines_full@),
        m.issues_lines_full@.len() as int,
        lowercase(m.issues_filter_text@),
        lowercase(m.issues_label_filter@),
        lowercase(m.issues_project_status_filter@),
    );
    &&& f == (AppState {
        issues_lines: f.issues_lines,
        issues_cursor: clamped(m.issues_cursor, kept.len()),
        issues_scroll: clamped(m.issues_scroll, kept.len()),
        ..m
    })
    &&& strings_view(f.issues_lines@) == kept
}

/// Which of the three filters of the issue list a filter view edits.
#[derive(Clone, Copy, PartialEq, Eq, Structural)]
pub enum IssueFilter {
    Text,
    Label,
    Status,
}

pub open spec fn filter_input_of(app: AppState, which: IssueFilter) -> Seq<char> {
    match which {
        IssueFilter::Text => app.issues_filter_input@,
        IssueFilter::Label => app.issues_label_filter_input@,
        IssueFilter::Status => app.issues_project_status_filter_input@,
    }
}

pub open spec fn filter_of(app: AppState, which: IssueFilter) -> Seq<char> {
    match which {
        IssueFilter::Text => app.issues_filter_text@,
        IssueFilter::Label => app.issues_label_filter@,
        IssueFilter::Status => app.issues_project_status_filter@,
    }
}

/// `app` with the input and the filter of `which` replaced by those of `g`, and
/// everything else kept.
pub open spec fn with_filter_of(app: AppState, g: AppState, which: IssueFilter) -> AppState {
    match which {
        IssueFilter::Text => AppState {
            issues_filter_input: g.issues_filter_input,
            issues_filter_text: g.issues_filter_text,
            ..app
        },
        IssueFilter::Label => AppState {
            issues_label_filter_input: g.issues_label_filter_input,
            issues_label_filter: g.issues_label_filter,
            ..app
        },
        IssueFilter::Status => AppState {
            issues_project_status_filter_input: g.issues_project_status_filter_input,
            issues_project_status_filter: g.issues_project_status_filter,
            ..app
        },
    }
}

/// What a key does while a filter of the issue list is typed: Enter sets the
/// filter from the input, Esc clears both, and typing edits the input (the text
/// filter follows the input as it is typed; the label and status filters wait
/// for Enter). The list is filtered again after each of these keys.
pub open spec fn issue_filter_post(o: AppState, f: AppState, key: Key, which: IssueFilter) -> bool {
    let input = filter_input_of(o, which);
    let changes = match key {
        Key::Enter | Key::Esc | Key::Backspace | Key::Char(_) => true,
        _ => false,
    };
    if !changes {
        f == o
    } else {
        let new_input = match key {
            Key::Esc => seq![],
            Key::Backspace => popped(input),
            Key::Char(c) => input.push(c),
            _ => input,
        };
        let new_filter = match key {
            Key::Enter => input,
            Key::Esc => seq![],
            _ => if which == IssueFilter::Text { new_input } else { filter_of(o, which) },
        };
        let mode = match key {
            Key::Enter | Key::Esc => AppMode::Issues,
            _ => o.mode,
        };
        let m = with_filter_of(AppState { mode: mode, dirty: true, ..o }, f, which);
        &&& filter_input_of(f, which) == new_input
        &&& filter_of(f, which) == new_filter
        &&& issues_refiltered(m, f)
    }
}

fn input_mut_set(app: &mut AppState, which: IssueFilter, key: Key)
    ensures
        *final(app) == with_filter_of(*old(app), *final(app), which),
        filter_of(*final(app), which) == filter_of(*old(app), which),
        filter_input_of(*final(app), which) == match key {
            Key::Esc => seq![],
            Key::Backspace => popped(filter_input_of(*old(app), which)),
            Key::Char(c) => filter_input_of(*old(app), which).push(c),
            _ => filter_input_of(*old(app), which),
        },
{
    match which {
        IssueFilter::Text => match key {
            Key::Esc => clear_string(&mut app.issues_filter_input),
            Key::Backspace => pop_char(&mut app.issues_filter_input),
            Key::Char(c) => push_char(&mut app.issues_filter_input, c),
            _ => {},
        },
        IssueFilter::Label => match key {
            Key::Esc => clear_string(&mut app.issues_label_filter_input),
            Key::Backspace => pop_char(&mut app.issues_label_filter_input),
            Key::Char(c) => push_char(&mut app.issues_label_filter_input, c),
            _ => {},
        },
        IssueFilter::Status => match key {
            Key::Esc => clear_string(&mut app.issues_project_status_filter_input),
            Key::Backspace => pop_char(&mut app.issues_project_status_filter_input),
            Key::Char(c) => push_char(&mut app.issues_project_status_filter_input, c),
            _ => {},
        },
    }
}

fn filter_set(app: &mut AppState, which: IssueFilter, key: Key)
    ensures
        *final(app) == with_filter_of(*old(app), *final(app), which),
        filter_input_of(*final(app), which) == filter_input_of(*old(app), which),
        filter_of(*final(app), which) == match key {
            Key::Enter => filter_input_of(*old(app), which),
            Key::Esc => seq![],
            _ => if which == IssueFilter::Text { filter_input_of(*old(app), which) } else { filter_of(*old(app), which) },
        },
{
    match key {
        Key::Esc => match which {
            IssueFilter::Text => clear_string(&mut app.issues_filter_text),
            IssueFilter::Label => clear_string(&mut app.issues_label_filter),
            IssueFilter::Status => clear_string(&mut app.issues_project_status_filter),
        },
        Key::Enter => match which {
            IssueFilter::Text => app.issues_filter_text = app.issues_filter_input.clone(),
            IssueFilter::Label => app.issues_label_filter = app.issues_label_filter_input.clone(),
            IssueFilter::Status => app.issues_project_status_filter = app.issues_project_status_filter_input.clone(),
        },
        _ => match which {
            IssueFilter::Text => app.issues_filter_text = app.issues_filter_input.clone(),
            _ => {},
        },
    }
}

/// The keys of the three filter views of the issue list.
pub fn handle_issue_filter_key(app: &mut AppState, key: Key, which: IssueFilter)
    ensures
        issue_filter_post(*old(app), *final(app), key, which),
{
    match key {
        Key::Enter | Key::Esc | Key::Backspace | Key::Char(_) => {},
        _ => {
            return;
        },
    }
    let ghost o = *app;
    input_mut_set(app, which, key);
    filter_set(app, which, key);
    match key {
        Key::Enter | Key::Esc => {
            app.mode = AppMode::Issues;
        },
        _ => {},
    }
    app.dirty = true;
    let ghost m = *app;
    apply_issues_filter(app);
    proof {
        let mode = match key {
            Key::Enter | Key::Esc => AppMode::Issues,
            _ => o.mode,
        };
        assert(m == with_filter_of(AppState { mode: mode, dirty: true, ..o }, *app, which));
    }
}

// ── Issue detail ────────────────────────────────────────────────────────────

/// The image links of a list of lines, line by line.
pub open spec fn image_urls_of(lines: Seq<Seq<char>>) -> Seq<Seq<char>>
    decreases lines.len(),
{
    if lines.len() == 0 {
        seq![]
    } else {
        image_urls_of(lines.drop_last()) + image_urls_from(lines.last(), 0)
    }
}

/// All image links in the detail lines.
pub fn detail_image_urls(lines: &Vec<String>) -> (r: Vec<String>)
    ensures
        strings_view(r@) == image_urls_of(strings_view(lines@)),
{
    let ghost lv = strings_view(lines@);
    let mut out: Vec<String> = Vec::new();
    let mut i: usize = 0;
    while i < lines.len()
        invariant
            i <= lines@.len(),
            lv == strings_view(lines@),
            strings_view(out@) == image_urls_of(lv.take(i as int)),
        decreases lines@.len() - i,
    {
        let urls = extract_image_urls(lines[i].as_str());
        let mut j: usize = 0;
        let ghost base = out@;
        while j < urls.len()
            invariant
                j <= urls@.len(),
                strings_view(out@) == strings_view(base) + strings_view(urls@).take(j as int),
            decreases urls@.len() - j,
        {
            let ghost before = out@;
            out.push(urls[j].clone());
            proof {
                lemma_strings_view_push(before, urls@[j as int]);
                assert(strings_view(urls@).take(j + 1) =~= strings_view(urls@).take(j as int).push(urls@[j as int]@));
                assert(strings_view(base) + strings_view(urls@).take(j + 1) =~= (strings_view(base)
                    + strings_view(urls@).take(j as int)).push(urls@[j as int]@));
            }
            j = j + 1;
        }
        proof {
            assert(strings_view(urls@).take(urls@.len() as int) =~= strings_view(urls@));
            assert(lv.take(i + 1).drop_last() =~= lv.take(i as int));
            assert(lv.take(i + 1).last() == lines@[i as int]@);
        }
        i = i + 1;
    }
    assert(lv.take(lines@.len() as int) =~= lv);
    out
}

/// The message after asking to open the images of an issue.
pub open spec fn images_msg(n: nat) -> Seq<char> {
    if n == 0 { "No image URLs found in this issue"@ } else { "Opening "@ + decimal(n) + " image(s) with feh"@ }
}

/// What a key does in the detail view of an issue.
pub open spec fn detail_key_post(o: AppState, f: AppState, key: Key, r: Action) -> bool {
    if is_move_key(key) {
        let (c, s) = list_moved(o.issue_detail_cursor, o.issue_detail_scroll, o.issue_detail_lines@.len(), o.term_h, key);
        f == (AppState { issue_detail_cursor: c, issue_detail_scroll: s, dirty: true, ..o }) && r == Action::Nothing
    } else {
        match key {
            Key::Char('q') | Key::Esc => f == (AppState { mode: AppMode::Issues, dirty: true, ..o }) && r == Action::Nothing,
            Key::Char('o') => {
                let urls = image_urls_of(strings_view(o.issue_detail_lines@));
                &&& f == (AppState { msg: f.msg, msg_new: true, dirty: true, ..o })
                &&& f.msg@ == images_msg(urls.len())
                &&& (if urls.len() == 0 { r == Action::Nothing } else {
                    r matches Action::OpenImages(v) && strings_view(v@) == urls
                })
            },
            _ => f == o && r == Action::Nothing,
        }
    }
}

pub fn handle_issue_detail_key(app: &mut AppState, key: Key) -> (r: Action)
    requires
        list_room(old(app).issue_detail_cursor, old(app).issue_detail_scroll, old(app).term_h, key),
    ensures
        detail_key_post(*old(app), *final(app), key, r),
{
    if is_move_key_exec(key) {
        let (c, s) = list_move(
            app.issue_detail_cursor,
            app.issue_detail_scroll,
            app.issue_detail_lines.len(),
            app.term_h,
            key,
        );
        app.issue_detail_cursor = c;
        app.issue_detail_scroll = s;
        app.dirty = true;
        return Action::Nothing;
    }
    match key {
        Key::Char('q') | Key::Esc => {
            app.mode = AppMode::Issues;
            app.dirty = true;
            Action::Nothing
        },
        Key::Char('o') => {
            let urls = detail_image_urls(&app.issue_detail_lines);
            let n = urls.len();
            assert(n == strings_view(urls@).len());
            let r = if n == 0 {
                proof {
                    reveal_strlit("No image URLs found in this issue");
                }
                app.msg = String::from_str("No image URLs found in this issue");
                Action::Nothing
            } else {
                let mut m = String::from_str("Opening ");
                let d = u64_to_decimal(n as u64);
                push_str(&mut m, d.as_str());
                push_str(&mut m, " image(s) with feh");
                app.msg = m;
                Action::OpenImages(urls)
            };
            app.msg_new = true;
            app.dirty = true;
            r
        },
        _ => Action::Nothing,
    }
}

// ── Create and edit forms ───────────────────────────────────────────────────

/// The fields of a form: title, body, labels, and which one has the keyboard.
pub open spec fn form_of(app: AppState, edit: bool) -> (Seq<char>, Seq<char>, Seq<char>, usize) {
    if edit {
        (app.issue_edit_title@, app.issue_edit_body@, app.issue_edit_labels_input@, app.issue_edit_focus)
    } else {
        (app.issue_create_title@, app.issue_create_body@, app.issue_create_labels_input@, app.issue_create_focus)
    }
}

/// `app` with the form fields of `g`.
pub open spec fn with_form_of(app: AppState, g: AppState, edit: bool) -> AppState {
    if edit {
        AppState {
            issue_edit_title: g.issue_edit_title,
            issue_edit_body: g.issue_edit_body,
            issue_edit_labels_input: g.issue_edit_labels_input,
            issue_edit_focus: g.issue_edit_focus,
            ..app
        }
    } else {
        AppState {
            issue_create_title: g.issue_create_title,
            issue_create_body: g.issue_create_body,
            issue_create_labels_input: g.issue_create_labels_input,
            issue_create_focus: g.issue_create_focus,
            ..app
        }
    }
}

/// The label suggestions for a labels input, as `update_label_ac` computes them.
pub open spec fn suggestions_for(app: AppState, input: Seq<char>) -> Seq<Seq<char>> {
    let token = lowercase(trimmed(after_last_comma(input)));
    if token.len() == 0 { seq![] } else { labels_starting_with(strings_view(app.available_labels@), token) }
}

/// What a key does in the create form (`edit` false, in `IssueCreate` mode) or
/// the edit form (`edit` true, in `IssueEdit` mode).
pub open spec fn form_key_post(o: AppState, f: AppState, key: Key, r: Action, edit: bool) -> bool {
    let (title, body, labels, focus) = form_of(o, edit);
    let (t2, b2, l2, f2) = form_of(f, edit);
    match key {
        Key::Enter => f == (AppState { dirty: true, ..o }) && r == (if edit { Action::UpdateIssue } else { Action::SubmitIssue }),
        Key::Esc => f == (AppState { mode: AppMode::Issues, dirty: true, ..o }) && r == Action::Nothing,
        Key::Tab => {
            let n = o.label_ac_list@.len();
            &&& r == Action::Nothing
            &&& if focus == 2 && n > 0 {
                let idx = ((o.label_ac_idx + 1) % (n as int)) as usize;
                &&& f == with_form_of(AppState { label_ac_idx: idx, dirty: true, ..o }, f, edit)
                &&& t2 == title && b2 == body && f2 == focus
                &&& l2 == replaced_token(labels, o.label_ac_list@[idx as int]@)
            } else {
                &&& f == with_form_of(AppState { dirty: true, ..o }, f, edit)
                &&& t2 == title && b2 == body && l2 == labels
                &&& f2 == ((focus + 1) % 3) as usize
            }
        },
        Key::Backspace | Key::Char(_) => {
            &&& r == Action::Nothing
            &&& if focus == 2 {
                &&& f == with_form_of(AppState { label_ac_list: f.label_ac_list, label_ac_idx: 0, dirty: true, ..o }, f, edit)
                &&& t2 == title && b2 == body && f2 == focus && l2 == typed(labels, key)
                &&& strings_view(f.label_ac_list@) == suggestions_for(o, l2)
            } else {
                &&& f == with_form_of(AppState { dirty: true, ..o }, f, edit)
                &&& f2 == focus && l2 == labels
                &&& t2 == (if focus == 0 { typed(title, key) } else { title })
                &&& b2 == (if focus == 1 { typed(body, key) } else { body })
            }
        },
        _ => f == o && r == Action::Nothing,
    }
}

/// A form field after typing a character or a backspace.
pub open spec fn typed(s: Seq<char>, key: Key) -> Seq<char> {
    match key {
        Key::Char(c) => s.push(c),
        _ => popped(s),
    }
}

fn edit_string(s: &mut String, key: Key)
    ensures
        final(s)@ == typed(old(s)@, key),
{
    match key {
        Key::Char(c) => push_char(s, c),
        _ => pop_char(s),
    }
}

fn form_tab_key(app: &mut AppState, key: Key, edit: bool) -> (r: Action)
    requires
        old(app).mode == (if edit { AppMode::IssueEdit } else { AppMode::IssueCreate }),
        key == Key::Tab,
    ensures
        form_key_post(*old(app), *final(app), key, r, edit),
{
    let focus = if edit { app.issue_edit_focus } else { app.issue_create_focus };
    let n = app.label_ac_list.len();
    if focus == 2 && n > 0 {
        let m = app.label_ac_idx % n;
        let idx = if m + 1 == n { 0 } else { m + 1 };
        assert(idx == (app.label_ac_idx + 1) % (n as int)) by (nonlinear_arith)
            requires
                m == app.label_ac_idx % n,
                n > 0,
                idx == (if m + 1 == n { 0 } else { m + 1 }),
        ;
        app.label_ac_idx = idx;
        if edit {
            app.issue_edit_labels_input = replace_label_current_token(
                app.issue_edit_labels_input.as_str(),
                app.label_ac_list[idx].as_str(),
            );
        } else {
            app.issue_create_labels_input = replace_label_current_token(
                app.issue_create_labels_input.as_str(),
                app.label_ac_list[idx].as_str(),
            );
        }
    } else {
        let m = focus % 3;
        let nf = if m == 2 { 0 } else { m + 1 };
        assert(nf == (focus + 1) % 3) by (nonlinear_arith)
            requires
                m == focus % 3,
                nf == (if m == 2 { 0 } else { m + 1 }),
        ;
        if edit {
            app.issue_edit_focus = nf;
        } else {
            app.issue_create_focus = nf;
        }
    }
    app.dirty = true;
    Action::Nothing
}

fn form_type_key(app: &mut AppState, key: Key, edit: bool) -> (r: Action)
    requires
        old(app).mode == (if edit { AppMode::IssueEdit } else { AppMode::IssueCreate }),
        key == Key::Backspace || key is Char,
    ensures
        form_key_post(*old(app), *final(app), key, r, edit),
{
    let focus = if edit { app.issue_edit_focus } else { app.issue_create_focus };
    if focus == 0 {
        if edit { edit_string(&mut app.issue_edit_title, key) } else { edit_string(&mut app.issue_create_title, key) }
    } else if focus == 1 {
        if edit { edit_string(&mut app.issue_edit_body, key) } else { edit_string(&mut app.issue_create_body, key) }
    } else if focus == 2 {
        if edit {
            edit_string(&mut app.issue_edit_labels_input, key)
        } else {
            edit_string(&mut app.issue_create_labels_input, key)
        }
        let ghost before = *app;
        update_label_ac(app);
        proof {
            let l2 = form_of(before, edit).2;
            if lowercase(trimmed(after_last_comma(l2))).len() == 0 {
                assert(strings_view(app.label_ac_list@) =~= Seq::<Seq<char>>::empty());
            }
        }
    }
    app.dirty = true;
    Action::Nothing
}

pub fn handle_issue_form_key(app: &mut AppState, key: Key, edit: bool) -> (r: Action)
    requires
        old(app).mode == (if edit { AppMode::IssueEdit } else { AppMode::IssueCreate }),
    ensures
        form_key_post(*old(app), *final(app), key, r, edit),
{
    match key {
        Key::Enter => {
            app.dirty = true;
            if edit { Action::UpdateIssue } else { Action::SubmitIssue }
        },
        Key::Esc => {
            app.mode = AppMode::Issues;
            app.dirty = true;
            Action::Nothing
        },
        Key::Tab => form_tab_key(app, key, edit),
        Key::Backspace | Key::Char(_) => form_type_key(app, key, edit),
        _ => Action::Nothing,
    }
}

} // verus!

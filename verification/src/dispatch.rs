//! Which view a key goes to.
use vstd::prelude::*;
use crate::issue_keys::{
    detail_key_post, form_key_post, handle_issue_detail_key, handle_issue_filter_key, handle_issue_form_key,
    handle_issues_key, issue_filter_post, issues_key_post, list_room, IssueFilter,
};
use crate::keys::{
    cursor_after, diff_post, files_post, handle_diff_key, handle_files_key, handle_help_key, handle_sidebar_key,
    help_key_post, law_cursor_keys_stay_on_lines, tree_key_draws, tree_key_draws_exec,
    handle_tree_filter_key, handle_tree_key, is_cursor_key, sidebar_post, tree_cursor_key_ok, tree_filter_post,
    tree_key_post, Action, Key,
};
use crate::nav::{list_rows, list_rows_exec};
use crate::graph::{closed_under_children, commits_view};
use crate::keys::selected;
use crate::render::{
    commit_listed, data_ready, data_ready_exec, lemma_rendered_same, law_tree_shows_listed_commits, lines_point_in,
    lines_point_in_exec, render_view, rendered,
};
use crate::state::{AppMode, AppState};
use crate::view_keys::{
    gist_content_post, gists_filter_post, gists_key_post, gists_room, handle_gist_content_key,
    handle_gists_filter_key, handle_gists_key, handle_repos_add_key, handle_repos_key, handle_report_filter_key,
    handle_report_key, repos_add_post, repos_key_post, repos_room, report_filter_post, report_key_post,
    scroll_room,
};

verus! {

/// What a key needs, in the view that has the keyboard, so as not to fail: the
/// tree keys that draw the tree need its git data ready, and the lists room to
/// move.
pub open spec fn key_ok(app: AppState, key: Key) -> bool {
    match app.mode {
        AppMode::Tree => tree_key_draws(key) ==> data_ready(app) && lines_point_in(app) && tree_cursor_key_ok(
            app,
            key,
        ),
        AppMode::TreeFilter => data_ready(app),
        AppMode::Diff => scroll_room(app.diff_scroll, key),
        AppMode::Files => scroll_room(app.files_scroll, key),
        AppMode::Issues => list_room(app.issues_cursor, app.issues_scroll, app.term_h, key),
        AppMode::IssueDetail => list_room(app.issue_detail_cursor, app.issue_detail_scroll, app.term_h, key),
        AppMode::Gists => gists_room(app, key),
        AppMode::GistContent => scroll_room(app.gist_content_scroll, key),
        AppMode::Report => scroll_room(app.report_scroll, key),
        AppMode::Repos => repos_room(app, key),
        _ => true,
    }
}

fn scroll_room_exec(s: usize, key: Key) -> (r: bool)
    ensures
        r == scroll_room(s, key),
{
    match key {
        Key::Char('j') | Key::Down => s < usize::MAX,
        Key::Char('J') => s <= usize::MAX - 5,
        _ => true,
    }
}

fn list_room_exec(cursor: usize, scroll: usize, term_h: u16, key: Key) -> (r: bool)
    ensures
        r == list_room(cursor, scroll, term_h, key),
{
    let rows = list_rows_exec(term_h);
    match key {
        Key::Char('j') | Key::Down => cursor < usize::MAX && scroll <= usize::MAX - rows,
        Key::Char('J') => cursor <= usize::MAX - 5 && scroll <= usize::MAX - rows,
        _ => true,
    }
}

fn tree_cursor_key_ok_exec(app: &AppState, key: Key) -> (r: bool)
    ensures
        r == tree_cursor_key_ok(*app, key),
{
    let len = app.render_lines.len();
    let u = app.cursor as usize;
    let step = app.term_h as i128 - 4;
    let c = app.cursor as i128;
    let small = (isize::MIN as i128) <= c - step && c - step <= (isize::MAX as i128);
    let big = (isize::MIN as i128) <= c + step && c + step <= (isize::MAX as i128);
    let len_fits = (len as u128) <= (isize::MAX as u128);
    match key {
        Key::Char('j') | Key::Down => app.cursor < isize::MAX,
        Key::Char('k') | Key::Up => (if u >= 1 { u - 1 } else { 0 }) < len,
        Key::Char('J') => len >= 1,
        Key::Char('K') => u <= len,
        Key::PageUp => small,
        Key::PageDown => big && len_fits,
        Key::Char('G') | Key::End => len_fits,
        _ => true,
    }
}

/// Whether `key` can be handled in the current view (see `key_ok`).
pub fn key_ok_exec(app: &AppState, key: Key) -> (r: bool)
    ensures
        r == key_ok(*app, key),
{
    match app.mode {
        AppMode::Tree => !tree_key_draws_exec(key) || (data_ready_exec(app) && lines_point_in_exec(app)
            && tree_cursor_key_ok_exec(app, key)),
        AppMode::TreeFilter => data_ready_exec(app),
        AppMode::Diff => scroll_room_exec(app.diff_scroll, key),
        AppMode::Files => scroll_room_exec(app.files_scroll, key),
        AppMode::Issues => list_room_exec(app.issues_cursor, app.issues_scroll, app.term_h, key),
        AppMode::IssueDetail => list_room_exec(app.issue_detail_cursor, app.issue_detail_scroll, app.term_h, key),
        AppMode::Gists => list_room_exec(app.gists_cursor, app.gists_scroll, app.term_h, key) && (key != Key::Char(
            'G',
        ) || app.gists_scroll <= usize::MAX - list_rows_exec(app.term_h)),
        AppMode::GistContent => scroll_room_exec(app.gist_content_scroll, key),
        AppMode::Report => scroll_room_exec(app.report_scroll, key),
        AppMode::Repos => list_room_exec(app.repos_cursor, app.repos_scroll, app.term_h, key),
        _ => true,
    }
}

/// The work that a key in the e-mail filter of the report leaves, before the
/// suggestions are looked at.
pub open spec fn report_filter_action(o: AppState, key: Key) -> Action {
    match key {
        Key::Enter => Action::OpenReport,
        Key::Tab => if o.report_ac_list@.len() == 1 { Action::OpenReport } else { Action::Nothing },
        _ => Action::Nothing,
    }
}

/// While an e-mail is typed in the report filter, the suggestions are looked up
/// again after each key.
pub open spec fn with_completions(f: AppState, r: Action) -> Action {
    if f.mode == AppMode::ReportFilter && f.report_email_input@.len() > 0 {
        Action::UpdateReportCompletions
    } else {
        r
    }
}

/// What a key does: Ctrl-C quits from anywhere; otherwise the view that has the
/// keyboard handles the key.
pub open spec fn key_post(o: AppState, f: AppState, key: Key, ctrl: bool, r: Action) -> bool {
    if ctrl && key == Key::Char('c') {
        f == o && r == Action::Quit
    } else {
        match o.mode {
            AppMode::Help => help_key_post(o, f, key) && r == Action::Nothing,
            AppMode::Tree => if is_cursor_key(key) {
                f == (AppState { cursor: cursor_after(o.render_lines@, o.cursor, o.term_h, key), dirty: true, ..o })
                    && r == Action::Nothing
            } else {
                tree_key_post(o, f, key, r)
            },
            AppMode::TreeFilter => tree_filter_post(o, f, key) && r == Action::Nothing,
            AppMode::Diff => diff_post(o, f, key, r),
            AppMode::Files => files_post(o, f, key) && r == Action::Nothing,
            AppMode::SidebarFocus => sidebar_post(o, f, key) && r == Action::Nothing,
            AppMode::ReportFilter => report_filter_post(o, f, key, report_filter_action(o, key))
                && r == with_completions(f, report_filter_action(o, key)),
            AppMode::Report => report_key_post(o, f, key, r),
            AppMode::IssuesFilter => issue_filter_post(o, f, key, IssueFilter::Text) && r == Action::Nothing,
            AppMode::IssuesLabelFilter => issue_filter_post(o, f, key, IssueFilter::Label) && r == Action::Nothing,
            AppMode::IssuesProjectStatusFilter => issue_filter_post(o, f, key, IssueFilter::Status)
                && r == Action::Nothing,
            AppMode::Issues => issues_key_post(o, f, key, r),
            AppMode::IssueDetail => detail_key_post(o, f, key, r),
            AppMode::IssueCreate => form_key_post(o, f, key, r, false),
            AppMode::IssueEdit => form_key_post(o, f, key, r, true),
            AppMode::GistsFilter => gists_filter_post(o, f, key) && r == Action::Nothing,
            AppMode::Gists => gists_key_post(o, f, key, r),
            AppMode::GistContent => gist_content_post(o, f, key) && r == Action::Nothing,
            AppMode::Repos => repos_key_post(o, f, key, r),
            AppMode::ReposAdd => repos_add_post(o, f, key, r),
        }
    }
}

/// In the tree, the cursor keys keep the cursor on a line of the tree and
/// leave the lines as they are: `g` and `Home` go to the first line, `G` and
/// `End` to the last (on a screen of at least four rows, the tree's frame).
pub proof fn law_tree_cursor_keys(o: AppState, f: AppState, key: Key, r: Action)
    requires
        o.mode == AppMode::Tree,
        is_cursor_key(key),
        0 <= o.cursor < o.render_lines@.len(),
        o.render_lines@.len() <= isize::MAX,
        o.term_h >= 4,
        key_post(o, f, key, false, r),
    ensures
        0 <= f.cursor < f.render_lines@.len(),
        f.render_lines == o.render_lines,
        r == Action::Nothing,
        key == Key::Char('g') || key == Key::Home ==> f.cursor == 0,
        key == Key::Char('G') || key == Key::End ==> f.cursor == o.render_lines@.len() - 1,
{
    law_cursor_keys_stay_on_lines(o.render_lines@, o.cursor, o.term_h, key);
}

/// In the tree, pressing `m` (metadata lines) or `c` (compact view) twice
/// gives back the state before the first press, with the tree drawn for it
/// (only the redraw flag is set).
pub proof fn law_tree_toggle_twice(
    o: AppState,
    f1: AppState,
    f2: AppState,
    key: Key,
    r1: Action,
    r2: Action,
)
    requires
        o.mode == AppMode::Tree,
        key == Key::Char('m') || key == Key::Char('c'),
        key_post(o, f1, key, false, r1),
        key_post(f1, f2, key, false, r2),
    ensures
        f2 == (AppState { render_lines: f2.render_lines, dirty: true, ..o }),
        render_view(f2.render_lines@) == rendered(o),
        r1 == Action::Nothing && r2 == Action::Nothing,
{
    let mid = if key == Key::Char('m') {
        AppState { show_meta: !f1.show_meta, ..f1 }
    } else {
        AppState { compact: !f1.compact, ..f1 }
    };
    assert(render_view(f2.render_lines@) == rendered(mid));
    lemma_rendered_same(o, mid);
}

/// Zooming in the tree (`Enter` or `o` on a commit with a hash) leaves only
/// descendants of that commit drawn: every commit on a line of the tree is in every set
/// of hashes that holds the chosen commit and each commit one of whose parents
/// it holds.
pub proof fn law_zoom_shows_descendants(o: AppState, f: AppState, key: Key, r: Action, ci: usize)
    requires
        o.mode == AppMode::Tree,
        key == Key::Enter || key == Key::Char('o'),
        selected(o) == Some(ci),
        commits_view(o.commits@)[ci as int].hash.len() > 0,
        o.commits@.len() <= usize::MAX,
        key_post(o, f, key, false, r),
    ensures
        forall|j: int, t: Set<Seq<char>>|
            0 <= j < f.render_lines@.len() && (#[trigger] f.render_lines@[j]).commit_idx is Some && t.contains(
                commits_view(o.commits@)[ci as int].hash,
            ) && #[trigger] closed_under_children(commits_view(o.commits@), t) ==> t.contains(
                commits_view(o.commits@)[f.render_lines@[j].commit_idx->0 as int].hash,
            ),
{
    let mid = AppState { descendant_filter: f.descendant_filter, descendant_set: f.descendant_set, cursor: 0, ..o };
    let cv = commits_view(o.commits@);
    let dset = f.descendant_set@.map_values(|h: String| h@).to_set();
    law_tree_shows_listed_commits(mid);
    assert(mid.descendant_set@.len() > 0) by {
        if mid.descendant_set@.len() == 0 {
            assert(f.descendant_set@.map_values(|h: String| h@) =~= Seq::<Seq<char>>::empty());
            assert(!dset.contains(cv[ci as int].hash));
        }
    }
    assert forall|j: int, t: Set<Seq<char>>|
        0 <= j < f.render_lines@.len() && (#[trigger] f.render_lines@[j]).commit_idx is Some && t.contains(
            cv[ci as int].hash,
        ) && #[trigger] closed_under_children(cv, t) implies t.contains(
        cv[f.render_lines@[j].commit_idx->0 as int].hash,
    ) by {
        assert(render_view(f.render_lines@)[j] == rendered(mid)[j]);
        let i = f.render_lines@[j].commit_idx->0 as int;
        assert(commit_listed(mid, i));
        assert(dset.subset_of(t));
    }
}

/// Handles one key press: changes the state of the views and returns the work
/// left to the caller (`Action::Quit` to leave).
pub fn handle_key(app: &mut AppState, key: Key, ctrl: bool) -> (r: Action)
    requires
        ctrl && key == Key::Char('c') || key_ok(*old(app), key),
    ensures
        key_post(*old(app), *final(app), key, ctrl, r),
{
    if ctrl && key == Key::Char('c') {
        return Action::Quit;
    }
    match app.mode {
        AppMode::Tree => handle_tree_key(app, key),
        AppMode::Help => {
            handle_help_key(app, key);
            Action::Nothing
        },
        AppMode::TreeFilter => {
            handle_tree_filter_key(app, key);
            Action::Nothing
        },
        AppMode::Diff => handle_diff_key(app, key),
        AppMode::Files => {
            handle_files_key(app, key);
            Action::Nothing
        },
        AppMode::SidebarFocus => {
            handle_sidebar_key(app, key);
            Action::Nothing
        },
        AppMode::ReportFilter => {
            let r0 = handle_report_filter_key(app, key);
            if app.mode == AppMode::ReportFilter && app.report_email_input.as_str().unicode_len() > 0 {
                Action::UpdateReportCompletions
            } else {
                r0
            }
        },
        AppMode::Report => handle_report_key(app, key),
        AppMode::IssuesFilter => {
            handle_issue_filter_key(app, key, IssueFilter::Text);
            Action::Nothing
        },
        AppMode::IssuesLabelFilter => {
            handle_issue_filter_key(app, key, IssueFilter::Label);
            Action::Nothing
        },
        AppMode::IssuesProjectStatusFilter => {
            handle_issue_filter_key(app, key, IssueFilter::Status);
            Action::Nothing
        },
        AppMode::Issues => handle_issues_key(app, key),
        AppMode::IssueDetail => handle_issue_detail_key(app, key),
        AppMode::IssueCreate => handle_issue_form_key(app, key, false),
        AppMode::IssueEdit => handle_issue_form_key(app, key, true),
        AppMode::GistsFilter => {
            handle_gists_filter_key(app, key);
            Action::Nothing
        },
        AppMode::Gists => handle_gists_key(app, key),
        AppMode::GistContent => {
            handle_gist_content_key(app, key);
            Action::Nothing
        },
        AppMode::Repos => handle_repos_key(app, key),
        AppMode::ReposAdd => handle_repos_add_key(app, key),
    }
}

} // verus!

//! The steps around the GitHub calls of the issue views: which issue a key is
//! about, what is sent, and what the views show of the reply.
use vstd::prelude::*;
use std::collections::HashMap;
use crate::issue_views::status_of;
use crate::issues::{
    detail_number, issue_number_for_detail, issue_number_in_line, lemma_strings_view_push, num_run,
    strings_view,
};
use crate::report::push_line;
use crate::state::{show_msg, show_msg_string, AppMode, AppState, CmdOutcome};
use crate::text::{
    chars_of, clear_string, concat2, concat3, decimal, eq_str, find_char, find_char_from, lemma_find_char_bounds,
    push_str, split_lines, string_of, text_lines, trim_bounds, trimmed, u64_to_decimal,
};
use crate::gists::join_strings;
use crate::gists::joined;

verus! {

// ── Lists of names ──────────────────────────────────────────────────────────

/// The pieces of `s[k..]` between the `c`s (`str::split`).
pub open spec fn split_from(s: Seq<char>, c: char, k: int) -> Seq<Seq<char>>
    decreases s.len() - k,
{
    if k < 0 || k > s.len() {
        seq![]
    } else {
        match find_char_from(s, c, k) {
            Some(i) => {
                proof {
                    lemma_find_char_bounds(s, c, k);
                }
                seq![s.subrange(k, i)] + split_from(s, c, i + 1)
            },
            None => seq![s.subrange(k, s.len() as int)],
        }
    }
}

/// The non-empty trimmed forms of `parts`, in order.
pub open spec fn trimmed_names(parts: Seq<Seq<char>>) -> Seq<Seq<char>>
    decreases parts.len(),
{
    if parts.len() == 0 {
        seq![]
    } else {
        let rest = trimmed_names(parts.drop_last());
        let t = trimmed(parts.last());
        if t.len() > 0 { rest.push(t) } else { rest }
    }
}

/// The labels of a comma-separated input.
pub open spec fn comma_labels(input: Seq<char>) -> Seq<Seq<char>> {
    trimmed_names(split_from(input, ',', 0))
}

fn push_trimmed(out: &mut Vec<String>, v: &Vec<char>, lo: usize, hi: usize)
    requires
        lo <= hi <= v@.len(),
    ensures
        ({
            let t = trimmed(v@.subrange(lo as int, hi as int));
            &&& t.len() > 0 ==> strings_view(final(out)@) == strings_view(old(out)@).push(t)
            &&& t.len() == 0 ==> final(out)@ == old(out)@
        }),
{
    let part = crate::text::slice_chars(v, lo, hi);
    let (a, b) = trim_bounds(&part);
    if b > a {
        push_line(out, string_of(&part, a, b));
    }
}

/// The labels typed in a comma-separated input: each piece trimmed, the empty
/// ones left out.
pub fn parse_comma_labels(input: &str) -> (r: Vec<String>)
    ensures
        strings_view(r@) == comma_labels(input@),
{
    let v = chars_of(input);
    let n = v.len();
    let mut out: Vec<String> = Vec::new();
    let mut start: usize = 0;
    let ghost all = split_from(v@, ',', 0);
    let ghost mut done: Seq<Seq<char>> = seq![];
    loop
        invariant
            start <= n,
            n == v@.len(),
            v@ == input@,
            all == split_from(v@, ',', 0),
            done + split_from(v@, ',', start as int) == all,
            strings_view(out@) == trimmed_names(done),
        decreases n - start,
    {
        match find_char(&v, ',', start) {
            Some(i) => {
                proof {
                    lemma_find_char_bounds(v@, ',', start as int);
                }
                push_trimmed(&mut out, &v, start, i);
                proof {
                    let piece = v@.subrange(start as int, i as int);
                    assert(split_from(v@, ',', start as int) == seq![piece] + split_from(v@, ',', i + 1));
                    assert(done.push(piece).drop_last() =~= done);
                    assert(done.push(piece) + split_from(v@, ',', i + 1) =~= done + split_from(v@, ',', start as int));
                    done = done.push(piece);
                }
                start = i + 1;
            },
            None => {
                push_trimmed(&mut out, &v, start, n);
                proof {
                    let piece = v@.subrange(start as int, n as int);
                    assert(split_from(v@, ',', start as int) == seq![piece]);
                    assert(done.push(piece).drop_last() =~= done);
                    assert(done.push(piece) =~= all);
                }
                return out;
            },
        }
    }
}

/// The labels of the repository, one per line of `gh label list` output.
pub fn parse_label_listing(text: &str) -> (r: Vec<String>)
    ensures
        strings_view(r@) == trimmed_names(text_lines(text@)),
{
    let lines = split_lines(text);
    let ghost lv = strings_view(lines@);
    let mut out: Vec<String> = Vec::new();
    let mut i: usize = 0;
    while i < lines.len()
        invariant
            i <= lines@.len(),
            lv == strings_view(lines@),
            lv == text_lines(text@),
            strings_view(out@) == trimmed_names(lv.take(i as int)),
        decreases lines@.len() - i,
    {
        let v = chars_of(lines[i].as_str());
        assert(v@.subrange(0, v@.len() as int) =~= v@);
        push_trimmed(&mut out, &v, 0, v.len());
        proof {
            assert(lv.take(i + 1).drop_last() =~= lv.take(i as int));
            assert(lv.take(i + 1).last() == lines@[i as int]@);
        }
        i = i + 1;
    }
    assert(lv.take(lines@.len() as int) =~= lv);
    out
}

/// The labels known for autocompletion after `gh label list` ran (`None` when
/// no GitHub remote was found, which keeps them).
pub open spec fn labels_after(old_labels: Seq<Seq<char>>, fetched: Option<CmdOutcome>) -> Seq<Seq<char>> {
    match fetched {
        None => old_labels,
        Some(CmdOutcome::Done(t)) => trimmed_names(text_lines(t@)),
        Some(_) => seq![],
    }
}

pub fn set_available_labels(app: &mut AppState, fetched: Option<CmdOutcome>)
    ensures
        *final(app) == (AppState { available_labels: final(app).available_labels, ..*old(app) }),
        strings_view(final(app).available_labels@) == labels_after(strings_view(old(app).available_labels@), fetched),
{
    match fetched {
        None => {},
        Some(CmdOutcome::Done(t)) => {
            app.available_labels = parse_label_listing(t.as_str());
        },
        Some(_) => {
            app.available_labels = Vec::new();
            assert(strings_view(app.available_labels@) =~= Seq::<Seq<char>>::empty());
        },
    }
}

// ── Creating an issue ───────────────────────────────────────────────────────

/// Opens the create form, empty, with the labels of the repository.
pub fn start_create_issue(app: &mut AppState, fetched: Option<CmdOutcome>)
    ensures
        *final(app) == (AppState {
            issue_create_title: final(app).issue_create_title,
            issue_create_body: final(app).issue_create_body,
            issue_create_focus: 0,
            issue_create_labels_input: final(app).issue_create_labels_input,
            label_ac_list: final(app).label_ac_list,
            label_ac_idx: 0,
            available_labels: final(app).available_labels,
            mode: AppMode::IssueCreate,
            ..*old(app)
        }),
        final(app).issue_create_title@.len() == 0,
        final(app).issue_create_body@.len() == 0,
        final(app).issue_create_labels_input@.len() == 0,
        final(app).label_ac_list@.len() == 0,
        strings_view(final(app).available_labels@) == labels_after(strings_view(old(app).available_labels@), fetched),
{
    clear_string(&mut app.issue_create_title);
    clear_string(&mut app.issue_create_body);
    app.issue_create_focus = 0;
    clear_string(&mut app.issue_create_labels_input);
    app.label_ac_list = Vec::new();
    app.label_ac_idx = 0;
    set_available_labels(app, fetched);
    app.mode = AppMode::IssueCreate;
}

/// What is sent to create an issue.
pub struct IssueDraft {
    pub title: String,
    pub body: String,
    pub labels: Vec<String>,
}

/// The issue the create form describes: its title and body trimmed and its
/// labels; `None`, with a message, when the title is empty.
pub fn issue_draft(app: &mut AppState) -> (r: Option<IssueDraft>)
    ensures
        trimmed(old(app).issue_create_title@).len() == 0 ==> r is None && *final(app) == (AppState {
            msg: final(app).msg,
            msg_new: true,
            ..*old(app)
        }) && final(app).msg@ == "Title cannot be empty"@,
        trimmed(old(app).issue_create_title@).len() > 0 ==> *final(app) == *old(app) && (r matches Some(d) && d.title@
            == trimmed(old(app).issue_create_title@) && d.body@ == trimmed(old(app).issue_create_body@)
            && strings_view(d.labels@) == comma_labels(old(app).issue_create_labels_input@)),
{
    let tv = chars_of(app.issue_create_title.as_str());
    let (a, b) = trim_bounds(&tv);
    if a == b {
        show_msg(app, "Title cannot be empty");
        return None;
    }
    let title = string_of(&tv, a, b);
    let bv = chars_of(app.issue_create_body.as_str());
    let (c, d) = trim_bounds(&bv);
    let body = string_of(&bv, c, d);
    let labels = parse_comma_labels(app.issue_create_labels_input.as_str());
    Some(IssueDraft { title, body, labels })
}

/// After creating an issue: its number, or the error. On success the form is
/// emptied and the list is to be fetched again (`true`).
pub fn after_issue_created(app: &mut AppState, result: Result<u64, String>) -> (refresh: bool)
    ensures
        refresh == (result is Ok),
        match result {
            Ok(n) => *final(app) == (AppState {
                msg: final(app).msg,
                msg_new: true,
                issue_create_title: final(app).issue_create_title,
                issue_create_body: final(app).issue_create_body,
                issue_create_labels_input: final(app).issue_create_labels_input,
                mode: AppMode::Issues,
                ..*old(app)
            }) && final(app).msg@ == "Issue #"@ + decimal(n as nat) + " created!"@
                && final(app).issue_create_title@.len() == 0 && final(app).issue_create_body@.len() == 0
                && final(app).issue_create_labels_input@.len() == 0,
            Err(e) => *final(app) == (AppState { msg: final(app).msg, msg_new: true, ..*old(app) })
                && final(app).msg@ == "Error: "@ + e@,
        },
{
    match result {
        Ok(n) => {
            show_msg_string(app, concat3("Issue #", u64_to_decimal(n).as_str(), " created!"));
            clear_string(&mut app.issue_create_title);
            clear_string(&mut app.issue_create_body);
            clear_string(&mut app.issue_create_labels_input);
            app.mode = AppMode::Issues;
            true
        },
        Err(e) => {
            show_msg_string(app, concat2("Error: ", e.as_str()));
            false
        },
    }
}

// ── The issue under the cursor ──────────────────────────────────────────────

/// The issue whose details to fetch: the number on the line under the cursor
/// (nothing past the end of the list; a message when there is no number). The
/// detail view is scrolled to its top when there is one.
pub fn pick_detail_issue(app: &mut AppState) -> (r: Option<u64>)
    ensures
        old(app).issues_cursor >= old(app).issues_lines@.len() ==> r is None && *final(app) == *old(app),
        old(app).issues_cursor < old(app).issues_lines@.len() ==> ({
            let line = old(app).issues_lines@[old(app).issues_cursor as int]@;
            match detail_number(line) {
                Some(n) => r == Some(n) && *final(app) == (AppState {
                    issue_detail_cursor: 0,
                    issue_detail_scroll: 0,
                    ..*old(app)
                }),
                None => r is None && *final(app) == (AppState { msg: final(app).msg, msg_new: true, ..*old(app) })
                    && final(app).msg@ == "Could not parse issue number"@,
            }
        }),
{
    if app.issues_cursor >= app.issues_lines.len() {
        return None;
    }
    match issue_number_for_detail(app.issues_lines[app.issues_cursor].as_str()) {
        Some(n) => {
            app.issue_detail_cursor = 0;
            app.issue_detail_scroll = 0;
            Some(n)
        },
        None => {
            show_msg(app, "Could not parse issue number");
            None
        },
    }
}

/// The message when an issue's details could not be fetched, without a token
/// (`authenticated` false) or with one.
pub open spec fn detail_failure_msg(authenticated: bool, e: Seq<char>) -> Seq<char> {
    if authenticated { "Error fetching issue: "@ + e } else { "Authentication required to view issue details"@ }
}

pub fn detail_fetch_failed(app: &mut AppState, authenticated: bool, e: String)
    ensures
        *final(app) == (AppState { msg: final(app).msg, msg_new: true, ..*old(app) }),
        final(app).msg@ == detail_failure_msg(authenticated, e@),
{
    if authenticated {
        show_msg_string(app, concat2("Error fetching issue: ", e.as_str()));
    } else {
        show_msg(app, "Authentication required to view issue details");
    }
}

/// The issue that editing or closing is about: the number after the `#` on the
/// line under the cursor. `None`, with a message, when there is no line or no
/// number; `clear_confirm` also drops a pending close confirmation then.
pub fn issue_under_cursor(app: &mut AppState, clear_confirm: bool) -> (r: Option<u64>)
    ensures
        ({
            let o = *old(app);
            let f = *final(app);
            let failed = |m: Seq<char>| r is None && f == (AppState {
                msg: f.msg,
                msg_new: true,
                confirm_delete_issue: if clear_confirm { false } else { o.confirm_delete_issue },
                ..o
            }) && f.msg@ == m;
            if o.issues_cursor >= o.issues_lines@.len() {
                failed("No issue selected"@)
            } else {
                let n = num_run(o.issues_lines@[o.issues_cursor as int]@).num;
                if n == 0 { failed("Could not parse issue number"@) } else { r == Some(n) && f == o }
            }
        }),
{
    if app.issues_cursor >= app.issues_lines.len() {
        show_msg(app, "No issue selected");
        if clear_confirm {
            app.confirm_delete_issue = false;
        }
        return None;
    }
    let n = issue_number_in_line(app.issues_lines[app.issues_cursor].as_str());
    if n == 0 {
        show_msg(app, "Could not parse issue number");
        if clear_confirm {
            app.confirm_delete_issue = false;
        }
        return None;
    }
    Some(n)
}

// ── Editing an issue ────────────────────────────────────────────────────────

/// Opens the edit form with the title and body of issue `n` as fetched (or
/// shows why they could not be had).
pub fn after_edit_fetch(
    app: &mut AppState,
    n: u64,
    result: Result<(String, Option<String>), String>,
    fetched: Option<CmdOutcome>,
)
    ensures
        match result {
            Ok((title, body)) => {
                &&& *final(app) == (AppState {
                    issue_edit_number: n,
                    issue_edit_title: final(app).issue_edit_title,
                    issue_edit_body: final(app).issue_edit_body,
                    issue_edit_focus: 0,
                    issue_edit_labels_input: final(app).issue_edit_labels_input,
                    label_ac_list: final(app).label_ac_list,
                    label_ac_idx: 0,
                    available_labels: final(app).available_labels,
                    mode: AppMode::IssueEdit,
                    dirty: true,
                    ..*old(app)
                })
                &&& final(app).issue_edit_title@ == title@
                &&& final(app).issue_edit_body@ == (match body {
                    Some(b) => b@,
                    None => seq![],
                })
                &&& final(app).issue_edit_labels_input@.len() == 0 && final(app).label_ac_list@.len() == 0
                &&& strings_view(final(app).available_labels@) == labels_after(
                    strings_view(old(app).available_labels@),
                    fetched,
                )
            },
            Err(e) => *final(app) == (AppState { msg: final(app).msg, msg_new: true, ..*old(app) })
                && final(app).msg@ == "Error fetching issue: "@ + e@,
        },
{
    match result {
        Ok((title, body)) => {
            app.issue_edit_number = n;
            app.issue_edit_title = title;
            app.issue_edit_body = match body {
                Some(b) => b,
                None => String::new(),
            };
            app.issue_edit_focus = 0;
            clear_string(&mut app.issue_edit_labels_input);
            app.label_ac_list = Vec::new();
            app.label_ac_idx = 0;
            set_available_labels(app, fetched);
            app.mode = AppMode::IssueEdit;
            app.dirty = true;
        },
        Err(e) => {
            show_msg_string(app, concat2("Error fetching issue: ", e.as_str()));
        },
    }
}

/// The arguments of `gh` that save the edit form of issue `n` of `owner/repo`.
pub open spec fn edit_args(n: u64, owner: Seq<char>, repo: Seq<char>, title: Seq<char>, body: Seq<char>, labels: Seq<Seq<char>>) -> Seq<Seq<char>> {
    seq!["issue"@, "edit"@, decimal(n as nat), "--repo"@, owner + "/"@ + repo, "--title"@, title] + (if body.len() > 0 {
        seq!["--body"@, body]
    } else {
        seq![]
    }) + (if labels.len() > 0 { seq!["--add-label"@, joined(labels, ","@)] } else { seq![] })
}

/// What saving the edit form sends to `gh` (`None`, with a message, when the
/// title is empty).
pub fn issue_edit_args(app: &mut AppState, owner: &str, repo: &str) -> (r: Option<Vec<String>>)
    ensures
        ({
            let o = *old(app);
            let title = trimmed(o.issue_edit_title@);
            if title.len() == 0 {
                r is None && *final(app) == (AppState { msg: final(app).msg, msg_new: true, ..o })
                    && final(app).msg@ == "Title cannot be empty"@
            } else {
                *final(app) == o && (r matches Some(v) && strings_view(v@) == edit_args(
                    o.issue_edit_number,
                    owner@,
                    repo@,
                    title,
                    trimmed(o.issue_edit_body@),
                    comma_labels(o.issue_edit_labels_input@),
                ))
            }
        }),
{
    let tv = chars_of(app.issue_edit_title.as_str());
    let (a, b) = trim_bounds(&tv);
    if a == b {
        show_msg(app, "Title cannot be empty");
        return None;
    }
    let title = string_of(&tv, a, b);
    let bv = chars_of(app.issue_edit_body.as_str());
    let (c, d) = trim_bounds(&bv);
    let body = string_of(&bv, c, d);
    let labels = parse_comma_labels(app.issue_edit_labels_input.as_str());
    let mut args: Vec<String> = Vec::new();
    push_line(&mut args, String::from_str("issue"));
    push_line(&mut args, String::from_str("edit"));
    push_line(&mut args, u64_to_decimal(app.issue_edit_number));
    push_line(&mut args, String::from_str("--repo"));
    push_line(&mut args, concat3(owner, "/", repo));
    push_line(&mut args, String::from_str("--title"));
    push_line(&mut args, title);
    let ghost base = strings_view(args@);
    let has_body = body.as_str().unicode_len() > 0;
    if has_body {
        push_line(&mut args, String::from_str("--body"));
        push_line(&mut args, body);
    }
    let ghost with_body = strings_view(args@);
    if labels.len() > 0 {
        push_line(&mut args, String::from_str("--add-label"));
        push_line(&mut args, join_strings(&labels, ","));
    }
    assert(strings_view(args@) =~= edit_args(
        app.issue_edit_number,
        owner@,
        repo@,
        trimmed(app.issue_edit_title@),
        trimmed(app.issue_edit_body@),
        comma_labels(app.issue_edit_labels_input@),
    ));
    Some(args)
}

/// What `gh` printed when it failed: its standard error, or its output when the
/// standard error is blank, trimmed.
pub open spec fn failure_detail(err: Seq<char>, out: Seq<char>) -> Seq<char> {
    if trimmed(err).len() == 0 { trimmed(out) } else { trimmed(err) }
}

fn failure_detail_exec(err: &String, out: &String) -> (r: String)
    ensures
        r@ == failure_detail(err@, out@),
{
    let ev = chars_of(err.as_str());
    let (a, b) = trim_bounds(&ev);
    if a == b {
        let ov = chars_of(out.as_str());
        let (c, d) = trim_bounds(&ov);
        string_of(&ov, c, d)
    } else {
        string_of(&ev, a, b)
    }
}

/// The message after saving the edit form of issue `n` with `gh`.
pub open spec fn update_msg(n: u64, out: CmdOutcome) -> Seq<char> {
    match out {
        CmdOutcome::NotRun(e) => "Error updating issue: "@ + "Failed to run `gh`: "@ + e@,
        CmdOutcome::Failed(err, o) => "Error updating issue: "@ + failure_detail(err@, o@),
        CmdOutcome::Done(_) => "Issue #"@ + decimal(n as nat) + " updated!"@,
    }
}

/// After `gh issue edit` ran: back to the list, with a message; the list is to
/// be fetched again when the edit was saved (`true`).
pub fn after_issue_update(app: &mut AppState, out: CmdOutcome) -> (refresh: bool)
    ensures
        refresh == (out is Done),
        *final(app) == (AppState { msg: final(app).msg, msg_new: true, mode: AppMode::Issues, ..*old(app) }),
        final(app).msg@ == update_msg(old(app).issue_edit_number, out),
{
    let ghost o = out;
    let refresh = match out {
        CmdOutcome::NotRun(e) => {
            show_msg_string(app, concat3("Error updating issue: ", "Failed to run `gh`: ", e.as_str()));
            false
        },
        CmdOutcome::Failed(err, so) => {
            show_msg_string(app, concat2("Error updating issue: ", failure_detail_exec(&err, &so).as_str()));
            false
        },
        CmdOutcome::Done(_) => {
            show_msg_string(app, concat3("Issue #", u64_to_decimal(app.issue_edit_number).as_str(), " updated!"));
            true
        },
    };
    app.mode = AppMode::Issues;
    refresh
}

// ── Closing an issue ────────────────────────────────────────────────────────

/// The arguments of `gh` that close issue `n` of `owner/repo`.
pub open spec fn close_args(n: u64, owner: Seq<char>, repo: Seq<char>) -> Seq<Seq<char>> {
    seq!["issue"@, "close"@, decimal(n as nat), "--repo"@, owner + "/"@ + repo]
}

pub fn issue_close_args(n: u64, owner: &str, repo: &str) -> (r: Vec<String>)
    ensures
        strings_view(r@) == close_args(n, owner@, repo@),
{
    let mut args: Vec<String> = Vec::new();
    push_line(&mut args, String::from_str("issue"));
    push_line(&mut args, String::from_str("close"));
    push_line(&mut args, u64_to_decimal(n));
    push_line(&mut args, String::from_str("--repo"));
    push_line(&mut args, concat3(owner, "/", repo));
    assert(strings_view(args@) =~= close_args(n, owner@, repo@));
    args
}

/// The message after `gh issue close` ran for issue `n`.
pub open spec fn close_msg(n: u64, out: CmdOutcome) -> Seq<char> {
    match out {
        CmdOutcome::NotRun(e) => "Error deleting issue: "@ + "Failed to run `gh`: "@ + e@,
        CmdOutcome::Failed(err, o) => "Error deleting issue: "@ + "gh issue close failed: "@ + failure_detail(err@, o@)
            + "\nMake sure you are authenticated with `gh auth login` and have write access to the repository."@,
        CmdOutcome::Done(_) => "Issue #"@ + decimal(n as nat) + " deleted!"@,
    }
}

/// After `gh issue close` ran for issue `n`: a message, no pending
/// confirmation, and on success the cursor one line up and the list to be
/// fetched again (`true`).
pub fn after_issue_close(app: &mut AppState, n: u64, out: CmdOutcome) -> (refresh: bool)
    ensures
        refresh == (out is Done),
        *final(app) == (AppState {
            msg: final(app).msg,
            msg_new: true,
            confirm_delete_issue: false,
            issues_cursor: if refresh && old(app).issues_cursor > 0 {
                (old(app).issues_cursor - 1) as usize
            } else {
                old(app).issues_cursor
            },
            ..*old(app)
        }),
        final(app).msg@ == close_msg(n, out),
{
    let refresh = match out {
        CmdOutcome::NotRun(e) => {
            show_msg_string(app, concat3("Error deleting issue: ", "Failed to run `gh`: ", e.as_str()));
            false
        },
        CmdOutcome::Failed(err, so) => {
            let mut m = concat3("Error deleting issue: ", "gh issue close failed: ", failure_detail_exec(&err, &so).as_str());
            push_str(
                &mut m,
                "\nMake sure you are authenticated with `gh auth login` and have write access to the repository.",
            );
            show_msg_string(app, m);
            false
        },
        CmdOutcome::Done(_) => {
            show_msg_string(app, concat3("Issue #", u64_to_decimal(n).as_str(), " deleted!"));
            if app.issues_cursor > 0 {
                app.issues_cursor = app.issues_cursor - 1;
            }
            true
        },
    };
    app.confirm_delete_issue = false;
    refresh
}

// ── Project status ──────────────────────────────────────────────────────────

/// A field value of a project item, as `gh project item-list` gives it: the
/// name of its field, and its value's name or option id.
pub struct FieldValue {
    pub field_name: Option<String>,
    pub name: Option<String>,
    pub option_id: Option<String>,
}

/// An item of a project: the number of its issue (when it is one) and its
/// field values.
pub struct ProjectItem {
    pub number: Option<u64>,
    pub fields: Vec<FieldValue>,
}

/// The status of an item, from its field values from `k` on: the name (or else
/// the option id) of the first field named "status" in any case that has one.
pub open spec fn status_in(fvs: Seq<FieldValue>, k: int) -> Option<Seq<char>>
    decreases fvs.len() - k,
{
    if k < 0 || k >= fvs.len() {
        None
    } else {
        let fv = fvs[k];
        let fname = match fv.field_name {
            Some(f) => f@,
            None => seq![],
        };
        if crate::text::lowercase(fname) == "status"@ {
            match fv.name {
                Some(n) => Some(n@),
                None => match fv.option_id {
                    Some(o) => Some(o@),
                    None => status_in(fvs, k + 1),
                },
            }
        } else {
            status_in(fvs, k + 1)
        }
    }
}

/// Extract the status field value from a project item's field values.
pub fn extract_status_from_item(fields: &Vec<FieldValue>) -> (r: Option<String>)
    ensures
        r matches Some(x) ==> status_in(fields@, 0) == Some(x@),
        r is None ==> status_in(fields@, 0) is None,
{
    let mut k: usize = 0;
    while k < fields.len()
        invariant
            k <= fields@.len(),
            status_in(fields@, k as int) == status_in(fields@, 0),
        decreases fields@.len() - k,
    {
        let fv = &fields[k];
        let fname = match &fv.field_name {
            Some(f) => f.clone(),
            None => String::new(),
        };
        let lower = crate::text::to_lowercase(fname.as_str());
        if eq_str(lower.as_str(), "status") {
            match &fv.name {
                Some(n) => {
                    return Some(n.clone());
                },
                None => {},
            }
            match &fv.option_id {
                Some(o) => {
                    return Some(o.clone());
                },
                None => {},
            }
        }
        k = k + 1;
    }
    None
}

/// The statuses of the items, in order: (issue number, status) for each item
/// that is an issue and has a status.
pub open spec fn statuses(items: Seq<ProjectItem>) -> Seq<(u64, Seq<char>)>
    decreases items.len(),
{
    if items.len() == 0 {
        seq![]
    } else {
        let rest = statuses(items.drop_last());
        let it = items.last();
        match (it.number, status_in(it.fields@, 0)) {
            (Some(n), Some(st)) => rest.push((n, st)),
            _ => rest,
        }
    }
}

pub open spec fn status_pairs(v: Seq<(u64, String)>) -> Seq<(u64, Seq<char>)> {
    v.map_values(|p: (u64, String)| (p.0, p.1@))
}

/// The project statuses of a project's items, to be added after those of the
/// projects before it (a later status of an issue wins).
pub fn project_statuses(items: &Vec<ProjectItem>) -> (r: Vec<(u64, String)>)
    ensures
        status_pairs(r@) == statuses(items@),
{
    let mut out: Vec<(u64, String)> = Vec::new();
    let mut i: usize = 0;
    while i < items.len()
        invariant
            i <= items@.len(),
            status_pairs(out@) == statuses(items@.take(i as int)),
        decreases items@.len() - i,
    {
        proof {
            assert(items@.take(i + 1).drop_last() =~= items@.take(i as int));
            assert(items@.take(i + 1).last() == items@[i as int]);
        }
        let it = &items[i];
        match it.number {
            Some(n) => match extract_status_from_item(&it.fields) {
                Some(st) => {
                    let ghost before = out@;
                    out.push((n, st));
                    assert(status_pairs(out@) =~= status_pairs(before).push((n, out@.last().1@)));
                },
                None => {},
            },
            None => {},
        }
        i = i + 1;
    }
    assert(items@.take(items@.len() as int) =~= items@);
    out
}

/// The last status that `pairs` gives issue `n`.
pub open spec fn last_status(pairs: Seq<(u64, Seq<char>)>, n: u64) -> Option<Seq<char>>
    decreases pairs.len(),
{
    if pairs.len() == 0 {
        None
    } else if pairs.last().0 == n {
        Some(pairs.last().1)
    } else {
        last_status(pairs.drop_last(), n)
    }
}

/// The project statuses by issue: a later status of an issue replaces an
/// earlier one.
pub fn status_map(pairs: &Vec<(u64, String)>) -> (r: HashMap<u64, String>)
    ensures
        forall|n: u64| #[trigger] status_of(r@, n) == last_status(status_pairs(pairs@), n),
{
    broadcast use vstd::std_specs::hash::group_hash_axioms;

    let ghost pv = status_pairs(pairs@);
    let mut m: HashMap<u64, String> = HashMap::new();
    let mut i: usize = 0;
    while i < pairs.len()
        invariant
            i <= pairs@.len(),
            pv == status_pairs(pairs@),
            forall|n: u64| #[trigger] status_of(m@, n) == last_status(pv.take(i as int), n),
        decreases pairs@.len() - i,
    {
        let k = pairs[i].0;
        let v = pairs[i].1.clone();
        let ghost before = m@;
        m.insert(k, v);
        proof {
            assert(pv.take(i + 1).drop_last() =~= pv.take(i as int));
            assert(pv.take(i + 1).last() == (k, v@));
            assert forall|n: u64| #[trigger] status_of(m@, n) == last_status(pv.take(i + 1), n) by {
                if n != k {
                    assert(status_of(m@, n) == status_of(before, n));
                }
            }
        }
        i = i + 1;
    }
    assert(pv.take(pairs@.len() as int) =~= pv);
    m
}

} // verus!

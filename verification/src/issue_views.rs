//! The issue list and the detail view of an issue, as drawn from what the GitHub
//! API returns, and the command-line listing.
use vstd::prelude::*;
use std::collections::HashMap;
use crate::ansi::{BLD, CYN, DIM, GRY, LBL, LCY, LGR, LMA, LRE, LYL, RST, WHT};
use crate::gists::{clone_lines, join_strings, joined, rule_line_exec, rule_of};
use crate::issues::{detail_number, lemma_num_run_reads, lemma_strings_view_push, num_run, number_or_zero, strings_view};
use crate::report::push_line;
use crate::sidebar::repeat;
use crate::state::{AppMode, AppState};
use crate::text::{
    chars_of, concat2, contains, concat3, decimal, eq_str, lowercase, push_str, repeated, split_lines, text_lines,
    to_lowercase, u64_to_decimal, find_char_from, first_word, is_space, skip_space, token_end, lemma_decimal_digits,
    lemma_decimal_parses, lemma_find_char_from, lemma_token_end_at, is_digit,
};

verus! {

/// What the list shows of an issue, as the GitHub API gives it.
pub struct IssueSummary {
    pub number: u64,
    pub title: String,
    pub user: String,
    pub open: bool,
    /// The login of its first assignee.
    pub assignee: Option<String>,
    /// The names of its labels, in the API's order.
    pub labels: Vec<String>,
}

// ── Project status badges ───────────────────────────────────────────────────

/// The colour of a project status, by its name in lower case.
pub open spec fn status_color(lower: Seq<char>) -> Seq<char> {
    if lower == "todo"@ {
        LBL@
    } else if lower == "in-progress"@ || lower == "in progress"@ {
        LYL@
    } else if lower == "review-required"@ || lower == "review required"@ {
        LMA@
    } else if lower == "qa-ready"@ || lower == "qa ready"@ {
        LCY@
    } else if lower == "qa-passed"@ || lower == "qa passed"@ || lower == "qa-in-progress"@ || lower
        == "qa in progress"@ {
        LGR@
    } else if lower == "ready-for-release"@ || lower == "ready for release"@ {
        LRE@
    } else {
        DIM@
    }
}

fn status_color_exec(lower: &str) -> (r: &'static str)
    ensures
        r@ == status_color(lower@),
{
    if eq_str(lower, "todo") {
        LBL
    } else if eq_str(lower, "in-progress") || eq_str(lower, "in progress") {
        LYL
    } else if eq_str(lower, "review-required") || eq_str(lower, "review required") {
        LMA
    } else if eq_str(lower, "qa-ready") || eq_str(lower, "qa ready") {
        LCY
    } else if eq_str(lower, "qa-passed") || eq_str(lower, "qa passed") || eq_str(lower, "qa-in-progress")
        || eq_str(lower, "qa in progress") {
        LGR
    } else if eq_str(lower, "ready-for-release") || eq_str(lower, "ready for release") {
        LRE
    } else {
        DIM
    }
}

/// The project status of issue `n` in the status map.
pub open spec fn status_of(st: Map<u64, String>, n: u64) -> Option<Seq<char>> {
    if st.contains_key(n) {
        Some(st[n]@)
    } else {
        None
    }
}

fn status_of_exec(st: &HashMap<u64, String>, n: u64) -> (r: Option<String>)
    ensures
        r matches Some(x) ==> status_of(st@, n) == Some(x@),
        r is None ==> status_of(st@, n) is None,
{
    broadcast use vstd::std_specs::hash::group_hash_axioms;

    match st.get(&n) {
        Some(v) => Some(v.clone()),
        None => None,
    }
}

/// The badge of an issue's project status (nothing when it has none).
pub open spec fn status_badge(st: Map<u64, String>, n: u64) -> Seq<char> {
    match status_of(st, n) {
        Some(s) => BLD@ + status_color(lowercase(s)) + "["@ + s + "]"@ + RST@ + " "@,
        None => seq![],
    }
}

fn status_badge_exec(st: &HashMap<u64, String>, n: u64) -> (r: String)
    ensures
        r@ == status_badge(st@, n),
{
    match status_of_exec(st, n) {
        Some(s) => {
            let lower = to_lowercase(s.as_str());
            let mut b = String::from_str(BLD);
            push_str(&mut b, status_color_exec(lower.as_str()));
            push_str(&mut b, "[");
            push_str(&mut b, s.as_str());
            push_str(&mut b, "]");
            push_str(&mut b, RST);
            push_str(&mut b, " ");
            b
        },
        None => String::new(),
    }
}

// ── Lines of an issue ───────────────────────────────────────────────────────

/// A label as the list shows it.
pub open spec fn label_tag(name: Seq<char>) -> Seq<char> {
    BLD@ + LBL@ + "["@ + name + "]"@ + RST@
}

/// The tags of the first `k` labels.
pub open spec fn label_tags(labels: Seq<Seq<char>>, k: int) -> Seq<Seq<char>>
    decreases k,
{
    if k <= 0 { seq![] } else { label_tags(labels, k - 1).push(label_tag(labels[k - 1])) }
}

/// The labels of an issue on one line: the first `max` tags, and `…` when it has
/// more.
pub open spec fn label_str(labels: Seq<Seq<char>>, max: int) -> Seq<char> {
    let shown = if labels.len() > max { max } else { labels.len() as int };
    let tags = joined(label_tags(labels, shown), " "@);
    if labels.len() > max { tags + " "@ + DIM@ + "…"@ + RST@ } else { tags }
}

pub fn label_str_exec(labels: &Vec<String>, max: usize) -> (r: String)
    ensures
        r@ == label_str(strings_view(labels@), max as int),
{
    let ghost lv = strings_view(labels@);
    let n = labels.len();
    let shown = if n > max { max } else { n };
    let mut tags: Vec<String> = Vec::new();
    let mut i: usize = 0;
    while i < shown
        invariant
            i <= shown <= labels@.len(),
            lv == strings_view(labels@),
            strings_view(tags@) == label_tags(lv, i as int),
        decreases shown - i,
    {
        let mut t = String::from_str(BLD);
        push_str(&mut t, LBL);
        push_str(&mut t, "[");
        push_str(&mut t, labels[i].as_str());
        push_str(&mut t, "]");
        push_str(&mut t, RST);
        push_line(&mut tags, t);
        i = i + 1;
    }
    let mut s = join_strings(&tags, " ");
    if n > max {
        push_str(&mut s, " ");
        push_str(&mut s, DIM);
        push_str(&mut s, "…");
        push_str(&mut s, RST);
    }
    s
}

/// The open or closed tag of an issue in the list.
pub open spec fn state_tag(open: bool) -> Seq<char> {
    if open { LGR@ + BLD@ + "OPEN  "@ + RST@ } else { LRE@ + BLD@ + "CLOSED"@ + RST@ }
}

/// Who an issue is assigned to, as the list shows it.
pub open spec fn assignee_tag(a: Option<String>) -> Seq<char> {
    match a {
        Some(x) => LMA@ + "@"@ + x@,
        None => DIM@ + "-"@ + RST@,
    }
}

/// The main line of an issue in the list.
pub open spec fn issue_line(st: Map<u64, String>, i: IssueSummary) -> Seq<char> {
    "  "@ + LYL@ + "#"@ + decimal(i.number as nat) + "  "@ + status_badge(st, i.number) + " "@ + state_tag(i.open)
        + " "@ + BLD@ + WHT@ + i.title@ + "  "@ + RST@ + "  "@ + assignee_tag(i.assignee) + "by "@ + GRY@
        + i.user@ + "  "@ + RST@
}

/// Opening the issue on its line of the list opens that issue: the number read
/// off the line is the issue's.
#[verifier::spinoff_prover]
#[verifier::rlimit(50)]
pub proof fn law_issue_line_opens_its_issue(st: Map<u64, String>, i: IssueSummary)
    ensures
        detail_number(issue_line(st, i)) == Some(i.number),
{
    reveal_strlit("  ");
    reveal_strlit("#");
    reveal_strlit("\x1b[93m");
    let line = issue_line(st, i);
    let d = decimal(i.number as nat);
    let pre = "  "@ + LYL@;
    let tail = line.skip((pre.len() + 1 + d.len()) as int);
    lemma_decimal_digits(i.number as nat);
    lemma_decimal_parses(i.number);
    assert(line =~= pre + seq!['#'] + d + tail);
    assert(tail[0] == ' ');
    lemma_find_char_from(line, '#', 0);
    assert(find_char_from(line, '#', 0) == Some(pre.len() as int)) by {
        assert(line[pre.len() as int] == '#');
        assert forall|m: int| 0 <= m < pre.len() implies line[m] != '#' by {
            assert(line[m] == pre[m]);
        }
        if find_char_from(line, '#', 0) != Some(pre.len() as int) {
            let j = find_char_from(line, '#', 0)->0;
            assert(j < pre.len());
        }
    }
    let after = line.skip((pre.len() + 1) as int);
    assert(after =~= d + tail);
    lemma_find_char_from(after, '#', 0);
    let e = match find_char_from(after, '#', 0) {
        Some(j) => j,
        None => after.len() as int,
    };
    assert(e >= d.len()) by {
        if e < d.len() {
            assert(after[e] == d[e]);
        }
    }
    let seg = after.take(e);
    assert(skip_space(seg, 0) == 0) by {
        assert(seg[0] == d[0]);
    }
    assert forall|k: int| 0 <= k < d.len() implies !is_space(#[trigger] seg[k]) by {
        assert(seg[k] == d[k]);
    }
    if e > d.len() {
        assert(seg[d.len() as int] == tail[0]);
    }
    lemma_token_end_at(seg, 0, d.len() as int);
    assert(seg.subrange(0, d.len() as int) =~= d);
    assert(first_word(seg) == Some(d));
}

/// Editing or closing the issue on its line of the list acts on that issue:
/// the number read off the line is the issue's.
#[verifier::spinoff_prover]
pub proof fn law_issue_line_names_its_issue(st: Map<u64, String>, i: IssueSummary)
    ensures
        num_run(issue_line(st, i)).num == i.number,
{
    reveal_strlit("  ");
    reveal_strlit("#");
    reveal_strlit("\x1b[93m");
    let line = issue_line(st, i);
    let d = decimal(i.number as nat);
    let pre = "  "@ + LYL@;
    let tail = line.skip((pre.len() + 1 + d.len()) as int);
    lemma_decimal_digits(i.number as nat);
    lemma_decimal_parses(i.number);
    assert(line =~= pre + seq!['#'] + d + tail);
    assert(tail[0] == ' ');
    let h = pre.len() as int;
    let e = h + 1 + d.len();
    assert forall|m: int| 0 <= m < h implies line[m] != '#' by {
        assert(line[m] == pre[m]);
    }
    assert forall|m: int| h < m < e implies is_digit(#[trigger] line[m]) by {
        assert(line[m] == d[m - h - 1]);
    }
    assert(line[e] == ' ');
    lemma_num_run_reads(line, h, e);
    assert(line.subrange(h + 1, e) =~= d);
}

/// The labels line of an issue in the list.
pub open spec fn labels_line(labels: Seq<Seq<char>>, max: int) -> Seq<char> {
    "  "@ + DIM@ + "↳ Labels:"@ + RST@ + " "@ + label_str(labels, max)
}

/// The list lines of one issue: its main line and, when it has labels, the
/// first two of them.
pub open spec fn issue_block(st: Map<u64, String>, i: IssueSummary) -> Seq<Seq<char>> {
    let labels = strings_view(i.labels@);
    if labels.len() > 0 { seq![issue_line(st, i), labels_line(labels, 2)] } else { seq![issue_line(st, i)] }
}

pub open spec fn issue_blocks(st: Map<u64, String>, is: Seq<IssueSummary>, k: int) -> Seq<Seq<char>>
    decreases k,
{
    if k <= 0 { seq![] } else { issue_blocks(st, is, k - 1) + issue_block(st, is[k - 1]) }
}

/// The state filter as the list header names it.
pub open spec fn state_name(s: Seq<char>) -> Seq<char> {
    if s == "closed"@ { "closed"@ } else if s == "all"@ { "all"@ } else { "open"@ }
}

/// The issue list for the issues of `owner/repo` that the API returned.
pub open spec fn issues_text(app: AppState, is: Seq<IssueSummary>, owner: Seq<char>, repo: Seq<char>) -> Seq<Seq<char>> {
    if is.len() == 0 {
        seq!["  "@ + DIM@ + "No "@ + app.issues_state@ + " issues found for "@ + owner + "/"@ + repo + RST@]
    } else {
        seq![
            BLD@ + CYN@ + " "@ + owner + "/"@ + repo + RST@ + "  "@ + DIM@ + "("@ + decimal(is.len()) + " "@ + state_name(
                app.issues_state@,
            ) + ")"@ + RST@ + DIM@ + "  "@ + RST@ + "s"@ + DIM@ + " toggle  "@ + RST@ + "q"@ + DIM@ + " back"@ + RST@,
            rule_of(app.term_w),
        ] + issue_blocks(app.issues_project_status@, is, is.len() as int)
    }
}

fn state_tag_exec(open: bool) -> (r: String)
    ensures
        r@ == state_tag(open),
{
    if open {
        let mut s = String::from_str(LGR);
        push_str(&mut s, BLD);
        push_str(&mut s, "OPEN  ");
        push_str(&mut s, RST);
        s
    } else {
        let mut s = String::from_str(LRE);
        push_str(&mut s, BLD);
        push_str(&mut s, "CLOSED");
        push_str(&mut s, RST);
        s
    }
}

fn assignee_tag_exec(a: &Option<String>) -> (r: String)
    ensures
        r@ == assignee_tag(*a),
{
    match a {
        Some(x) => concat3(LMA, "@", x.as_str()),
        None => concat3(DIM, "-", RST),
    }
}

#[verifier::rlimit(40)]
fn issue_line_exec(st: &HashMap<u64, String>, i: &IssueSummary) -> (r: String)
    ensures
        r@ == issue_line(st@, *i),
{
    let mut s = String::from_str("  ");
    push_str(&mut s, LYL);
    push_str(&mut s, "#");
    push_str(&mut s, u64_to_decimal(i.number).as_str());
    push_str(&mut s, "  ");
    push_str(&mut s, status_badge_exec(st, i.number).as_str());
    push_str(&mut s, " ");
    push_str(&mut s, state_tag_exec(i.open).as_str());
    push_str(&mut s, " ");
    push_str(&mut s, BLD);
    push_str(&mut s, WHT);
    push_str(&mut s, i.title.as_str());
    push_str(&mut s, "  ");
    push_str(&mut s, RST);
    push_str(&mut s, "  ");
    push_str(&mut s, assignee_tag_exec(&i.assignee).as_str());
    push_str(&mut s, "by ");
    push_str(&mut s, GRY);
    push_str(&mut s, i.user.as_str());
    push_str(&mut s, "  ");
    push_str(&mut s, RST);
    s
}

fn labels_line_exec(labels: &Vec<String>, max: usize) -> (r: String)
    ensures
        r@ == labels_line(strings_view(labels@), max as int),
{
    let mut s = String::from_str("  ");
    push_str(&mut s, DIM);
    push_str(&mut s, "↳ Labels:");
    push_str(&mut s, RST);
    push_str(&mut s, " ");
    push_str(&mut s, label_str_exec(labels, max).as_str());
    s
}

fn push_issue_block(out: &mut Vec<String>, st: &HashMap<u64, String>, i: &IssueSummary)
    ensures
        strings_view(final(out)@) == strings_view(old(out)@) + issue_block(st@, *i),
{
    let ghost o = strings_view(out@);
    push_line(out, issue_line_exec(st, i));
    if i.labels.len() > 0 {
        push_line(out, labels_line_exec(&i.labels, 2));
    }
    assert(strings_view(out@) =~= o + issue_block(st@, *i));
}

pub fn state_name_exec(s: &String) -> (r: &'static str)
    ensures
        r@ == state_name(s@),
{
    if eq_str(s.as_str(), "closed") {
        "closed"
    } else if eq_str(s.as_str(), "all") {
        "all"
    } else {
        "open"
    }
}

/// Fills the issue list with the issues of `owner/repo` that the API returned
/// (an empty reply leaves the unfiltered list as it was).
#[verifier::rlimit(40)]
pub fn format_issues_lines(app: &mut AppState, issues: &Vec<IssueSummary>, owner: &str, repo: &str)
    ensures
        ({
            let text = issues_text(*old(app), issues@, owner@, repo@);
            &&& strings_view(final(app).issues_lines@) == text
            &&& issues@.len() > 0 ==> *final(app) == (AppState {
                issues_lines: final(app).issues_lines,
                issues_lines_full: final(app).issues_lines_full,
                issues_scroll: 0,
                mode: AppMode::Issues,
                ..*old(app)
            }) && strings_view(final(app).issues_lines_full@) == text
            &&& issues@.len() == 0 ==> *final(app) == (AppState {
                issues_lines: final(app).issues_lines,
                issues_scroll: 0,
                mode: AppMode::Issues,
                ..*old(app)
            })
        }),
{
    let ghost text = issues_text(*app, issues@, owner@, repo@);
    let mut lines: Vec<String> = Vec::new();
    let n = issues.len();
    if n == 0 {
        let mut l = String::from_str("  ");
        push_str(&mut l, DIM);
        push_str(&mut l, "No ");
        push_str(&mut l, app.issues_state.as_str());
        push_str(&mut l, " issues found for ");
        push_str(&mut l, owner);
        push_str(&mut l, "/");
        push_str(&mut l, repo);
        push_str(&mut l, RST);
        push_line(&mut lines, l);
        assert(strings_view(lines@) =~= text);
    } else {
        let mut h = String::from_str(BLD);
        push_str(&mut h, CYN);
        push_str(&mut h, " ");
        push_str(&mut h, owner);
        push_str(&mut h, "/");
        push_str(&mut h, repo);
        push_str(&mut h, RST);
        push_str(&mut h, "  ");
        push_str(&mut h, DIM);
        push_str(&mut h, "(");
        push_str(&mut h, u64_to_decimal(n as u64).as_str());
        push_str(&mut h, " ");
        push_str(&mut h, state_name_exec(&app.issues_state));
        push_str(&mut h, ")");
        push_str(&mut h, RST);
        push_str(&mut h, DIM);
        push_str(&mut h, "  ");
        push_str(&mut h, RST);
        push_str(&mut h, "s");
        push_str(&mut h, DIM);
        push_str(&mut h, " toggle  ");
        push_str(&mut h, RST);
        push_str(&mut h, "q");
        push_str(&mut h, DIM);
        push_str(&mut h, " back");
        push_str(&mut h, RST);
        push_line(&mut lines, h);
        push_line(&mut lines, rule_line_exec(app.term_w));
        let ghost head = strings_view(lines@);
        let mut k: usize = 0;
        while k < n
            invariant
                k <= n,
                n == issues@.len(),
                strings_view(lines@) == head + issue_blocks(app.issues_project_status@, issues@, k as int),
            decreases n - k,
        {
            push_issue_block(&mut lines, &app.issues_project_status, &issues[k]);
            assert(strings_view(lines@) =~= head + issue_blocks(app.issues_project_status@, issues@, k + 1));
            k = k + 1;
        }
        assert(strings_view(lines@) =~= text);
        app.issues_lines_full = clone_lines(&lines);
    }
    app.issues_lines = lines;
    app.issues_scroll = 0;
    app.mode = AppMode::Issues;
}

/// Why the issue list could not be had.
pub enum IssuesFailure {
    /// No GitHub remote in the repository.
    NoRemote,
    /// The unauthenticated request failed: the repository may need a token.
    NeedsAuth,
    /// The authenticated request failed with this error.
    Fetch(String),
}

/// The lines shown when the issue list could not be had.
pub open spec fn issues_failure_text(f: IssuesFailure) -> Seq<Seq<char>> {
    match f {
        IssuesFailure::NoRemote => seq![
            "  "@ + DIM@ + "No GitHub remote detected. Use `gitscope issues --owner O --repo R` from CLI."@ + RST@
        ],
        IssuesFailure::NeedsAuth => seq![
            "  "@ + LRE@ + "This repository may require authentication."@ + RST@,
            "  "@ + DIM@ + "Set GITHUB_TOKEN or GH_TOKEN env var, or run `gh auth login`"@ + RST@,
        ],
        IssuesFailure::Fetch(e) => seq!["  "@ + LRE@ + "Error fetching issues: "@ + e@ + RST@],
    }
}

/// Shows why the issue list could not be had.
pub fn show_issues_failure(app: &mut AppState, f: IssuesFailure)
    ensures
        *final(app) == (AppState {
            issues_lines: final(app).issues_lines,
            issues_scroll: 0,
            mode: AppMode::Issues,
            ..*old(app)
        }),
        strings_view(final(app).issues_lines@) == issues_failure_text(f),
{
    let ghost fv = f;
    let mut lines: Vec<String> = Vec::new();
    match f {
        IssuesFailure::NoRemote => {
            let mut l = concat3("  ", DIM, "No GitHub remote detected. Use `gitscope issues --owner O --repo R` from CLI.");
            push_str(&mut l, RST);
            push_line(&mut lines, l);
            assert(strings_view(lines@) =~= issues_failure_text(fv));
        },
        IssuesFailure::NeedsAuth => {
            let mut a = concat3("  ", LRE, "This repository may require authentication.");
            push_str(&mut a, RST);
            let mut b = concat3("  ", DIM, "Set GITHUB_TOKEN or GH_TOKEN env var, or run `gh auth login`");
            push_str(&mut b, RST);
            push_line(&mut lines, a);
            push_line(&mut lines, b);
            assert(strings_view(lines@) =~= issues_failure_text(fv));
        },
        IssuesFailure::Fetch(e) => {
            let mut a = concat3("  ", LRE, "Error fetching issues: ");
            push_str(&mut a, e.as_str());
            push_str(&mut a, RST);
            push_line(&mut lines, a);
            assert(strings_view(lines@) =~= issues_failure_text(fv));
        },
    }
    app.issues_lines = lines;
    app.issues_scroll = 0;
    app.mode = AppMode::Issues;
}

// ── The detail view ─────────────────────────────────────────────────────────

/// What the detail view shows of an issue, as the GitHub API gives it (the days
/// as `YYYY-MM-DD`).
pub struct IssueDetail {
    pub number: u64,
    pub title: String,
    pub open: bool,
    pub user: String,
    pub created: String,
    pub updated: String,
    pub assignees: Vec<String>,
    pub milestone: Option<String>,
    pub comments: u32,
    pub pull_request: bool,
    pub labels: Vec<String>,
    pub url: String,
    pub body: Option<String>,
}

/// `tag(x)` for each `x` of `v[..k]`, each followed by `sep`... written out:
/// the assignees as `@login`, joined by spaces.
pub open spec fn assignee_tags(v: Seq<Seq<char>>, k: int) -> Seq<Seq<char>>
    decreases k,
{
    if k <= 0 { seq![] } else { assignee_tags(v, k - 1).push(LMA@ + "@"@ + v[k - 1]) }
}

/// The labels of the detail view: each tag followed by a space.
pub open spec fn detail_label_run(v: Seq<Seq<char>>, k: int) -> Seq<char>
    decreases k,
{
    if k <= 0 { seq![] } else { detail_label_run(v, k - 1) + label_tag(v[k - 1]) + " "@ }
}

/// Lines that are there only when `c` holds.
pub open spec fn when(c: bool, l: Seq<char>) -> Seq<Seq<char>> {
    if c { seq![l] } else { seq![] }
}

/// The body lines of the detail view.
pub open spec fn body_text(body: Option<String>) -> Seq<Seq<char>> {
    match body {
        Some(b) if b@.len() > 0 => seq![BLD@ + LGR@ + "Body:"@ + RST@] + text_lines(b@).map_values(|l: Seq<char>| "  "@ + l),
        _ => seq!["  "@ + DIM@ + "(no description provided)"@ + RST@],
    }
}

/// The title line of the detail view.
pub open spec fn detail_first(d: IssueDetail) -> Seq<char> {
    let state = if d.open { LGR@ + BLD@ + "OPEN"@ + RST@ } else { LRE@ + BLD@ + "CLOSED"@ + RST@ };
    BLD@ + CYN@ + " #"@ + decimal(d.number as nat) + "  "@ + state + "  "@ + d.title@
}

/// The title line of an issue's detail view names its state: `OPEN` for an
/// open issue, `CLOSED` for a closed one; and, unless the title itself says so,
/// a closed issue's line has no `OPEN` in it before the title and an open
/// issue's line has no `CLOSED`.
pub proof fn law_detail_names_state(d: IssueDetail)
    ensures
        d.open ==> contains(detail_first(d), "OPEN"@),
        !d.open ==> contains(detail_first(d), "CLOSED"@),
        detail_first(d).len() >= d.title@.len(),
        ({
            let head = detail_first(d).take(detail_first(d).len() - d.title@.len());
            &&& detail_first(d).skip(detail_first(d).len() - d.title@.len()) == d.title@
            &&& d.open ==> !contains(head, "CLOSED"@)
            &&& !d.open ==> !contains(head, "OPEN"@)
        }),
{
    reveal_strlit("OPEN");
    reveal_strlit("CLOSED");
    let pre = BLD@ + CYN@ + " #"@ + decimal(d.number as nat) + "  "@;
    let line = detail_first(d);
    if d.open {
        assert(line =~= (pre + LGR@ + BLD@) + "OPEN"@ + (RST@ + "  "@ + d.title@));
        crate::text::lemma_contains_middle(pre + LGR@ + BLD@, "OPEN"@, RST@ + "  "@ + d.title@);
    } else {
        assert(line =~= (pre + LRE@ + BLD@) + "CLOSED"@ + (RST@ + "  "@ + d.title@));
        crate::text::lemma_contains_middle(pre + LRE@ + BLD@, "CLOSED"@, RST@ + "  "@ + d.title@);
    }
    let head = line.take(line.len() - d.title@.len());
    assert(line.skip(line.len() - d.title@.len()) =~= d.title@);
    reveal_strlit("\x1b[1m");
    reveal_strlit("\x1b[36m");
    reveal_strlit("\x1b[92m");
    reveal_strlit("\x1b[91m");
    reveal_strlit("\x1b[0m");
    reveal_strlit(" #");
    reveal_strlit("  ");
    lemma_decimal_digits(d.number as nat);
    let dec = decimal(d.number as nat);
    assert forall|m: int| 0 <= m < dec.len() implies '0' <= #[trigger] dec[m] <= '9' by {
        assert(is_digit(dec[m]));
    }
    // the letter of the other state word that no part of the head holds
    let (w, q, miss): (Seq<char>, int, char) = if d.open { ("CLOSED"@, 0, 'C') } else { ("OPEN"@, 1, 'P') };
    assert(w[q] == miss);
    let body: Seq<char> = if d.open {
        LGR@ + BLD@ + "OPEN"@ + RST@ + "  "@
    } else {
        LRE@ + BLD@ + "CLOSED"@ + RST@ + "  "@
    };
    assert(head =~= pre + body);
    assert forall|m: int| 0 <= m < head.len() implies #[trigger] head[m] != miss by {
        if m < pre.len() {
            let p0 = BLD@ + CYN@ + " #"@;
            if m >= p0.len() && m < p0.len() + dec.len() {
                assert(head[m] == dec[m - p0.len()]);
            }
        }
    }
    crate::text::lemma_contains_iff(head, w);
    assert forall|k: int| 0 <= k && k + w.len() <= head.len() implies #[trigger] head.subrange(k, k + w.len()) != w by {
        assert(head.subrange(k, k + w.len())[q] == head[k + q]);
    }
}

/// The author line of the detail view.
pub open spec fn detail_second(d: IssueDetail) -> Seq<char> {
    "  "@ + GRY@ + "by "@ + d.user@ + RST@ + "  created: "@ + d.created@ + "  updated: "@ + d.updated@
}

/// The link of the detail view and the rule after it.
pub open spec fn detail_url_part(d: IssueDetail) -> Seq<Seq<char>> {
    seq!["  "@ + BLD@ + "URL:"@ + RST@ + "  "@ + d.url@, DIM@, RST@]
}

/// The lines of the detail view of an issue.
pub open spec fn detail_text(d: IssueDetail) -> Seq<Seq<char>> {
    seq![detail_first(d), detail_second(d)] + detail_middle(d) + detail_url_part(d) + body_text(d.body) + seq![
        DIM@,
        RST@,
    ]
}

fn detail_head_lines(out: &mut Vec<String>, d: &IssueDetail)
    ensures
        strings_view(final(out)@) == strings_view(old(out)@) + seq![detail_first(*d), detail_second(*d)],
{
    let ghost o = strings_view(out@);
    let mut h = String::from_str(BLD);
    push_str(&mut h, CYN);
    push_str(&mut h, " #");
    push_str(&mut h, u64_to_decimal(d.number).as_str());
    push_str(&mut h, "  ");
    let state = if d.open { concat3(LGR, BLD, "OPEN") } else { concat3(LRE, BLD, "CLOSED") };
    push_str(&mut h, state.as_str());
    push_str(&mut h, RST);
    push_str(&mut h, "  ");
    push_str(&mut h, d.title.as_str());
    assert(h@ =~= detail_first(*d));
    push_line(out, h);
    let mut b = String::from_str("  ");
    push_str(&mut b, GRY);
    push_str(&mut b, "by ");
    push_str(&mut b, d.user.as_str());
    push_str(&mut b, RST);
    push_str(&mut b, "  created: ");
    push_str(&mut b, d.created.as_str());
    push_str(&mut b, "  updated: ");
    push_str(&mut b, d.updated.as_str());
    assert(b@ =~= detail_second(*d));
    push_line(out, b);
    assert(strings_view(out@) =~= o + seq![detail_first(*d), detail_second(*d)]);
}

/// The optional lines of the detail view, between the author line and the link.
pub open spec fn detail_middle(d: IssueDetail) -> Seq<Seq<char>> {
    let assignees = strings_view(d.assignees@);
    let labels = strings_view(d.labels@);
    when(
        assignees.len() > 0,
        "  "@ + BLD@ + "Assigned:"@ + RST@ + " "@ + joined(assignee_tags(assignees, assignees.len() as int), " "@),
    ) + (match d.milestone {
        Some(m) => seq!["  "@ + BLD@ + "Milestone:"@ + RST@ + " "@ + LCY@ + m@ + RST@],
        None => seq![],
    }) + when(
        d.comments > 0,
        "  "@ + BLD@ + "Comments:"@ + RST@ + " "@ + LYL@ + decimal(d.comments as nat) + RST@,
    ) + when(d.pull_request, "  "@ + BLD@ + "Type:"@ + RST@ + " "@ + LMA@ + "Pull Request"@ + RST@) + when(
        labels.len() > 0,
        "  "@ + BLD@ + "Labels:"@ + RST@ + " "@ + detail_label_run(labels, labels.len() as int),
    )
}

#[verifier::rlimit(60)]
fn detail_middle_lines(out: &mut Vec<String>, d: &IssueDetail)
    ensures
        strings_view(final(out)@) == strings_view(old(out)@) + detail_middle(*d),
{
    let ghost o = strings_view(out@);
    let ghost assignees = strings_view(d.assignees@);
    let ghost labels = strings_view(d.labels@);
    let na = d.assignees.len();
    if na > 0 {
        let mut tags: Vec<String> = Vec::new();
        let mut i: usize = 0;
        while i < na
            invariant
                i <= na,
                na == d.assignees@.len(),
                assignees == strings_view(d.assignees@),
                strings_view(tags@) == assignee_tags(assignees, i as int),
            decreases na - i,
        {
            push_line(&mut tags, concat3(LMA, "@", d.assignees[i].as_str()));
            i = i + 1;
        }
        let mut l = String::from_str("  ");
        push_str(&mut l, BLD);
        push_str(&mut l, "Assigned:");
        push_str(&mut l, RST);
        push_str(&mut l, " ");
        push_str(&mut l, join_strings(&tags, " ").as_str());
        push_line(out, l);
    }
    let ghost s1 = strings_view(out@);
    assert(s1 =~= o + when(assignees.len() > 0, "  "@ + BLD@ + "Assigned:"@ + RST@ + " "@ + joined(assignee_tags(assignees, assignees.len() as int), " "@)));
    match &d.milestone {
        Some(m) => {
            let mut l = String::from_str("  ");
            push_str(&mut l, BLD);
            push_str(&mut l, "Milestone:");
            push_str(&mut l, RST);
            push_str(&mut l, " ");
            push_str(&mut l, LCY);
            push_str(&mut l, m.as_str());
            push_str(&mut l, RST);
            push_line(out, l);
        },
        None => {},
    }
    let ghost s2 = strings_view(out@);
    if d.comments > 0 {
        let mut l = String::from_str("  ");
        push_str(&mut l, BLD);
        push_str(&mut l, "Comments:");
        push_str(&mut l, RST);
        push_str(&mut l, " ");
        push_str(&mut l, LYL);
        push_str(&mut l, u64_to_decimal(d.comments as u64).as_str());
        push_str(&mut l, RST);
        push_line(out, l);
    }
    let ghost s3 = strings_view(out@);
    if d.pull_request {
        let mut l = String::from_str("  ");
        push_str(&mut l, BLD);
        push_str(&mut l, "Type:");
        push_str(&mut l, RST);
        push_str(&mut l, " ");
        push_str(&mut l, LMA);
        push_str(&mut l, "Pull Request");
        push_str(&mut l, RST);
        push_line(out, l);
    }
    let ghost s4 = strings_view(out@);
    let nl = d.labels.len();
    if nl > 0 {
        let mut run = String::new();
        let mut i: usize = 0;
        while i < nl
            invariant
                i <= nl,
                nl == d.labels@.len(),
                labels == strings_view(d.labels@),
                run@ == detail_label_run(labels, i as int),
            decreases nl - i,
        {
            push_str(&mut run, BLD);
            push_str(&mut run, LBL);
            push_str(&mut run, "[");
            push_str(&mut run, d.labels[i].as_str());
            push_str(&mut run, "]");
            push_str(&mut run, RST);
            push_str(&mut run, " ");
            i = i + 1;
        }
        let mut l = String::from_str("  ");
        push_str(&mut l, BLD);
        push_str(&mut l, "Labels:");
        push_str(&mut l, RST);
        push_str(&mut l, " ");
        push_str(&mut l, run.as_str());
        push_line(out, l);
    }
    assert(strings_view(out@) =~= o + detail_middle(*d));
}

fn body_lines(out: &mut Vec<String>, body: &Option<String>)
    ensures
        strings_view(final(out)@) == strings_view(old(out)@) + body_text(*body),
{
    let ghost o = strings_view(out@);
    let has = match body {
        Some(b) => b.as_str().unicode_len() > 0,
        None => false,
    };
    if has {
        let b = match body { Some(b) => b, None => { assert(false); return; } };
        let mut first = concat3(BLD, LGR, "Body:");
        push_str(&mut first, RST);
        push_line(out, first);
        let ghost head = strings_view(out@);
        assert(head =~= o + seq![BLD@ + LGR@ + "Body:"@ + RST@]);
        let lines = split_lines(b.as_str());
        let ghost lv = strings_view(lines@);
        let mut i: usize = 0;
        while i < lines.len()
            invariant
                i <= lines@.len(),
                lv == strings_view(lines@),
                lv == text_lines(b@),
                strings_view(out@) == head + lv.take(i as int).map_values(|l: Seq<char>| "  "@ + l),
            decreases lines@.len() - i,
        {
            push_line(out, concat2("  ", lines[i].as_str()));
            assert(lv.take(i + 1).map_values(|l: Seq<char>| "  "@ + l) =~= lv.take(i as int).map_values(
                |l: Seq<char>| "  "@ + l,
            ).push("  "@ + lv[i as int]));
            i = i + 1;
        }
        assert(lv.take(lines@.len() as int) =~= lv);
    } else {
        let mut l = String::from_str("  ");
        push_str(&mut l, DIM);
        push_str(&mut l, "(no description provided)");
        push_str(&mut l, RST);
        push_line(out, l);
    }
    assert(strings_view(out@) =~= o + body_text(*body));
}

/// Fills the detail view with an issue.
#[verifier::spinoff_prover]
pub fn format_issue_detail(app: &mut AppState, d: &IssueDetail)
    ensures
        *final(app) == (AppState {
            issue_detail_lines: final(app).issue_detail_lines,
            issue_detail_scroll: 0,
            mode: AppMode::IssueDetail,
            ..*old(app)
        }),
        strings_view(final(app).issue_detail_lines@) == detail_text(*d),
{
    let mut out: Vec<String> = Vec::new();
    detail_head_lines(&mut out, d);
    detail_middle_lines(&mut out, d);
    let mut u = String::from_str("  ");
    push_str(&mut u, BLD);
    push_str(&mut u, "URL:");
    push_str(&mut u, RST);
    push_str(&mut u, "  ");
    push_str(&mut u, d.url.as_str());
    push_line(&mut out, u);
    push_line(&mut out, String::from_str(DIM));
    push_line(&mut out, String::from_str(RST));
    let ghost before_body = strings_view(out@);
    assert(before_body =~= seq![detail_first(*d), detail_second(*d)] + detail_middle(*d) + detail_url_part(*d));
    body_lines(&mut out, &d.body);
    push_line(&mut out, String::from_str(DIM));
    push_line(&mut out, String::from_str(RST));
    assert(strings_view(out@) =~= detail_text(*d));
    app.issue_detail_lines = out;
    app.issue_detail_scroll = 0;
    app.mode = AppMode::IssueDetail;
}

} // verus!

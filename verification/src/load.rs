//! Loading the commit window: the state the views start from, and what is made
//! of the repository as git reports it (branches and their colours, authors by
//! number of commits, lanes).
use vstd::prelude::*;
use std::collections::HashMap;
use crate::graph::{build_desc_set, commits_view, is_descendant_set, lane_layout, lane_run, law_lanes_in_range, occ_view, CommitInfo};
use crate::issues::strings_view;
use crate::keys::{selected};
use crate::render::{
    build_render_buffer, commit_ready, data_ready, lemma_data_ready_renders, lines_point_in, render_view, rendered,
};
use crate::state::{branch_color, branch_color_at, AppMode, AppState, BranchInfo, RepoEntry};
use crate::text::{chars_of, eq_str, lemma_lex_irreflexive, lemma_lex_transitive, lex_less, lex_less_exec};

verus! {

// ── The first state ─────────────────────────────────────────────────────────

impl AppState {
    /// The state before anything is loaded: the tree view, `count` commits (on
    /// all branches when `show_all`, on `branch_filter` when it is not empty),
    /// issues that are open, the report by name, an 80 by 24 terminal; every
    /// other list, text and position empty or zero, and no question pending.
    pub fn new(count: usize, show_all: bool, branch_filter: String, clipboard_cmd: Option<String>) -> (app: AppState)
        ensures
            app.mode == AppMode::Tree,
            app.dirty == true,
            app.refresh == true,
            app.commits@.len() == 0,
            app.branches@.len() == 0,
            app.repo_name@.len() == 0,
            app.current_branch@.len() == 0,
            app.head_hash@.len() == 0,
            app.total == 0,
            app.lanes@.len() == 0,
            app.occupied@.len() == 0,
            app.max_lane == 0,
            app.nlanes == 1,
            app.render_lines@.len() == 0,
            app.cursor == 0,
            app.scroll == 0,
            app.count == count,
            app.show_all == show_all,
            app.show_meta == false,
            app.compact == false,
            app.filter_text@.len() == 0,
            app.filter_input@.len() == 0,
            app.branch_filter@ == branch_filter@,
            app.descendant_filter@.len() == 0,
            app.descendant_set@.len() == 0,
            app.date_from@.len() == 0,
            app.date_to@.len() == 0,
            app.diff_scroll == 0,
            app.diff_lines@.len() == 0,
            app.files_scroll == 0,
            app.files_lines@.len() == 0,
            app.issues_scroll == 0,
            app.issues_lines@.len() == 0,
            app.issues_lines_full@.len() == 0,
            app.issues_state@ == "open"@,
            app.issues_filter_input@.len() == 0,
            app.issues_filter_text@.len() == 0,
            app.issues_date_filter@.len() == 0,
            app.issues_label_filter@.len() == 0,
            app.issues_label_filter_input@.len() == 0,
            app.issues_project_status@ == Map::<u64, String>::empty(),
            app.issues_project_status_filter@.len() == 0,
            app.issues_project_status_filter_input@.len() == 0,
            app.issues_cursor == 0,
            app.issue_create_title@.len() == 0,
            app.issue_create_body@.len() == 0,
            app.issue_create_focus == 0,
            app.issue_create_labels_input@.len() == 0,
            app.issue_edit_title@.len() == 0,
            app.issue_edit_body@.len() == 0,
            app.issue_edit_number == 0,
            app.issue_edit_focus == 0,
            app.issue_edit_labels_input@.len() == 0,
            app.issue_detail_cursor == 0,
            app.issue_detail_scroll == 0,
            app.issue_detail_lines@.len() == 0,
            app.confirm_delete_issue == false,
            app.report_scroll == 0,
            app.report_lines@.len() == 0,
            app.report_email_filter@.len() == 0,
            app.report_email_input@.len() == 0,
            app.report_sort@ == "name"@,
            app.report_ac_idx == 0,
            app.report_ac_list@.len() == 0,
            app.branch_idx == 0,
            app.authors@.len() == 0,
            app.term_w == 80,
            app.term_h == 24,
            app.clipboard_cmd == clipboard_cmd,
            app.msg@.len() == 0,
            app.msg_new == false,
            app.repos@.len() == 0,
            app.repos_cursor == 0,
            app.repos_scroll == 0,
            app.repos_add_input@.len() == 0,
            app.gists_scroll == 0,
            app.gists_lines@.len() == 0,
            app.gists_lines_full@.len() == 0,
            app.gists_cursor == 0,
            app.gists_filter_input@.len() == 0,
            app.gists_filter_text@.len() == 0,
            app.gist_content_lines@.len() == 0,
            app.gist_content_scroll == 0,
            app.available_labels@.len() == 0,
            app.label_ac_list@.len() == 0,
            app.label_ac_idx == 0,
    {
        AppState {
            mode: AppMode::Tree,
            dirty: true,
            refresh: true,
            commits: Vec::new(),
            branches: Vec::new(),
            repo_name: String::new(),
            current_branch: String::new(),
            head_hash: String::new(),
            total: 0,
            lanes: Vec::new(),
            occupied: Vec::new(),
            max_lane: 0,
            nlanes: 1,
            render_lines: Vec::new(),
            cursor: 0,
            scroll: 0,
            count,
            show_all,
            show_meta: false,
            compact: false,
            filter_text: String::new(),
            filter_input: String::new(),
            branch_filter,
            descendant_filter: String::new(),
            descendant_set: Vec::new(),
            date_from: String::new(),
            date_to: String::new(),
            diff_scroll: 0,
            diff_lines: Vec::new(),
            files_scroll: 0,
            files_lines: Vec::new(),
            issues_scroll: 0,
            issues_lines: Vec::new(),
            issues_lines_full: Vec::new(),
            issues_state: String::from_str("open"),
            issues_filter_input: String::new(),
            issues_filter_text: String::new(),
            issues_date_filter: String::new(),
            issues_label_filter: String::new(),
            issues_label_filter_input: String::new(),
            issues_project_status: HashMap::new(),
            issues_project_status_filter: String::new(),
            issues_project_status_filter_input: String::new(),
            issues_cursor: 0,
            issue_create_title: String::new(),
            issue_create_body: String::new(),
            issue_create_focus: 0,
            issue_create_labels_input: String::new(),
            issue_edit_title: String::new(),
            issue_edit_body: String::new(),
            issue_edit_number: 0,
            issue_edit_focus: 0,
            issue_edit_labels_input: String::new(),
            issue_detail_cursor: 0,
            issue_detail_scroll: 0,
            issue_detail_lines: Vec::new(),
            confirm_delete_issue: false,
            report_scroll: 0,
            report_lines: Vec::new(),
            report_email_filter: String::new(),
            report_email_input: String::new(),
            report_sort: String::from_str("name"),
            report_ac_idx: 0,
            report_ac_list: Vec::new(),
            branch_idx: 0,
            authors: Vec::new(),
            term_w: 80,
            term_h: 24,
            clipboard_cmd,
            msg: String::new(),
            msg_new: false,
            repos: Vec::new(),
            repos_cursor: 0,
            repos_scroll: 0,
            repos_add_input: String::new(),
            gists_scroll: 0,
            gists_lines: Vec::new(),
            gists_lines_full: Vec::new(),
            gists_cursor: 0,
            gists_filter_input: String::new(),
            gists_filter_text: String::new(),
            gist_content_lines: Vec::new(),
            gist_content_scroll: 0,
            available_labels: Vec::new(),
            label_ac_list: Vec::new(),
            label_ac_idx: 0,
        }
    }
}

// ── Authors ─────────────────────────────────────────────────────────────────

/// Each author of `authors` once, in the order first seen, with the number of
/// times seen.
pub open spec fn tally(authors: Seq<Seq<char>>) -> Seq<(Seq<char>, nat)>
    decreases authors.len(),
{
    if authors.len() == 0 {
        seq![]
    } else {
        let t = tally(authors.drop_last());
        let a = authors.last();
        match index_in(t, a, 0) {
            Some(k) => t.update(k, (a, t[k].1 + 1)),
            None => t.push((a, 1)),
        }
    }
}

/// Where author `a` stands in `t`, from `k` on.
pub open spec fn index_in(t: Seq<(Seq<char>, nat)>, a: Seq<char>, k: int) -> Option<int>
    decreases t.len() - k,
{
    if k < 0 || k >= t.len() {
        None
    } else if t[k].0 == a {
        Some(k)
    } else {
        index_in(t, a, k + 1)
    }
}

/// Where an author with `c` commits goes in a list by count, most first, after
/// those with as many.
pub open spec fn count_place(s: Seq<(Seq<char>, nat)>, c: nat, k: int) -> int
    decreases s.len() - k,
{
    if k < 0 || k >= s.len() {
        s.len() as int
    } else if s[k].1 < c {
        k
    } else {
        count_place(s, c, k + 1)
    }
}

/// `s` by count, most first (a stable sort).
pub open spec fn by_count(s: Seq<(Seq<char>, nat)>) -> Seq<(Seq<char>, nat)>
    decreases s.len(),
{
    if s.len() == 0 {
        s
    } else {
        let r = by_count(s.drop_last());
        r.insert(count_place(r, s.last().1, 0), s.last())
    }
}

/// The authors of the window, with their numbers of commits, most first.
pub open spec fn author_counts(commits: Seq<CommitInfo>) -> Seq<(Seq<char>, nat)> {
    by_count(tally(commits.map_values(|c: CommitInfo| c.author@)))
}

pub open spec fn authors_view(v: Seq<(String, usize)>) -> Seq<(Seq<char>, nat)> {
    v.map_values(|p: (String, usize)| (p.0@, p.1 as nat))
}

proof fn lemma_index_in(t: Seq<(Seq<char>, nat)>, a: Seq<char>, k: int)
    requires
        0 <= k,
    ensures
        index_in(t, a, k) matches Some(i) ==> k <= i < t.len() && t[i].0 == a,
        index_in(t, a, k) is None ==> forall|i: int| k <= i < t.len() ==> t[i].0 != a,
    decreases t.len() - k,
{
    if k < t.len() && t[k].0 != a {
        lemma_index_in(t, a, k + 1);
    }
}

proof fn lemma_tally_counts(authors: Seq<Seq<char>>)
    ensures
        tally(authors).len() <= authors.len(),
        forall|i: int| 0 <= i < tally(authors).len() ==> tally(authors)[i].1 <= authors.len(),
    decreases authors.len(),
{
    if authors.len() > 0 {
        lemma_tally_counts(authors.drop_last());
        lemma_index_in(tally(authors.drop_last()), authors.last(), 0);
    }
}

/// Where `count_place` puts `c`: after every entry with at least `c`, and
/// before the first with fewer.
proof fn lemma_count_place(s: Seq<(Seq<char>, nat)>, c: nat, k: int)
    requires
        0 <= k <= s.len(),
        forall|i: int| 0 <= i < k ==> s[i].1 >= c,
    ensures
        k <= count_place(s, c, k) <= s.len(),
        forall|i: int| 0 <= i < count_place(s, c, k) ==> s[i].1 >= c,
        count_place(s, c, k) < s.len() ==> s[count_place(s, c, k)].1 < c,
    decreases s.len() - k,
{
    if k < s.len() && s[k].1 >= c {
        lemma_count_place(s, c, k + 1);
    }
}

/// `by_count` keeps the length and orders by count, most first.
proof fn lemma_by_count_sorted(s: Seq<(Seq<char>, nat)>)
    ensures
        by_count(s).len() == s.len(),
        forall|i: int, j: int| 0 <= i < j < s.len() ==> by_count(s)[i].1 >= by_count(s)[j].1,
    decreases s.len(),
{
    if s.len() > 0 {
        let r = by_count(s.drop_last());
        lemma_by_count_sorted(s.drop_last());
        let c = s.last().1;
        lemma_count_place(r, c, 0);
        let p = count_place(r, c, 0);
        let t = r.insert(p, s.last());
        assert forall|i: int, j: int| 0 <= i < j < t.len() implies t[i].1 >= t[j].1 by {
            if j < p {
            } else if j == p {
            } else if i < p {
            } else if i == p {
                if p < r.len() {
                    assert(r[p].1 < c);
                    assert(r[p].1 >= r[j - 1].1);
                }
            } else {
            }
        }
    }
}

/// The author list of the sidebar is ordered by number of commits, most
/// first.
pub proof fn law_author_counts_most_first(commits: Seq<CommitInfo>)
    ensures
        forall|i: int, j: int|
            0 <= i < j < author_counts(commits).len() ==> author_counts(commits)[i].1 >= author_counts(commits)[j].1,
{
    lemma_by_count_sorted(tally(commits.map_values(|c: CommitInfo| c.author@)));
}

/// The number of times `a` occurs in `s`.
pub open spec fn occurrences(s: Seq<Seq<char>>, a: Seq<char>) -> nat
    decreases s.len(),
{
    if s.len() == 0 {
        0
    } else {
        occurrences(s.drop_last(), a) + (if s.last() == a { 1nat } else { 0nat })
    }
}

/// The tally names each author once, with the number of times it occurs.
proof fn lemma_tally_exact(authors: Seq<Seq<char>>)
    ensures
        ({
            let t = tally(authors);
            &&& forall|i: int, j: int| 0 <= i < j < t.len() ==> (#[trigger] t[i]).0 != (#[trigger] t[j]).0
            &&& forall|k: int| 0 <= k < t.len() ==> (#[trigger] t[k]).1 == occurrences(authors, t[k].0) && t[k].1 > 0
            &&& forall|i: int| 0 <= i < authors.len() ==> exists|k: int| 0 <= k < t.len() && (#[trigger] t[k]).0 == #[trigger] authors[i]
            &&& forall|a: Seq<char>| (forall|k: int| 0 <= k < t.len() ==> (#[trigger] t[k]).0 != a) ==> occurrences(authors, a) == 0
        }),
    decreases authors.len(),
{
    if authors.len() > 0 {
        let p = authors.drop_last();
        let a = authors.last();
        let tp = tally(p);
        let t = tally(authors);
        lemma_tally_exact(p);
        lemma_index_in(tp, a, 0);
        match index_in(tp, a, 0) {
            Some(k) => {
                assert(t == tp.update(k, (a, tp[k].1 + 1)));
                assert forall|m: int| 0 <= m < t.len() implies (#[trigger] t[m]).1 == occurrences(authors, t[m].0)
                    && t[m].1 > 0 by {
                    if m != k {
                        assert(t[m] == tp[m]);
                        if m < k {
                            assert(tp[m].0 != tp[k].0);
                        } else {
                            assert(tp[k].0 != tp[m].0);
                        }
                    }
                }
                assert forall|i: int| 0 <= i < authors.len() implies exists|m: int|
                    0 <= m < t.len() && (#[trigger] t[m]).0 == #[trigger] authors[i] by {
                    if i < p.len() {
                        assert(authors[i] == p[i]);
                        let m = choose|m: int| 0 <= m < tp.len() && (#[trigger] tp[m]).0 == #[trigger] p[i];
                        assert(t[m].0 == tp[m].0);
                    } else {
                        assert(t[k].0 == authors[i]);
                    }
                }
                assert forall|x: Seq<char>| (forall|m: int| 0 <= m < t.len() ==> (#[trigger] t[m]).0 != x) implies occurrences(
                    authors,
                    x,
                ) == 0 by {
                    assert forall|m: int| 0 <= m < tp.len() implies (#[trigger] tp[m]).0 != x by {
                        assert(t[m].0 == tp[m].0);
                    }
                    assert(t[k].0 == a);
                    assert(occurrences(p, x) == 0);
                }
                assert forall|i: int, j: int| 0 <= i < j < t.len() implies (#[trigger] t[i]).0 != (#[trigger] t[j]).0 by {
                    assert(t[i].0 == tp[i].0 && t[j].0 == tp[j].0);
                }
            },
            None => {
                assert(t == tp.push((a, 1nat)));
                assert(occurrences(p, a) == 0);
                assert forall|m: int| 0 <= m < t.len() implies (#[trigger] t[m]).1 == occurrences(authors, t[m].0)
                    && t[m].1 > 0 by {
                    if m < tp.len() {
                        assert(t[m] == tp[m]);
                    }
                }
                assert forall|i: int| 0 <= i < authors.len() implies exists|m: int|
                    0 <= m < t.len() && (#[trigger] t[m]).0 == #[trigger] authors[i] by {
                    if i < p.len() {
                        assert(authors[i] == p[i]);
                        let m = choose|m: int| 0 <= m < tp.len() && (#[trigger] tp[m]).0 == #[trigger] p[i];
                        assert(t[m] == tp[m]);
                    } else {
                        assert(t[tp.len() as int].0 == authors[i]);
                    }
                }
                assert forall|x: Seq<char>| (forall|m: int| 0 <= m < t.len() ==> (#[trigger] t[m]).0 != x) implies occurrences(
                    authors,
                    x,
                ) == 0 by {
                    assert forall|m: int| 0 <= m < tp.len() implies (#[trigger] tp[m]).0 != x by {
                        assert(t[m] == tp[m]);
                    }
                    assert(t[tp.len() as int].0 == a);
                    assert(occurrences(p, x) == 0);
                }
                assert forall|i: int, j: int| 0 <= i < j < t.len() implies (#[trigger] t[i]).0 != (#[trigger] t[j]).0 by {
                    assert(t[i] == tp[i]);
                    if j < tp.len() {
                        assert(t[j] == tp[j]);
                    }
                }
            },
        }
    }
}

/// `by_count` keeps the entries it orders.
proof fn lemma_by_count_multiset(s: Seq<(Seq<char>, nat)>)
    ensures
        by_count(s).to_multiset() == s.to_multiset(),
    decreases s.len(),
{
    if s.len() > 0 {
        let r0 = by_count(s.drop_last());
        lemma_by_count_multiset(s.drop_last());
        lemma_by_count_sorted(s.drop_last());
        lemma_count_place(r0, s.last().1, 0);
        vstd::seq_lib::to_multiset_insert(r0, count_place(r0, s.last().1, 0), s.last());
        assert(s =~= s.drop_last().push(s.last()));
        vstd::seq_lib::to_multiset_build(s.drop_last(), s.last());
    }
}

/// The author list of the sidebar names each author of the window once, with
/// the number of commits of the window that the author made.
pub proof fn law_author_counts_exact(commits: Seq<CommitInfo>)
    ensures
        ({
            let authors = commits.map_values(|c: CommitInfo| c.author@);
            let ac = author_counts(commits);
            &&& forall|k: int| 0 <= k < ac.len() ==> (#[trigger] ac[k]).1 == occurrences(authors, ac[k].0) && ac[k].1 > 0
            &&& forall|i: int, j: int| 0 <= i < j < ac.len() ==> (#[trigger] ac[i]).0 != (#[trigger] ac[j]).0
            &&& forall|i: int| 0 <= i < commits.len() ==> exists|k: int| 0 <= k < ac.len() && (#[trigger] ac[k]).0 == (#[trigger] commits[i]).author@
        }),
{
    broadcast use vstd::seq_lib::to_multiset_contains;

    let authors = commits.map_values(|c: CommitInfo| c.author@);
    let t = tally(authors);
    let ac = author_counts(commits);
    lemma_tally_exact(authors);
    lemma_by_count_multiset(t);
    assert(ac.to_multiset() == t.to_multiset());
    assert forall|k: int| 0 <= k < ac.len() implies (#[trigger] ac[k]).1 == occurrences(authors, ac[k].0) && ac[k].1 > 0 by {
        assert(ac.contains(ac[k]));
        assert(ac.to_multiset().count(ac[k]) > 0);
        assert(t.to_multiset().count(ac[k]) > 0);
        assert(t.contains(ac[k]));
        let m = choose|m: int| 0 <= m < t.len() && t[m] == ac[k];
        assert(t[m] == ac[k]);
    }
    assert(t.no_duplicates()) by {
        assert forall|i: int, j: int| 0 <= i < t.len() && 0 <= j < t.len() && i != j implies t[i] != t[j] by {
            if i < j {
                assert(t[i].0 != t[j].0);
            } else {
                assert(t[j].0 != t[i].0);
            }
        }
    }
    t.lemma_multiset_has_no_duplicates();
    ac.lemma_multiset_has_no_duplicates_conv();
    assert forall|i: int, j: int| 0 <= i < j < ac.len() implies (#[trigger] ac[i]).0 != (#[trigger] ac[j]).0 by {
        if ac[i].0 == ac[j].0 {
            assert(ac[i].1 == occurrences(authors, ac[i].0));
            assert(ac[j].1 == occurrences(authors, ac[j].0));
            assert(ac[i] == ac[j]);
        }
    }
    assert forall|i: int| 0 <= i < commits.len() implies exists|k: int| 0 <= k < ac.len() && (#[trigger] ac[k]).0 == (#[trigger] commits[i]).author@ by {
        assert(authors[i] == commits[i].author@);
        let m = choose|m: int| 0 <= m < t.len() && (#[trigger] t[m]).0 == #[trigger] authors[i];
        assert(t.contains(t[m]));
        assert(t.to_multiset().count(t[m]) > 0);
        assert(ac.to_multiset().count(t[m]) > 0);
        assert(ac.contains(t[m]));
        let k = choose|k: int| 0 <= k < ac.len() && ac[k] == t[m];
        assert(ac[k].0 == commits[i].author@);
    }
}

/// The authors of the window, with their numbers of commits, most first.
pub fn count_authors(commits: &Vec<CommitInfo>) -> (r: Vec<(String, usize)>)
    ensures
        authors_view(r@) == author_counts(commits@),
{
    let ghost av = commits@.map_values(|c: CommitInfo| c.author@);
    let n = commits.len();
    let mut t: Vec<(String, usize)> = Vec::new();
    let mut i: usize = 0;
    while i < n
        invariant
            i <= n,
            n == commits@.len(),
            av == commits@.map_values(|c: CommitInfo| c.author@),
            authors_view(t@) == tally(av.take(i as int)),
            forall|j: int| 0 <= j < t@.len() ==> t@[j].1 <= i,
        decreases n - i,
    {
        let a = &commits[i].author;
        let ghost tv = authors_view(t@);
        proof {
            assert(av.take(i + 1).drop_last() =~= av.take(i as int));
            assert(av.take(i + 1).last() == a@);
            lemma_index_in(tv, a@, 0);
        }
        let m = t.len();
        let mut k: usize = 0;
        while k < m && !eq_str(t[k].0.as_str(), a.as_str())
            invariant
                k <= m,
                m == t@.len(),
                tv == authors_view(t@),
                index_in(tv, a@, k as int) == index_in(tv, a@, 0),
            decreases m - k,
        {
            assert(tv[k as int].0 == t@[k as int].0@);
            k = k + 1;
        }
        if k < m {
            assert(tv[k as int].0 == t@[k as int].0@);
            let c = t[k].1;
            let name = t[k].0.clone();
            t.set(k, (name, c + 1));
            proof {
                assert(authors_view(t@) =~= tv.update(k as int, (a@, tv[k as int].1 + 1)));
            }
        } else {
            t.push((a.clone(), 1));
            proof {
                assert(authors_view(t@) =~= tv.push((a@, 1)));
            }
        }
        i = i + 1;
    }
    assert(av.take(n as int) =~= av);
    let ghost tv = authors_view(t@);
    let mut out: Vec<(String, usize)> = Vec::new();
    let mut j: usize = 0;
    let m = t.len();
    while j < m
        invariant
            j <= m,
            m == t@.len(),
            tv == authors_view(t@),
            authors_view(out@) == by_count(tv.take(j as int)),
        decreases m - j,
    {
        let (name, c) = (t[j].0.clone(), t[j].1);
        let ghost ov = authors_view(out@);
        let om = out.len();
        let mut k: usize = 0;
        while k < om && !(out[k].1 < c)
            invariant
                k <= om,
                om == out@.len(),
                ov == authors_view(out@),
                count_place(ov, c as nat, k as int) == count_place(ov, c as nat, 0),
            decreases om - k,
        {
            k = k + 1;
        }
        out.insert(k, (name, c));
        proof {
            assert(authors_view(out@) =~= ov.insert(k as int, tv[j as int]));
            assert(tv.take(j + 1).drop_last() =~= tv.take(j as int));
            assert(tv.take(j + 1).last() == tv[j as int]);
        }
        j = j + 1;
    }
    assert(tv.take(m as int) =~= tv);
    out
}

// ── Branches ────────────────────────────────────────────────────────────────

/// Where a branch named `x` goes in a list ordered by name.
pub open spec fn branch_place(s: Seq<(Seq<char>, Seq<char>)>, x: Seq<char>, k: int) -> int
    decreases s.len() - k,
{
    if k < 0 || k >= s.len() {
        s.len() as int
    } else if lex_less(x, s[k].0) {
        k
    } else {
        branch_place(s, x, k + 1)
    }
}

/// The branches (name and head) ordered by name (a stable sort).
pub open spec fn branches_by_name(s: Seq<(Seq<char>, Seq<char>)>) -> Seq<(Seq<char>, Seq<char>)>
    decreases s.len(),
{
    if s.len() == 0 {
        s
    } else {
        let r = branches_by_name(s.drop_last());
        r.insert(branch_place(r, s.last().0, 0), s.last())
    }
}

proof fn lemma_branch_place_splits(s: Seq<(Seq<char>, Seq<char>)>, x: Seq<char>, k: int)
    requires
        0 <= k <= s.len(),
    ensures
        k <= branch_place(s, x, k) <= s.len(),
        forall|i: int| k <= i < branch_place(s, x, k) ==> !lex_less(x, #[trigger] s[i].0),
        branch_place(s, x, k) < s.len() ==> lex_less(x, s[branch_place(s, x, k)].0),
    decreases s.len() - k,
{
    if k < s.len() && !lex_less(x, s[k].0) {
        lemma_branch_place_splits(s, x, k + 1);
    }
}

/// The branch list holds the same branches as git listed, ordered by name.
pub proof fn law_branches_by_name(s: Seq<(Seq<char>, Seq<char>)>)
    ensures
        branches_by_name(s).to_multiset() == s.to_multiset(),
        forall|i: int, j: int|
            0 <= i < j < branches_by_name(s).len() ==> !lex_less(#[trigger] branches_by_name(s)[j].0, #[trigger] branches_by_name(s)[i].0),
    decreases s.len(),
{
    if s.len() > 0 {
        let s0 = s.drop_last();
        let x = s.last();
        let r0 = branches_by_name(s0);
        law_branches_by_name(s0);
        let p = branch_place(r0, x.0, 0);
        lemma_branch_place_splits(r0, x.0, 0);
        let r = branches_by_name(s);
        assert(r == r0.insert(p, x));
        vstd::seq_lib::to_multiset_insert(r0, p, x);
        assert(s =~= s0.push(x));
        vstd::seq_lib::to_multiset_build(s0, x);
        assert forall|i: int, j: int| 0 <= i < j < r.len() implies !lex_less(#[trigger] r[j].0, #[trigger] r[i].0) by {
            if j < p {
                assert(r[i] == r0[i] && r[j] == r0[j]);
            } else if j == p {
                assert(r[i] == r0[i] && r[j] == x);
            } else if i < p {
                assert(r[i] == r0[i] && r[j] == r0[j - 1]);
            } else if i == p {
                assert(r[i] == x && r[j] == r0[j - 1]);
                if lex_less(r0[j - 1].0, x.0) {
                    lemma_lex_transitive(r0[j - 1].0, x.0, r0[p].0);
                    if j - 1 == p {
                        lemma_lex_irreflexive(r0[p].0);
                    } else {
                        assert(!lex_less(r0[j - 1].0, r0[p].0));
                    }
                }
            } else {
                assert(r[i] == r0[i - 1] && r[j] == r0[j - 1]);
            }
        }
    }
}

pub open spec fn pairs_view(v: Seq<(String, String)>) -> Seq<(Seq<char>, Seq<char>)> {
    v.map_values(|p: (String, String)| (p.0@, p.1@))
}

/// The branches of the sidebar: by name, each coloured by its place.
pub open spec fn branch_list_ok(b: Seq<BranchInfo>, pairs: Seq<(Seq<char>, Seq<char>)>) -> bool {
    let sorted = branches_by_name(pairs);
    &&& b.len() == sorted.len()
    &&& forall|i: int| 0 <= i < b.len() ==> (#[trigger] b[i]).name@ == sorted[i].0 && b[i].head_oid@ == sorted[i].1
        && b[i].color == branch_color(i)
}

proof fn lemma_branches_len(s: Seq<(Seq<char>, Seq<char>)>)
    ensures
        branches_by_name(s).len() == s.len(),
    decreases s.len(),
{
    if s.len() > 0 {
        lemma_branches_len(s.drop_last());
        lemma_branch_place(branches_by_name(s.drop_last()), s.last().0, 0);
    }
}

proof fn lemma_branch_place(s: Seq<(Seq<char>, Seq<char>)>, x: Seq<char>, k: int)
    requires
        0 <= k,
    ensures
        0 <= branch_place(s, x, k) <= s.len(),
    decreases s.len() - k,
{
    if k < s.len() && !lex_less(x, s[k].0) {
        lemma_branch_place(s, x, k + 1);
    }
}

/// The local branches, from their names and heads as git lists them.
pub fn branch_list(pairs: &Vec<(String, String)>) -> (r: Vec<BranchInfo>)
    ensures
        branch_list_ok(r@, pairs_view(pairs@)),
{
    let ghost pv = pairs_view(pairs@);
    let mut sorted: Vec<(String, String)> = Vec::new();
    let mut i: usize = 0;
    while i < pairs.len()
        invariant
            i <= pairs@.len(),
            pv == pairs_view(pairs@),
            pairs_view(sorted@) == branches_by_name(pv.take(i as int)),
        decreases pairs@.len() - i,
    {
        let name = pairs[i].0.clone();
        let oid = pairs[i].1.clone();
        let nv = chars_of(name.as_str());
        let ghost sv = pairs_view(sorted@);
        let m = sorted.len();
        let mut k: usize = 0;
        while k < m && !lex_less_exec(&nv, &chars_of(sorted[k].0.as_str()))
            invariant
                k <= m,
                m == sorted@.len(),
                sv == pairs_view(sorted@),
                nv@ == name@,
                branch_place(sv, name@, k as int) == branch_place(sv, name@, 0),
            decreases m - k,
        {
            k = k + 1;
        }
        sorted.insert(k, (name, oid));
        proof {
            assert(pairs_view(sorted@) =~= sv.insert(k as int, pv[i as int]));
            assert(pv.take(i + 1).drop_last() =~= pv.take(i as int));
            assert(pv.take(i + 1).last() == pv[i as int]);
        }
        i = i + 1;
    }
    assert(pv.take(pairs@.len() as int) =~= pv);
    let ghost sv = pairs_view(sorted@);
    let mut out: Vec<BranchInfo> = Vec::new();
    let mut j: usize = 0;
    while j < sorted.len()
        invariant
            j <= sorted@.len(),
            sv == pairs_view(sorted@),
            out@.len() == j,
            forall|k: int| 0 <= k < j ==> (#[trigger] out@[k]).name@ == sv[k].0 && out@[k].head_oid@ == sv[k].1
                && out@[k].color == branch_color(k),
        decreases sorted@.len() - j,
    {
        out.push(BranchInfo { name: sorted[j].0.clone(), color: branch_color_at(j), head_oid: sorted[j].1.clone() });
        j = j + 1;
    }
    out
}

// ── The window ──────────────────────────────────────────────────────────────

/// What git reports of the repository for one load.
pub struct GitSnapshot {
    /// The name of the working directory of the repository.
    pub repo_name: String,
    /// The short name of HEAD ("detached" when it has none).
    pub current_branch: String,
    /// The commit of HEAD ("" when there is none).
    pub head_hash: String,
    /// The local branches: name and head commit ("" when it has none).
    pub branches: Vec<(String, String)>,
    /// The number of commits that the walk of the window would give, all told.
    pub total: usize,
    /// The commits of the window, newest first.
    pub commits: Vec<CommitInfo>,
}

/// The state once git found no repository.
pub fn load_failed(app: &mut AppState)
    ensures
        *final(app) == (AppState {
            commits: final(app).commits,
            branches: final(app).branches,
            lanes: final(app).lanes,
            occupied: final(app).occupied,
            max_lane: 0,
            nlanes: 1,
            authors: final(app).authors,
            repo_name: final(app).repo_name,
            ..*old(app)
        }),
        final(app).commits@.len() == 0 && final(app).branches@.len() == 0 && final(app).lanes@.len() == 0,
        final(app).occupied@.len() == 0 && final(app).authors@.len() == 0,
        final(app).repo_name@ == "not a git repo"@,
{
    app.commits = Vec::new();
    app.branches = Vec::new();
    app.lanes = Vec::new();
    app.occupied = Vec::new();
    app.max_lane = 0;
    app.nlanes = 1;
    app.authors = Vec::new();
    app.repo_name = String::from_str("not a git repo");
}

/// Assigns the lanes of the commits of the window: each commit's lane, the
/// lanes still carrying a line after the last commit, the highest lane used
/// and the number of lanes.
pub fn compute_lanes(app: &mut AppState)
    ensures
        ({
            let o = *old(app);
            let f = *final(app);
            let st = lane_run(commits_view(o.commits@), o.commits@.len() as int);
            &&& f == (AppState { lanes: f.lanes, occupied: f.occupied, max_lane: f.max_lane, nlanes: f.nlanes, ..o })
            &&& f.lanes@.len() == o.commits@.len()
            &&& forall|i: int| 0 <= i < f.lanes@.len() ==> f.lanes@[i] == st.lanes[i]
            &&& occ_view(f.occupied@) == st.occ
            &&& f.max_lane == st.max_lane
            &&& f.nlanes == st.max_lane + 1
        }),
{
    let layout = lane_layout(&app.commits);
    app.lanes = layout.lanes;
    app.occupied = layout.occupied;
    app.max_lane = layout.max_lane;
    app.nlanes = layout.nlanes;
}

/// The commits of a walk that a window of `count` keeps: the first `count`.
pub open spec fn window_of(walked: Seq<CommitInfo>, count: usize) -> Seq<CommitInfo> {
    if count < walked.len() {
        walked.subrange(0, count as int)
    } else {
        walked
    }
}

/// Loads the window that git reported: branches by name and colour, the first
/// `count` commits of the walk, the authors by number of commits, and the lanes.
pub fn load_window(app: &mut AppState, snap: GitSnapshot)
    ensures
        ({
            let o = *old(app);
            let f = *final(app);
            let st = lane_run(commits_view(f.commits@), f.commits@.len() as int);
            &&& f == (AppState {
                repo_name: snap.repo_name,
                current_branch: snap.current_branch,
                head_hash: snap.head_hash,
                total: snap.total,
                branches: f.branches,
                commits: f.commits,
                authors: f.authors,
                lanes: f.lanes,
                occupied: f.occupied,
                max_lane: f.max_lane,
                nlanes: f.nlanes,
                ..o
            })
            &&& f.commits@ == window_of(snap.commits@, o.count)
            &&& branch_list_ok(f.branches@, pairs_view(snap.branches@))
            &&& authors_view(f.authors@) == author_counts(f.commits@)
            &&& f.lanes@.len() == f.commits@.len()
            &&& forall|i: int| 0 <= i < f.lanes@.len() ==> f.lanes@[i] == st.lanes[i]
            &&& occ_view(f.occupied@) == st.occ
            &&& f.max_lane == st.max_lane
            &&& f.nlanes == st.max_lane + 1
        }),
{
    let mut commits = snap.commits;
    commits.truncate(app.count);
    app.branches = branch_list(&snap.branches);
    app.authors = count_authors(&commits);
    app.repo_name = snap.repo_name;
    app.current_branch = snap.current_branch;
    app.head_hash = snap.head_hash;
    app.total = snap.total;
    app.commits = commits;
    compute_lanes(app);
}

/// A loaded window can be drawn under any filter when its commits are drawable
/// and not more than a quarter of the address space.
pub proof fn law_loaded_window_is_ready(app: AppState)
    requires
        app.lanes@.len() == app.commits@.len(),
        app.nlanes == lane_run(commits_view(app.commits@), app.commits@.len() as int).max_lane + 1,
        app.commits@.len() <= usize::MAX / 4,
        forall|i: int| 0 <= i < app.commits@.len() ==> #[trigger] commit_ready(commits_view(app.commits@)[i]),
    ensures
        data_ready(app),
{
    law_lanes_in_range(commits_view(app.commits@));
}

proof fn lemma_tree_lines_len(app: AppState, k: int)
    requires
        0 <= k,
    ensures
        crate::render::tree_lines(app, k).len() <= 2 * k,
    decreases k,
{
    if k > 0 {
        lemma_tree_lines_len(app, k - 1);
    }
}

proof fn lemma_rendered_len(app: AppState)
    ensures
        rendered(app).len() <= 2 * app.commits@.len() + 1,
{
    lemma_tree_lines_len(app, app.commits@.len() as int);
}

/// The tree cursor kept on a line of the tree.
pub open spec fn clamped_cursor(c: isize, len: nat) -> isize {
    if c < 0 {
        0
    } else if c >= len {
        (if len >= 1 { len - 1 } else { 0 }) as isize
    } else {
        c
    }
}

/// After a load: the descendants of the descendant filter found again, the tree
/// drawn, the cursor kept on a line of it, and the refresh done.
pub fn finish_refresh(app: &mut AppState)
    requires
        data_ready(*old(app)),
        old(app).commits@.len() <= usize::MAX / 4,
    ensures
        data_ready(*final(app)),
        lines_point_in(*final(app)),
        ({
            let o = *old(app);
            let f = *final(app);
            let mid = AppState { descendant_set: f.descendant_set, ..o };
            &&& f == (AppState {
                descendant_set: f.descendant_set,
                render_lines: f.render_lines,
                cursor: clamped_cursor(o.cursor, f.render_lines@.len()),
                dirty: true,
                refresh: false,
                ..o
            })
            &&& render_view(f.render_lines@) == rendered(mid)
            &&& o.descendant_filter@.len() > 0 ==> is_descendant_set(
                commits_view(o.commits@),
                o.descendant_filter@,
                f.descendant_set@.map_values(|h: String| h@).to_set(),
            )
            &&& o.descendant_filter@.len() == 0 ==> f.descendant_set == o.descendant_set
        }),
{
    if app.descendant_filter.as_str().unicode_len() > 0 {
        app.descendant_set = build_desc_set(&app.commits, &app.descendant_filter);
    }
    proof {
        lemma_data_ready_renders(*app);
    }
    let ghost mid = *app;
    build_render_buffer(app);
    app.dirty = true;
    app.refresh = false;
    let n = app.render_lines.len();
    proof {
        lemma_rendered_len(mid);
        assert(render_view(app.render_lines@).len() == app.render_lines@.len());
    }
    if app.cursor < 0 {
        app.cursor = 0;
    }
    if app.cursor >= n as isize {
        app.cursor = (if n >= 1 { n - 1 } else { 0 }) as isize;
    }
}

} // verus!

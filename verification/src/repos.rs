//! The list of registered repositories: entries, their checks, and the steps of
//! the repository view. The file system is looked at by the caller, which hands
//! in what it found.
use vstd::prelude::*;
use crate::issues::{lemma_strings_view_push, strings_view};
use crate::report::{file_name_of, path_file_name, push_line};
use crate::state::{show_msg, show_msg_string, AppMode, AppState, RepoEntry};
use crate::text::{
    chars_of, concat2, concat3, decimal, eq_str, lex_less, lex_less_exec, lemma_lex_irreflexive, lemma_lex_transitive, parse_u64, push_str, starts_with,
    string_of, trim_bounds, trimmed, u64_to_decimal,
};
use crate::cli::{parsed_usize};

verus! {

pub open spec fn error_view(e: Option<String>) -> Option<Seq<char>> {
    match e {
        Some(s) => Some(s@),
        None => None,
    }
}

/// What an entry holds: path, name, commit count and error.
pub open spec fn entry_of(r: RepoEntry) -> (Seq<char>, Seq<char>, usize, Option<Seq<char>>) {
    (r.path@, r.name@, r.commit_count, error_view(r.error))
}

pub fn clone_entry(r: &RepoEntry) -> (c: RepoEntry)
    ensures
        c == *r,
{
    RepoEntry {
        path: r.path.clone(),
        name: r.name.clone(),
        commit_count: r.commit_count,
        error: match &r.error {
            Some(e) => Some(e.clone()),
            None => None,
        },
    }
}

// ── Checking a path ─────────────────────────────────────────────────────────

/// Validate that a given path is a directory with a `.git` subfolder, given
/// whether it exists, whether it is a directory and whether `.git` exists in it.
pub fn validate_repo_path(path_str: &str, exists: bool, is_dir: bool, has_git: bool) -> (r: Result<(), String>)
    ensures
        !exists ==> (r matches Err(e) && e@ == "Path does not exist: "@ + path_str@),
        exists && !is_dir ==> (r matches Err(e) && e@ == "Not a directory: "@ + path_str@),
        exists && is_dir && !has_git ==> (r matches Err(e) && e@ == "No .git directory found in: "@ + path_str@),
        exists && is_dir && has_git ==> r is Ok,
{
    if !exists {
        return Err(concat2("Path does not exist: ", path_str));
    }
    if !is_dir {
        return Err(concat2("Not a directory: ", path_str));
    }
    if !has_git {
        return Err(concat2("No .git directory found in: ", path_str));
    }
    Ok(())
}

/// Whether switching to a repository may go ahead, given whether its path exists
/// and holds `.git`.
pub fn switch_check(path: &str, exists: bool, has_git: bool) -> (r: Result<(), String>)
    ensures
        !exists ==> (r matches Err(e) && e@ == "Path does not exist: "@ + path@),
        exists && !has_git ==> (r matches Err(e) && e@ == "Not a git repository: "@ + path@),
        exists && has_git ==> r is Ok,
{
    if !exists {
        return Err(concat2("Path does not exist: ", path));
    }
    if !has_git {
        return Err(concat2("Not a git repository: ", path));
    }
    Ok(())
}

// ── Entries ─────────────────────────────────────────────────────────────────

/// What looking at a repository gave: no `.git` in it, or `git rev-list --count
/// HEAD` could not be run, failed (with its standard error), or printed a count.
pub enum GitProbe {
    NoGitDir,
    NotRun,
    Failed(String),
    Counted(String),
}

/// The name of a repository: the last component of its path, or the whole path.
pub open spec fn repo_name(path: Seq<char>) -> Seq<char> {
    match path_file_name(path) {
        Some(n) => n,
        None => path,
    }
}

/// The commit count and error of a repository, from what looking at it gave.
pub open spec fn probe_result(p: GitProbe) -> (usize, Option<Seq<char>>) {
    match p {
        GitProbe::NoGitDir => (0, Some("Not a git repository"@)),
        GitProbe::NotRun => (0, Some("Failed to run git"@)),
        GitProbe::Failed(e) => (0, Some("git error: "@ + trimmed(e@))),
        GitProbe::Counted(out) => (
            match parsed_usize(trimmed(out@)) {
                Some(n) => n,
                None => 0,
            },
            None,
        ),
    }
}

impl RepoEntry {
    /// The entry of the repository at `path_str`, from what looking at it gave.
    pub fn from_path(path_str: &str, probe: GitProbe) -> (r: RepoEntry)
        ensures
            entry_of(r) == (path_str@, repo_name(path_str@), probe_result(probe).0, probe_result(probe).1),
    {
        let ghost pv = probe;
        let name = match file_name_of(path_str) {
            Some(n) => n,
            None => String::from_str(path_str),
        };
        let (commit_count, error) = match probe {
            GitProbe::NoGitDir => (0, Some(String::from_str("Not a git repository"))),
            GitProbe::NotRun => (0, Some(String::from_str("Failed to run git"))),
            GitProbe::Failed(e) => {
                let v = chars_of(e.as_str());
                let (a, b) = trim_bounds(&v);
                (0, Some(concat2("git error: ", string_of(&v, a, b).as_str())))
            },
            GitProbe::Counted(out) => {
                let v = chars_of(out.as_str());
                let (a, b) = trim_bounds(&v);
                let t = string_of(&v, a, b);
                let n: usize = match parse_u64(&chars_of(t.as_str())) {
                    Some(n) => if n <= usize::MAX as u64 { n as usize } else { 0 },
                    None => 0,
                };
                (n, None)
            },
        };
        RepoEntry { path: String::from_str(path_str), name, commit_count, error }
    }
}

/// The repository of the working directory `cwd`, when it holds `.git`.
pub fn detect_current_repo(cwd: &str, has_git: bool, probe: GitProbe) -> (r: Option<RepoEntry>)
    ensures
        has_git ==> (r matches Some(e) && entry_of(e) == (
            cwd@,
            repo_name(cwd@),
            probe_result(probe).0,
            probe_result(probe).1,
        )),
        !has_git ==> r is None,
{
    if has_git {
        Some(RepoEntry::from_path(cwd, probe))
    } else {
        None
    }
}

// ── Ordering ────────────────────────────────────────────────────────────────

/// Where `x` goes in a list ordered by `key`, after the entries with an equal or
/// smaller key.
pub open spec fn place_of(keys: Seq<Seq<char>>, x: Seq<char>, k: int) -> int
    decreases keys.len() - k,
{
    if k < 0 || k >= keys.len() {
        keys.len() as int
    } else if lex_less(x, keys[k]) {
        k
    } else {
        place_of(keys, x, k + 1)
    }
}

/// `s` ordered (a stable sort): each element put after the ones not greater.
pub open spec fn sorted_seq(s: Seq<Seq<char>>) -> Seq<Seq<char>>
    decreases s.len(),
{
    if s.len() == 0 {
        s
    } else {
        let r = sorted_seq(s.drop_last());
        r.insert(place_of(r, s.last(), 0), s.last())
    }
}

proof fn lemma_place_of_splits(s: Seq<Seq<char>>, x: Seq<char>, k: int)
    requires
        0 <= k <= s.len(),
    ensures
        k <= place_of(s, x, k) <= s.len(),
        forall|i: int| k <= i < place_of(s, x, k) ==> !lex_less(x, #[trigger] s[i]),
        place_of(s, x, k) < s.len() ==> lex_less(x, s[place_of(s, x, k)]),
    decreases s.len() - k,
{
    if k < s.len() && !lex_less(x, s[k]) {
        lemma_place_of_splits(s, x, k + 1);
    }
}

/// Ordering names keeps them all and puts them in increasing order.
pub proof fn law_sorted_names(s: Seq<Seq<char>>)
    ensures
        sorted_seq(s).to_multiset() == s.to_multiset(),
        forall|i: int, j: int|
            0 <= i < j < sorted_seq(s).len() ==> !lex_less(#[trigger] sorted_seq(s)[j], #[trigger] sorted_seq(s)[i]),
    decreases s.len(),
{
    if s.len() > 0 {
        let s0 = s.drop_last();
        let x = s.last();
        let r0 = sorted_seq(s0);
        law_sorted_names(s0);
        let p = place_of(r0, x, 0);
        lemma_place_of_splits(r0, x, 0);
        let r = sorted_seq(s);
        assert(r == r0.insert(p, x));
        vstd::seq_lib::to_multiset_insert(r0, p, x);
        assert(s =~= s0.push(x));
        vstd::seq_lib::to_multiset_build(s0, x);
        assert forall|i: int, j: int| 0 <= i < j < r.len() implies !lex_less(#[trigger] r[j], #[trigger] r[i]) by {
            if j < p {
                assert(r[i] == r0[i] && r[j] == r0[j]);
            } else if j == p {
                assert(r[i] == r0[i] && r[j] == x);
            } else if i < p {
                assert(r[i] == r0[i] && r[j] == r0[j - 1]);
            } else if i == p {
                assert(r[i] == x && r[j] == r0[j - 1]);
                if lex_less(r0[j - 1], x) {
                    lemma_lex_transitive(r0[j - 1], x, r0[p]);
                    if j - 1 == p {
                        lemma_lex_irreflexive(r0[p]);
                    } else {
                        assert(!lex_less(r0[j - 1], r0[p]));
                    }
                }
            } else {
                assert(r[i] == r0[i - 1] && r[j] == r0[j - 1]);
            }
        }
    }
}

/// The names in order (`slice::sort` on strings).
pub fn sort_names(v: &Vec<String>) -> (r: Vec<String>)
    ensures
        strings_view(r@) == sorted_seq(strings_view(v@)),
{
    let ghost vv = strings_view(v@);
    let mut out: Vec<String> = Vec::new();
    let mut i: usize = 0;
    while i < v.len()
        invariant
            i <= v@.len(),
            vv == strings_view(v@),
            strings_view(out@) == sorted_seq(vv.take(i as int)),
        decreases v@.len() - i,
    {
        let x = v[i].clone();
        let xv = chars_of(x.as_str());
        let ghost ov = strings_view(out@);
        let m = out.len();
        let mut k: usize = 0;
        while k < m && !lex_less_exec(&xv, &chars_of(out[k].as_str()))
            invariant
                k <= m,
                m == out@.len(),
                ov == strings_view(out@),
                xv@ == x@,
                place_of(ov, x@, k as int) == place_of(ov, x@, 0),
            decreases m - k,
        {
            k = k + 1;
        }
        out.insert(k, x);
        proof {
            assert(strings_view(out@) =~= ov.insert(k as int, vv[i as int]));
            assert(vv.take(i + 1).drop_last() =~= vv.take(i as int));
            assert(vv.take(i + 1).last() == vv[i as int]);
        }
        i = i + 1;
    }
    assert(vv.take(v@.len() as int) =~= vv);
    out
}

pub open spec fn entries_of(v: Seq<RepoEntry>) -> Seq<(Seq<char>, Seq<char>, usize, Option<Seq<char>>)> {
    v.map_values(|r: RepoEntry| entry_of(r))
}

/// Where an entry named `x` goes in a list ordered by name.
pub open spec fn entry_place(s: Seq<(Seq<char>, Seq<char>, usize, Option<Seq<char>>)>, x: Seq<char>, k: int) -> int
    decreases s.len() - k,
{
    if k < 0 || k >= s.len() {
        s.len() as int
    } else if lex_less(x, s[k].1) {
        k
    } else {
        entry_place(s, x, k + 1)
    }
}

/// The entries ordered by name (a stable sort).
pub open spec fn by_name(s: Seq<(Seq<char>, Seq<char>, usize, Option<Seq<char>>)>) -> Seq<(Seq<char>, Seq<char>, usize, Option<Seq<char>>)>
    decreases s.len(),
{
    if s.len() == 0 {
        s
    } else {
        let r = by_name(s.drop_last());
        r.insert(entry_place(r, s.last().1, 0), s.last())
    }
}

proof fn lemma_entry_place_splits(s: Seq<(Seq<char>, Seq<char>, usize, Option<Seq<char>>)>, x: Seq<char>, k: int)
    requires
        0 <= k <= s.len(),
    ensures
        k <= entry_place(s, x, k) <= s.len(),
        forall|i: int| k <= i < entry_place(s, x, k) ==> !lex_less(x, #[trigger] s[i].1),
        entry_place(s, x, k) < s.len() ==> lex_less(x, s[entry_place(s, x, k)].1),
    decreases s.len() - k,
{
    if k < s.len() && !lex_less(x, s[k].1) {
        lemma_entry_place_splits(s, x, k + 1);
    }
}

/// The repositories of a scan keep all their entries, ordered by name.
pub proof fn law_scanned_by_name(s: Seq<(Seq<char>, Seq<char>, usize, Option<Seq<char>>)>)
    ensures
        by_name(s).to_multiset() == s.to_multiset(),
        forall|i: int, j: int|
            0 <= i < j < by_name(s).len() ==> !lex_less(#[trigger] by_name(s)[j].1, #[trigger] by_name(s)[i].1),
    decreases s.len(),
{
    if s.len() > 0 {
        let s0 = s.drop_last();
        let x = s.last();
        let r0 = by_name(s0);
        law_scanned_by_name(s0);
        let p = entry_place(r0, x.1, 0);
        lemma_entry_place_splits(r0, x.1, 0);
        let r = by_name(s);
        assert(r == r0.insert(p, x));
        vstd::seq_lib::to_multiset_insert(r0, p, x);
        assert(s =~= s0.push(x));
        vstd::seq_lib::to_multiset_build(s0, x);
        assert forall|i: int, j: int| 0 <= i < j < r.len() implies !lex_less(#[trigger] r[j].1, #[trigger] r[i].1) by {
            if j < p {
                assert(r[i] == r0[i] && r[j] == r0[j]);
            } else if j == p {
                assert(r[i] == r0[i] && r[j] == x);
            } else if i < p {
                assert(r[i] == r0[i] && r[j] == r0[j - 1]);
            } else if i == p {
                assert(r[i] == x && r[j] == r0[j - 1]);
                if lex_less(r0[j - 1].1, x.1) {
                    lemma_lex_transitive(r0[j - 1].1, x.1, r0[p].1);
                    if j - 1 == p {
                        lemma_lex_irreflexive(r0[p].1);
                    } else {
                        assert(!lex_less(r0[j - 1].1, r0[p].1));
                    }
                }
            } else {
                assert(r[i] == r0[i - 1] && r[j] == r0[j - 1]);
            }
        }
    }
}

/// The repositories found by a scan, ordered by name.
pub fn sort_by_name(v: &Vec<RepoEntry>) -> (r: Vec<RepoEntry>)
    ensures
        entries_of(r@) == by_name(entries_of(v@)),
{
    let ghost vv = entries_of(v@);
    let mut out: Vec<RepoEntry> = Vec::new();
    let mut i: usize = 0;
    while i < v.len()
        invariant
            i <= v@.len(),
            vv == entries_of(v@),
            entries_of(out@) == by_name(vv.take(i as int)),
        decreases v@.len() - i,
    {
        let x = clone_entry(&v[i]);
        let xv = chars_of(x.name.as_str());
        let ghost ov = entries_of(out@);
        let m = out.len();
        let mut k: usize = 0;
        while k < m && !lex_less_exec(&xv, &chars_of(out[k].name.as_str()))
            invariant
                k <= m,
                m == out@.len(),
                ov == entries_of(out@),
                xv@ == x.name@,
                entry_place(ov, x.name@, k as int) == entry_place(ov, x.name@, 0),
            decreases m - k,
        {
            assert(ov[k as int].1 == out@[k as int].name@);
            k = k + 1;
        }
        proof {
            if k < m {
                assert(ov[k as int].1 == out@[k as int].name@);
            }
        }
        out.insert(k, x);
        proof {
            assert(entries_of(out@) =~= ov.insert(k as int, vv[i as int]));
            assert(vv.take(i + 1).drop_last() =~= vv.take(i as int));
            assert(vv.take(i + 1).last() == vv[i as int]);
        }
        i = i + 1;
    }
    assert(vv.take(v@.len() as int) =~= vv);
    out
}

// ── The repository view ─────────────────────────────────────────────────────

/// Opens the path input, filled with the working directory.
pub fn start_repo_add(app: &mut AppState, cwd: String)
    ensures
        *final(app) == (AppState { repos_add_input: final(app).repos_add_input, mode: AppMode::ReposAdd, dirty: true, ..*old(app) }),
        final(app).repos_add_input@ == cwd@,
{
    app.repos_add_input = cwd;
    app.mode = AppMode::ReposAdd;
    app.dirty = true;
}

/// Whether a repository of path `p` is in the list.
pub open spec fn listed(repos: Seq<RepoEntry>, p: Seq<char>) -> bool {
    exists|i: int| 0 <= i < repos.len() && (#[trigger] repos[i]).path@ == p
}

pub fn repo_listed(app: &AppState, path: &str) -> (r: bool)
    ensures
        r == listed(app.repos@, path@),
{
    let mut i: usize = 0;
    while i < app.repos.len()
        invariant
            i <= app.repos@.len(),
            forall|j: int| 0 <= j < i ==> (#[trigger] app.repos@[j]).path@ != path@,
        decreases app.repos@.len() - i,
    {
        if eq_str(app.repos[i].path.as_str(), path) {
            return true;
        }
        i = i + 1;
    }
    false
}

/// The repositories of a scan that are not in `repos` yet, in scan order.
pub open spec fn new_entries(repos: Seq<RepoEntry>, found: Seq<RepoEntry>) -> Seq<RepoEntry>
    decreases found.len(),
{
    if found.len() == 0 {
        seq![]
    } else {
        let rest = new_entries(repos, found.drop_last());
        if listed(repos, found.last().path@) { rest } else { rest.push(found.last()) }
    }
}

/// Adds the repositories that a scan of `cwd` found (ordered by name) and are not
/// in the list yet, with a message.
pub fn add_scanned_repos(app: &mut AppState, cwd: &str, found: Vec<RepoEntry>)
    ensures
        ({
            let o = *old(app);
            let f = *final(app);
            let added = new_entries(o.repos@, found@);
            &&& f == (AppState { repos: f.repos, msg: f.msg, msg_new: true, dirty: true, ..o })
            &&& f.repos@ == o.repos@ + added
            &&& f.msg@ == if found@.len() == 0 {
                "No git repos found in "@ + cwd@
            } else {
                "Found "@ + decimal(added.len()) + " new repo(s) in "@ + cwd@
            }
        }),
{
    let ghost o = *app;
    if found.len() == 0 {
        show_msg_string(app, concat2("No git repos found in ", cwd));
        app.dirty = true;
        assert(app.repos@ =~= o.repos@ + new_entries(o.repos@, found@));
        return;
    }
    let mut added: u64 = 0;
    let mut i: usize = 0;
    let ghost fv = found@;
    let mut kept: Vec<RepoEntry> = Vec::new();
    while i < found.len()
        invariant
            i <= found@.len(),
            fv == found@,
            *app == o,
            kept@ == new_entries(o.repos@, fv.take(i as int)),
            added == kept@.len(),
            added <= i,
        decreases found@.len() - i,
    {
        proof {
            assert(fv.take(i + 1).drop_last() =~= fv.take(i as int));
            assert(fv.take(i + 1).last() == fv[i as int]);
        }
        if !repo_listed(app, found[i].path.as_str()) {
            kept.push(clone_entry(&found[i]));
            added = added + 1;
        }
        i = i + 1;
    }
    assert(fv.take(fv.len() as int) =~= fv);
    let mut j: usize = 0;
    while j < kept.len()
        invariant
            j <= kept@.len(),
            *app == (AppState { repos: app.repos, ..o }),
            app.repos@ == o.repos@ + kept@.take(j as int),
        decreases kept@.len() - j,
    {
        app.repos.push(clone_entry(&kept[j]));
        assert(o.repos@ + kept@.take(j + 1) =~= (o.repos@ + kept@.take(j as int)).push(kept@[j as int]));
        j = j + 1;
    }
    assert(kept@.take(kept@.len() as int) =~= kept@);
    show_msg_string(app, concat3("Found ", u64_to_decimal(added).as_str(), concat2(" new repo(s) in ", cwd).as_str()));
    app.dirty = true;
}

/// After switching to repository `idx` of the list was tried: back to the tree,
/// to be loaded again, or a message why not.
pub fn after_switch(app: &mut AppState, idx: usize, result: Result<(), String>)
    requires
        idx < old(app).repos@.len(),
    ensures
        match result {
            Ok(()) => *final(app) == (AppState {
                msg: final(app).msg,
                msg_new: true,
                mode: AppMode::Tree,
                refresh: true,
                ..*old(app)
            }) && final(app).msg@ == "Switched to "@ + old(app).repos@[idx as int].name@,
            Err(e) => *final(app) == (AppState { msg: final(app).msg, msg_new: true, ..*old(app) })
                && final(app).msg@ == "Error: "@ + e@,
        },
{
    match result {
        Ok(()) => {
            let m = concat2("Switched to ", app.repos[idx].name.as_str());
            show_msg_string(app, m);
            app.mode = AppMode::Tree;
            app.refresh = true;
        },
        Err(e) => {
            show_msg_string(app, concat2("Error: ", e.as_str()));
        },
    }
}

/// Adds the typed repository once its expanded path was checked: `entry` is the
/// entry made for `path`, which the caller makes when the check passed and the
/// path is not listed yet.
pub fn finish_repo_add(app: &mut AppState, path: &str, check: Result<(), String>, entry: Option<RepoEntry>)
    requires
        check is Ok && !listed(old(app).repos@, path@) ==> entry is Some,
    ensures
        ({
            let o = *old(app);
            let f = *final(app);
            &&& f.repos_add_input@.len() == 0
            &&& match check {
                Err(e) => f == (AppState { msg: f.msg, msg_new: true, repos_add_input: f.repos_add_input, dirty: true, ..o })
                    && f.msg@ == "Invalid path: "@ + e@,
                Ok(()) => if listed(o.repos@, path@) {
                    f == (AppState {
                        msg: f.msg,
                        msg_new: true,
                        mode: AppMode::Repos,
                        repos_add_input: f.repos_add_input,
                        dirty: true,
                        ..o
                    }) && f.msg@ == "Repository already in list"@
                } else {
                    let e = entry->0;
                    &&& f == (AppState {
                        repos: f.repos,
                        msg: f.msg,
                        msg_new: true,
                        mode: AppMode::Repos,
                        repos_add_input: f.repos_add_input,
                        dirty: true,
                        ..o
                    })
                    &&& f.repos@ == o.repos@.push(e)
                    &&& f.msg@ == (match e.error {
                        None => "Added "@ + e.name@,
                        Some(err) => "Added "@ + e.name@ + " (error: "@ + err@ + ")"@,
                    })
                },
            }
        }),
{
    match check {
        Err(e) => {
            show_msg_string(app, concat2("Invalid path: ", e.as_str()));
        },
        Ok(()) => {
            if repo_listed(app, path) {
                show_msg(app, "Repository already in list");
            } else {
                let e = match entry {
                    Some(e) => e,
                    None => {
                        assert(false);
                        return;
                    },
                };
                let m = match &e.error {
                    None => concat2("Added ", e.name.as_str()),
                    Some(err) => {
                        let mut m = concat3("Added ", e.name.as_str(), " (error: ");
                        push_str(&mut m, err.as_str());
                        push_str(&mut m, ")");
                        m
                    },
                };
                show_msg_string(app, m);
                app.repos.push(e);
            }
            app.mode = AppMode::Repos;
        },
    }
    app.repos_add_input = String::new();
    app.dirty = true;
}

/// Completes the typed path with the first subdirectory (in order) of the
/// working directory `cwd`.
pub fn complete_repo_path(app: &mut AppState, cwd: &str, dirs: &Vec<String>)
    ensures
        ({
            let sorted = sorted_seq(strings_view(dirs@));
            if dirs@.len() > 0 {
                &&& *final(app) == (AppState { repos_add_input: final(app).repos_add_input, dirty: true, ..*old(app) })
                &&& final(app).repos_add_input@ == cwd@ + "/"@ + sorted[0]
            } else {
                *final(app) == (AppState { dirty: true, ..*old(app) })
            }
        }),
{
    if dirs.len() > 0 {
        let sorted = sort_names(dirs);
        proof {
            lemma_sorted_len(strings_view(dirs@));
        }
        assert(sorted@.len() == strings_view(sorted@).len());
        assert(strings_view(sorted@)[0] == sorted@[0]@);
        app.repos_add_input = concat3(cwd, "/", sorted[0].as_str());
    }
    app.dirty = true;
}

proof fn lemma_place_bounds(keys: Seq<Seq<char>>, x: Seq<char>, k: int)
    requires
        0 <= k,
    ensures
        0 <= place_of(keys, x, k) <= keys.len(),
    decreases keys.len() - k,
{
    if k < keys.len() && !lex_less(x, keys[k]) {
        lemma_place_bounds(keys, x, k + 1);
    }
}

proof fn lemma_sorted_len(s: Seq<Seq<char>>)
    ensures
        sorted_seq(s).len() == s.len(),
    decreases s.len(),
{
    if s.len() > 0 {
        lemma_sorted_len(s.drop_last());
        lemma_place_bounds(sorted_seq(s.drop_last()), s.last(), 0);
    }
}

// ── Paths ───────────────────────────────────────────────────────────────────

/// `s` without the `/`s at its end.
pub open spec fn without_trailing_slashes(s: Seq<char>) -> Seq<char>
    decreases s.len(),
{
    if s.len() > 0 && s.last() == '/' { without_trailing_slashes(s.drop_last()) } else { s }
}

/// `cwd` joined with a relative path, as `Path::join` makes it.
pub uninterp spec fn path_joined(base: Seq<char>, rel: Seq<char>) -> Seq<char>;

/// `base.join(rel)` (`std::path::Path::join`), as text. How the two are joined
/// depends on the target's path rules, so it is left to the name.
#[verifier::external_body]
fn join_path(base: &str, rel: &str) -> (r: String)
    ensures
        r@ == path_joined(base@, rel@),
{
    std::path::Path::new(base).join(rel).to_string_lossy().to_string()
}

/// Whether a path is relative: on Unix, one that does not start at the root.
pub open spec fn relative(p: Seq<char>) -> bool {
    !(p.len() > 0 && p[0] == '/')
}

/// The absolute form of a typed path: `~/x` under the home directory, `~` the
/// home directory itself, a relative path under the working directory (when
/// `home` or `cwd` is known).
pub open spec fn expanded(p: Seq<char>, home: Option<Seq<char>>, cwd: Option<Seq<char>>) -> Seq<char> {
    if starts_with(p, "~/"@) && home is Some {
        without_trailing_slashes(home->0) + "/"@ + p.skip(2)
    } else if p == "~"@ {
        match home {
            Some(h) => h,
            None => p,
        }
    } else if relative(p) && cwd is Some {
        path_joined(cwd->0, p)
    } else {
        p
    }
}

/// Try to expand a relative path or home-directory path to an absolute path,
/// given the home directory and the working directory when known.
pub fn expand_path(path_str: &str, home: Option<String>, cwd: Option<String>) -> (r: String)
    ensures
        r@ == expanded(path_str@, match home {
            Some(h) => Some(h@),
            None => None,
        }, match cwd {
            Some(c) => Some(c@),
            None => None,
        }),
{
    let v = chars_of(path_str);
    let n = v.len();
    proof {
        reveal_strlit("~/");
        reveal_strlit("~");
    }
    let tilde_slash = n >= 2 && v[0] == '~' && v[1] == '/';
    assert("~/"@ =~= seq!['~', '/']);
    assert(tilde_slash == starts_with(path_str@, "~/"@)) by {
        if tilde_slash {
            assert(path_str@.subrange(0, 2) =~= "~/"@);
        }
        if starts_with(path_str@, "~/"@) {
            assert(path_str@.subrange(0, 2)[0] == '~');
            assert(path_str@.subrange(0, 2)[1] == '/');
        }
    }
    match &home {
        Some(h) => {
            if tilde_slash {
                let hv = chars_of(h.as_str());
                let mut e = hv.len();
                assert(hv@.take(hv@.len() as int) =~= hv@);
                while e > 0 && hv[e - 1] == '/'
                    invariant
                        e <= hv@.len(),
                        without_trailing_slashes(hv@.take(e as int)) == without_trailing_slashes(hv@),
                    decreases e,
                {
                    assert(hv@.take(e as int).drop_last() =~= hv@.take(e - 1));
                    e = e - 1;
                }
                assert(hv@.take(hv@.len() as int) =~= hv@);
                let base = string_of(&hv, 0, e);
                assert(base@ =~= hv@.take(e as int));
                let rest = string_of(&v, 2, n);
                assert(rest@ =~= path_str@.skip(2));
                return concat3(base.as_str(), "/", rest.as_str());
            }
        },
        None => {},
    }
    let is_tilde = n == 1 && v[0] == '~';
    assert(is_tilde == (path_str@ == "~"@)) by {
        if is_tilde {
            assert(path_str@ =~= "~"@);
        }
    }
    if is_tilde {
        return match home {
            Some(h) => h,
            None => String::from_str(path_str),
        };
    }
    let rel = !(n > 0 && v[0] == '/');
    if rel {
        match &cwd {
            Some(c) => {
                return join_path(c.as_str(), path_str);
            },
            None => {},
        }
    }
    String::from_str(path_str)
}

// ── Clipboard ───────────────────────────────────────────────────────────────

/// The command line that copies with the clipboard tool `tool`.
pub open spec fn clipboard_command(tool: Seq<char>) -> Seq<char> {
    if tool == "xclip"@ {
        "xclip -selection clipboard"@
    } else if tool == "xsel"@ {
        "xsel --clipboard --input"@
    } else {
        tool
    }
}

/// The clipboard tools looked for, in order.
pub fn clipboard_tools() -> (r: Vec<String>)
    ensures
        strings_view(r@) == seq!["xclip"@, "xsel"@, "wl-copy"@, "pbcopy"@, "termux-clipboard-set"@],
{
    let mut v: Vec<String> = Vec::new();
    push_line(&mut v, String::from_str("xclip"));
    push_line(&mut v, String::from_str("xsel"));
    push_line(&mut v, String::from_str("wl-copy"));
    push_line(&mut v, String::from_str("pbcopy"));
    push_line(&mut v, String::from_str("termux-clipboard-set"));
    assert(strings_view(v@) =~= seq!["xclip"@, "xsel"@, "wl-copy"@, "pbcopy"@, "termux-clipboard-set"@]);
    v
}

pub fn clipboard_command_for(tool: &str) -> (r: String)
    ensures
        r@ == clipboard_command(tool@),
{
    if eq_str(tool, "xclip") {
        String::from_str("xclip -selection clipboard")
    } else if eq_str(tool, "xsel") {
        String::from_str("xsel --clipboard --input")
    } else {
        String::from_str(tool)
    }
}

} // verus!

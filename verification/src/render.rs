//! The commit tree as lines of ANSI-coded text.
use vstd::prelude::*;
use crate::ansi::{vis_len, visible_len, BLD, CYN, DIM, GRN, GRY, LRE, RST, WHT, YEL};
use crate::graph::{CommitInfo, CommitView, commits_view, occ_view};
use crate::state::{AppState, BranchInfo, RenderLine};
use crate::styled::{TermColor, code_of_color, color_to_ansi_num};
use crate::text::{
    byte_len, byte_prefix, byte_head, byte_len_exceeds, bytes_upto, chars_of, contains, decimal,
    lex_less, lex_less_exec, lowercase, push_char, push_space_padded, push_str,
    slice_chars, space_padded, string_of, to_lowercase, u64_to_decimal, lemma_byte_len_mono,
    lemma_byte_prefix_at,
};

use crate::pattern::{regex_matches, regex_matches_exec};

verus! {

// ── Widths ──────────────────────────────────────────────────────────────────

/// The width of the tree column: the terminal less the sidebar (shown from 80
/// columns on) and its separator, at least 20.
pub open spec fn tree_width(term_w: int) -> int {
    let sidebar_w: int = if term_w >= 80 { 28 } else { 0 };
    let tw = if term_w >= sidebar_w + 1 { term_w - (sidebar_w + 1) } else { 0 };
    if tw >= 20 { tw } else { 20 }
}

pub fn compute_tree_w(term_w: u16) -> (r: usize)
    ensures
        r == tree_width(term_w as int),
{
    let sidebar_w: usize = if term_w >= 80 { 28 } else { 0 };
    let tw = if (term_w as usize) >= sidebar_w + 1 { (term_w as usize) - (sidebar_w + 1) } else { 0 };
    if tw >= 20 { tw } else { 20 }
}

/// Width of the graph column for `nlanes` lanes.
pub open spec fn graph_width(nlanes: int) -> int {
    nlanes * 2 + 4
}

/// Characters of the subject that fit: the tree width less the prefix, hash,
/// author, date and spacing columns, at least 10.
pub open spec fn subject_width(term_w: int, nlanes: int) -> int {
    let fixed = (4 + graph_width(nlanes) + 1) + 8 + 14 + 12 + 6;
    let w = tree_width(term_w);
    let s = if w >= fixed { w - fixed } else { 0 };
    if s >= 10 { s } else { 10 }
}

// ── Looking things up ───────────────────────────────────────────────────────

/// The index of the last commit with hash `h` (the commit index maps each hash to
/// the last commit that has it).
pub open spec fn index_of(cv: Seq<CommitView>, h: Seq<char>, k: int) -> Option<int>
    decreases k,
{
    if k <= 0 {
        None
    } else if cv[k - 1].hash == h {
        Some(k - 1)
    } else {
        index_of(cv, h, k - 1)
    }
}

pub open spec fn commit_index(cv: Seq<CommitView>, h: Seq<char>) -> Option<int> {
    index_of(cv, h, cv.len() as int)
}

/// Looking a commit of the window up by its hash keeps to the last commit that
/// has it, and finds every commit that no later one shares its hash with.
pub proof fn law_index_finds_commits(cv: Seq<CommitView>, i: int)
    requires
        0 <= i < cv.len(),
    ensures
        commit_index(cv, cv[i].hash) matches Some(j) && i <= j < cv.len() && cv[j].hash == cv[i].hash,
        (forall|k: int| i < k < cv.len() ==> cv[k].hash != cv[i].hash) ==> commit_index(cv, cv[i].hash)
            == Some(i),
{
    lemma_index_of_reaches(cv, cv[i].hash, i, cv.len() as int);
}

proof fn lemma_index_of_reaches(cv: Seq<CommitView>, h: Seq<char>, i: int, k: int)
    requires
        0 <= i < k <= cv.len(),
        cv[i].hash == h,
    ensures
        index_of(cv, h, k) matches Some(j) && i <= j < k && cv[j].hash == h,
        (forall|m: int| i < m < k ==> cv[m].hash != h) ==> index_of(cv, h, k) == Some(i),
    decreases k,
{
    if k - 1 > i && cv[k - 1].hash != h {
        lemma_index_of_reaches(cv, h, i, k - 1);
    }
}

/// The commit index of the window: the position of the last commit with hash
/// `h`, if any.
pub fn find_commit(commits: &Vec<CommitInfo>, h: &String) -> (r: Option<usize>)
    ensures
        r matches Some(i) ==> commit_index(commits_view(commits@), h@) == Some(i as int) && i
            < commits@.len(),
        r is None ==> commit_index(commits_view(commits@), h@) is None,
{
    let ghost cv = commits_view(commits@);
    let mut k = commits.len();
    while k > 0
        invariant
            k <= commits@.len(),
            cv == commits_view(commits@),
            index_of(cv, h@, k as int) == commit_index(cv, h@),
        decreases k,
    {
        if commits[k - 1].hash == *h {
            assert(cv[k - 1].hash == h@);
            return Some(k - 1);
        }
        k = k - 1;
    }
    None
}

pub open spec fn branches_view(b: Seq<BranchInfo>) -> Seq<(Seq<char>, TermColor, Seq<char>)> {
    b.map_values(|x: BranchInfo| (x.name@, x.color, x.head_oid@))
}

/// The first branch whose head is `h`.
pub open spec fn branch_at_from(bv: Seq<(Seq<char>, TermColor, Seq<char>)>, h: Seq<char>, k: int) -> Option<int>
    decreases bv.len() - k,
{
    if k < 0 || k >= bv.len() {
        None
    } else if bv[k].2 == h {
        Some(k)
    } else {
        branch_at_from(bv, h, k + 1)
    }
}

fn find_branch(branches: &Vec<BranchInfo>, h: &String) -> (r: Option<usize>)
    ensures
        r matches Some(i) ==> branch_at_from(branches_view(branches@), h@, 0) == Some(i as int) && i
            < branches@.len(),
        r is None ==> branch_at_from(branches_view(branches@), h@, 0) is None,
{
    let ghost bv = branches_view(branches@);
    let mut k: usize = 0;
    while k < branches.len()
        invariant
            k <= branches@.len(),
            bv == branches_view(branches@),
            branch_at_from(bv, h@, k as int) == branch_at_from(bv, h@, 0),
        decreases branches@.len() - k,
    {
        if branches[k].head_oid == *h {
            assert(bv[k as int].2 == h@);
            return Some(k);
        }
        k = k + 1;
    }
    None
}

/// `ESC [ n m`: the foreground code of a colour.
pub open spec fn color_esc(c: TermColor) -> Seq<char> {
    seq!['\x1b', '['] + decimal(code_of_color(c) as nat) + seq!['m']
}

fn push_color(s: &mut String, c: TermColor)
    ensures
        final(s)@ == old(s)@ + color_esc(c),
{
    push_char(s, '\x1b');
    push_char(s, '[');
    let n = color_to_ansi_num(c);
    let d = u64_to_decimal(n as u64);
    push_str(s, d.as_str());
    push_char(s, 'm');
    assert(s@ =~= old(s)@ + color_esc(c));
}

/// The colour code of the branch whose head is `h`, or dim when there is none.
pub open spec fn hash_color(bv: Seq<(Seq<char>, TermColor, Seq<char>)>, h: Seq<char>) -> Seq<char> {
    match branch_at_from(bv, h, 0) {
        Some(k) => color_esc(bv[k].1),
        None => DIM@,
    }
}

/// Returns the ANSI color code for the branch that has the given commit hash as its head.
/// Falls back to DIM if no branch matches.
pub fn hash_to_branch_color(branches: &Vec<BranchInfo>, hash: &String) -> (r: String)
    ensures
        r@ == hash_color(branches_view(branches@), hash@),
{
    let mut s = String::new();
    match find_branch(branches, hash) {
        Some(k) => {
            push_color(&mut s, branches[k].color);
            assert(s@ =~= color_esc(branches_view(branches@)[k as int].1));
        },
        None => {
            push_str(&mut s, DIM);
            assert(s@ =~= DIM@);
        },
    }
    s
}

// ── Which commits are listed ────────────────────────────────────────────────

/// The first ten bytes of a date (its `YYYY-MM-DD`).
pub open spec fn date_head(date: Seq<char>) -> Seq<char> {
    byte_prefix(date, if byte_len(date) < 10 { byte_len(date) } else { 10 })->0
}

pub open spec fn date10_ok(date: Seq<char>) -> bool {
    byte_prefix(date, if byte_len(date) < 10 { byte_len(date) } else { 10 }) is Some
}

/// Commit `i` passes the text filter (a regular expression that matches its
/// hash, subject or author, case not counted), the date range and the
/// descendant filter.
pub open spec fn commit_listed(app: AppState, i: int) -> bool {
    let c = commits_view(app.commits@)[i];
    let f = app.filter_text@;
    &&& (f.len() == 0 || regex_matches(f, lowercase(c.hash)) || regex_matches(f, lowercase(c.subject))
        || regex_matches(f, lowercase(c.author)))
    &&& (app.date_from@.len() == 0 || !lex_less(date_head(c.date), app.date_from@))
    &&& (app.date_to@.len() == 0 || !lex_less(app.date_to@, date_head(c.date)))
    &&& (app.descendant_set@.len() == 0 || desc_hashes(app).contains(c.hash))
}

/// The hashes of the descendant filter.
pub open spec fn desc_hashes(app: AppState) -> Set<Seq<char>> {
    app.descendant_set@.map_values(|h: String| h@).to_set()
}

// ── One commit's line ───────────────────────────────────────────────────────

/// The lanes of the parents of a merge that are in the window (none for other
/// commits).
pub open spec fn parent_lanes_from(app: AppState, parents: Seq<Seq<char>>) -> Seq<int>
    decreases parents.len(),
{
    if parents.len() == 0 {
        seq![]
    } else {
        let rest = parent_lanes_from(app, parents.drop_last());
        match commit_index(commits_view(app.commits@), parents.last()) {
            Some(pi) => rest.push(app.lanes@[pi] as int),
            None => rest,
        }
    }
}

pub open spec fn parent_lanes(app: AppState, i: int) -> Seq<int> {
    let ps = commits_view(app.commits@)[i].parents;
    if ps.len() > 1 { parent_lanes_from(app, ps) } else { seq![] }
}

/// The least of a non-empty sequence.
pub open spec fn min_of(s: Seq<int>) -> int
    decreases s.len(),
{
    if s.len() <= 1 {
        s[0]
    } else {
        let m = min_of(s.drop_last());
        if s.last() < m { s.last() } else { m }
    }
}

/// The greatest of a non-empty sequence.
pub open spec fn max_of(s: Seq<int>) -> int
    decreases s.len(),
{
    if s.len() <= 1 {
        s[0]
    } else {
        let m = max_of(s.drop_last());
        if s.last() > m { s.last() } else { m }
    }
}

/// The least element, or `dflt` for an empty sequence.
pub open spec fn seq_min(s: Seq<int>, dflt: int) -> int {
    if s.len() == 0 { dflt } else { min_of(s) }
}

/// The greatest element, or `dflt` for an empty sequence.
pub open spec fn seq_max(s: Seq<int>, dflt: int) -> int {
    if s.len() == 0 { dflt } else { max_of(s) }
}

/// The node colour and symbol of commit `i`: the head, a merge, a branch tip or
/// an ordinary commit.
pub open spec fn node_of(app: AppState, i: int) -> (Seq<char>, char) {
    let c = commits_view(app.commits@)[i];
    if c.hash == app.head_hash@ {
        (LRE@, '▶')
    } else if c.parents.len() > 1 {
        (YEL@, '◆')
    } else {
        match branch_at_from(branches_view(app.branches@), c.hash, 0) {
            Some(k) => (color_esc(branches_view(app.branches@)[k].1), '◉'),
            None => (GRN@, '●'),
        }
    }
}

/// The node of a commit on its tree line: `▶` for HEAD and only for HEAD; any
/// other commit shows the yellow `◆` exactly when it has two or more parents
/// (a merge); a commit of one parent or none shows `◉` at a branch's tip and
/// the green `●` otherwise.
pub proof fn law_node_symbols(app: AppState, i: int)
    requires
        0 <= i < app.commits@.len(),
    ensures
        ({
            let c = commits_view(app.commits@)[i];
            let (colour, ch) = node_of(app, i);
            &&& (ch == '▶' <==> c.hash == app.head_hash@)
            &&& c.hash == app.head_hash@ ==> colour == LRE@
            &&& c.hash != app.head_hash@ ==> (ch == '◆' <==> c.parents.len() >= 2)
            &&& c.hash != app.head_hash@ && c.parents.len() >= 2 ==> colour == YEL@
            &&& c.hash != app.head_hash@ && c.parents.len() < 2 ==> (ch == '◉' || (ch == '●' && colour == GRN@))
            &&& (ch == '◉' <==> c.hash != app.head_hash@ && c.parents.len() < 2 && exists|k: int|
                0 <= k < app.branches@.len() && #[trigger] app.branches@[k].head_oid@ == c.hash)
            &&& ch == '◉' ==> exists|k: int|
                0 <= k < app.branches@.len() && #[trigger] app.branches@[k].head_oid@ == c.hash && colour
                    == color_esc(app.branches@[k].color) && forall|m: int| 0 <= m < k ==> app.branches@[m].head_oid@
                    != c.hash
        }),
{
    let c = commits_view(app.commits@)[i];
    let bv = branches_view(app.branches@);
    lemma_branch_at_from(bv, c.hash, 0);
    match branch_at_from(bv, c.hash, 0) {
        Some(k) => {
            assert(bv[k].2 == app.branches@[k].head_oid@);
            assert(bv[k].1 == app.branches@[k].color);
            assert forall|m: int| 0 <= m < k implies app.branches@[m].head_oid@ != c.hash by {
                assert(bv[m].2 == app.branches@[m].head_oid@);
            }
        },
        None => {
            assert forall|k: int| 0 <= k < app.branches@.len() implies #[trigger] app.branches@[k].head_oid@
                != c.hash by {
                assert(bv[k].2 == app.branches@[k].head_oid@);
            }
        },
    }
}

proof fn lemma_branch_at_from(bv: Seq<(Seq<char>, TermColor, Seq<char>)>, h: Seq<char>, k: int)
    requires
        0 <= k,
    ensures
        branch_at_from(bv, h, k) matches Some(j) ==> k <= j < bv.len() && bv[j].2 == h && forall|m: int|
            k <= m < j ==> bv[m].2 != h,
        branch_at_from(bv, h, k) is None ==> forall|j: int| k <= j < bv.len() ==> bv[j].2 != h,
    decreases bv.len() - k,
{
    if k < bv.len() && bv[k].2 != h {
        lemma_branch_at_from(bv, h, k + 1);
    }
}

/// A later commit names `h` as a parent, or a parent of commit `i` is drawn in
/// lane `l`: the lane carries a line past commit `i`.
pub open spec fn lane_active(app: AppState, i: int, l: int) -> bool {
    let cv = commits_view(app.commits@);
    let occ = occ_view(app.occupied@);
    ||| (0 <= l < occ.len() && occ[l] is Some && crate::graph::needed_later(cv, i, occ[l]->0))
    ||| exists|q: int|
        0 <= q < cv[i].parents.len() && #[trigger] commit_index(cv, cv[i].parents[q]) is Some
            && app.lanes@[commit_index(cv, cv[i].parents[q])->0] == l
}

/// The two columns of lane `l` on commit `i`'s line.
pub open spec fn lane_piece(app: AppState, i: int, l: int) -> Seq<char> {
    let cv = commits_view(app.commits@);
    let lane = app.lanes@[i] as int;
    let pl = parent_lanes(app, i);
    let is_merge = cv[i].parents.len() > 1 && pl.len() > 0;
    let is_parent_lane = is_merge && pl.contains(l) && l != lane;
    let is_between = is_merge && seq_min(pl, lane) < l && l < seq_max(pl, lane);
    let occ = occ_view(app.occupied@);
    let oh_color = if 0 <= l < occ.len() && occ[l] is Some {
        hash_color(branches_view(app.branches@), occ[l]->0)
    } else {
        DIM@
    };
    let (ncol, nchar) = node_of(app, i);
    if l == lane {
        seq![' '] + ncol + BLD@ + seq![nchar] + RST@
    } else if is_parent_lane && l < lane {
        YEL@ + seq!['╰', '─'] + RST@
    } else if is_parent_lane && l > lane {
        YEL@ + seq!['─', '╭'] + RST@
    } else if is_between {
        YEL@ + seq!['─', '─'] + RST@
    } else if lane_active(app, i, l) {
        seq![' '] + oh_color + seq!['│'] + RST@
    } else {
        seq![' ', ' ']
    }
}

/// Lanes `0..k` of commit `i`'s graph.
pub open spec fn graph_prefix(app: AppState, i: int, k: int) -> Seq<char>
    decreases k,
{
    if k <= 0 {
        seq![]
    } else {
        graph_prefix(app, i, k - 1) + lane_piece(app, i, k - 1)
    }
}

pub open spec fn spaces(n: int) -> Seq<char> {
    Seq::new(if n > 0 { n as nat } else { 0 }, |j: int| ' ')
}

/// The graph of commit `i`, padded with spaces to the graph width.
pub open spec fn graph_text(app: AppState, i: int) -> Seq<char> {
    let g = graph_prefix(app, i, app.nlanes as int);
    let w = graph_width(app.nlanes as int);
    if visible_len(g) < w { g + spaces(w - visible_len(g)) } else { g }
}

/// The refs of the branches whose head is `h`, the current branch in bold.
pub open spec fn refs_text(app: AppState, h: Seq<char>, k: int) -> Seq<char>
    decreases k,
{
    if k <= 0 {
        seq![]
    } else {
        let b = branches_view(app.branches@)[k - 1];
        refs_text(app, h, k - 1) + (if b.2 == h {
            seq![' '] + color_esc(b.1) + (if b.0 == app.current_branch@ { BLD@ } else { seq![] }) + b.0 + RST@
        } else {
            seq![]
        })
    }
}

/// The subject cut to `w` characters, with `…` when it is longer than `w` bytes.
pub open spec fn subject_text(subject: Seq<char>, w: int) -> Seq<char> {
    let t = if subject.len() > w { subject.take(w) } else { subject };
    if byte_len(subject) > w { t.push('…') } else { t }
}

pub open spec fn hash_head_ok(hash: Seq<char>) -> bool {
    byte_prefix(hash, if byte_len(hash) < 7 { byte_len(hash) } else { 7 }) is Some
}

/// The first seven bytes of a hash.
pub open spec fn short_hash(hash: Seq<char>) -> Seq<char> {
    byte_prefix(hash, if byte_len(hash) < 7 { byte_len(hash) } else { 7 })->0
}

/// The box of commit `i`: node connector, short hash, refs, subject, author, date.
pub open spec fn box_text(app: AppState, i: int) -> Seq<char> {
    let c = commits_view(app.commits@)[i];
    let (ncol, nchar) = node_of(app, i);
    let w = subject_width(app.term_w as int, app.nlanes as int);
    let auth = if c.author.len() > 12 { c.author.take(12) } else { c.author };
    ncol + seq!['╰', '─'] + RST@ + seq![' '] + BLD@ + CYN@ + short_hash(c.hash) + RST@ + refs_text(
        app,
        c.hash,
        app.branches@.len() as int,
    ) + box_tail(c, w)
}

proof fn lemma_graph_prefix_holds(app: AppState, i: int, k: int, l: int)
    requires
        0 <= l < k,
    ensures
        exists|a: Seq<char>, b: Seq<char>| #[trigger] graph_prefix(app, i, k) == a + lane_piece(app, i, l) + b,
    decreases k,
{
    if k - 1 == l {
        let a = graph_prefix(app, i, k - 1);
        assert(graph_prefix(app, i, k) == a + lane_piece(app, i, l) + Seq::<char>::empty());
    } else {
        lemma_graph_prefix_holds(app, i, k - 1, l);
        let (a, b) = choose|a: Seq<char>, b: Seq<char>| #[trigger] graph_prefix(app, i, k - 1) == a + lane_piece(app, i, l) + b;
        assert(graph_prefix(app, i, k) =~= a + lane_piece(app, i, l) + (b + lane_piece(app, i, k - 1)));
    }
}

proof fn lemma_lane_piece_node(app: AppState, i: int)
    ensures
        lane_piece(app, i, app.lanes@[i] as int) == seq![' '] + node_of(app, i).0 + BLD@ + seq![node_of(app, i).1]
            + RST@,
{
}

/// The tree line of a commit shows its node symbol (in its lane), and so the
/// line of a merge commit other than HEAD shows `◆`.
#[verifier::spinoff_prover]
#[verifier::rlimit(50)]
pub proof fn law_line_shows_node(app: AppState, i: int)
    requires
        0 <= i < app.commits@.len(),
        app.lanes@.len() == app.commits@.len(),
        app.lanes@[i] < app.nlanes,
    ensures
        contains(commit_line(app, i), seq![node_of(app, i).1]),
        commits_view(app.commits@)[i].hash != app.head_hash@ && commits_view(app.commits@)[i].parents.len() >= 2
            ==> contains(commit_line(app, i), seq!['◆']),
{
    let lane = app.lanes@[i] as int;
    let (ncol, nchar) = node_of(app, i);
    lemma_graph_prefix_holds(app, i, app.nlanes as int, lane);
    let (a, b) = choose|a: Seq<char>, b: Seq<char>| #[trigger] graph_prefix(app, i, app.nlanes as int) == a + lane_piece(app, i, lane) + b;
    let g = graph_prefix(app, i, app.nlanes as int);
    let w = graph_width(app.nlanes as int);
    let tail = if visible_len(g) < w { spaces(w - visible_len(g)) } else { seq![] };
    assert(graph_text(app, i) =~= g + tail);
    let pre = seq![' ', ' '] + space_padded(i as nat, 3) + seq![' '] + a + seq![' '] + ncol + BLD@;
    let post = RST@ + b + tail + seq![' '] + box_text(app, i);
    lemma_lane_piece_node(app, i);
    let bx = box_text(app, i);
    let gt = graph_text(app, i);
    assert(commit_line(app, i) == seq![' ', ' '] + space_padded(i as nat, 3) + seq![' '] + gt + seq![' '] + bx);
    assert(commit_line(app, i) =~= pre + seq![nchar] + post);
    crate::text::lemma_contains_middle(pre, seq![nchar], post);
    let c = commits_view(app.commits@)[i];
    if c.hash != app.head_hash@ && c.parents.len() >= 2 {
        assert(nchar == '◆');
    }
}

/// The end of a commit's box: subject, author (first twelve characters) and day.
pub open spec fn box_tail(c: CommitView, w: int) -> Seq<char> {
    let auth = if c.author.len() > 12 { c.author.take(12) } else { c.author };
    seq![' ', ' '] + WHT@ + subject_text(c.subject, w) + RST@ + seq![' ', ' '] + DIM@ + auth + RST@
        + seq![' '] + GRY@ + seq!['·', ' '] + date_head(c.date) + RST@
}

/// The line of commit `i`: its number, its graph and its box.
pub open spec fn commit_line(app: AppState, i: int) -> Seq<char> {
    seq![' ', ' '] + space_padded(i as nat, 3) + seq![' '] + graph_text(app, i) + seq![' '] + box_text(app, i)
}

/// Bytes 11 to 19 of a date (its time of day).
pub open spec fn date_time_part(date: Seq<char>) -> Seq<char> {
    let e = if byte_len(date) < 19 { byte_len(date) } else { 19 };
    let a = byte_prefix(date, 11)->0;
    let b = byte_prefix(date, e)->0;
    b.skip(a.len() as int)
}

pub open spec fn meta_ok(date: Seq<char>) -> bool {
    byte_len(date) >= 11 && byte_prefix(date, 11) is Some && byte_prefix(
        date,
        if byte_len(date) < 19 { byte_len(date) } else { 19 },
    ) is Some
}

/// The metadata line of commit `i`: full hash, time, and merge or root marker.
pub open spec fn meta_line(app: AppState, i: int) -> Seq<char> {
    let c = commits_view(app.commits@)[i];
    let w = graph_width(app.nlanes as int);
    spaces(4 + w + 2) + GRY@ + c.hash + GRY@ + date_time_part(c.date) + RST@ + (if c.parents.len() > 1 {
        seq![' ', ' '] + YEL@ + seq!['⟶', ' ', 'm', 'e', 'r', 'g', 'e'] + RST@
    } else if c.parents.len() == 0 {
        seq![' ', ' '] + GRN@ + seq!['⟶', ' ', 'r', 'o', 'o', 't'] + RST@
    } else {
        seq![]
    })
}

/// The tree lines for commits `0..k`.
pub open spec fn tree_lines(app: AppState, k: int) -> Seq<(Seq<char>, Option<usize>)>
    decreases k,
{
    if k <= 0 {
        seq![]
    } else {
        let rest = tree_lines(app, k - 1);
        if !commit_listed(app, k - 1) {
            rest
        } else if app.show_meta {
            rest.push((commit_line(app, k - 1), Some((k - 1) as usize))).push(
                (meta_line(app, k - 1), Some((k - 1) as usize)),
            )
        } else {
            rest.push((commit_line(app, k - 1), Some((k - 1) as usize)))
        }
    }
}

pub open spec fn empty_tree_line() -> Seq<char> {
    seq![' ', ' '] + DIM@ + "No commits to display"@ + RST@
}

/// All tree lines of the window.
pub open spec fn rendered(app: AppState) -> Seq<(Seq<char>, Option<usize>)> {
    if app.commits@.len() == 0 {
        seq![(empty_tree_line(), None)]
    } else {
        tree_lines(app, app.commits@.len() as int)
    }
}

pub open spec fn render_view(v: Seq<RenderLine>) -> Seq<(Seq<char>, Option<usize>)> {
    v.map_values(|r: RenderLine| (r.content@, r.commit_idx))
}

/// What rendering needs of the state: a lane for every commit, and every byte
/// slice it takes of hashes and dates falling on character boundaries.
pub open spec fn render_ready(app: AppState) -> bool {
    let cv = commits_view(app.commits@);
    &&& app.lanes@.len() == app.commits@.len()
    &&& app.nlanes * 2 + 49 <= usize::MAX
    &&& (app.date_from@.len() > 0 || app.date_to@.len() > 0) ==> forall|i: int|
        0 <= i < cv.len() ==> #[trigger] date10_ok(cv[i].date)
    &&& forall|i: int|
        0 <= i < cv.len() && #[trigger] commit_listed(app, i) ==> hash_head_ok(cv[i].hash) && date10_ok(cv[i].date)
            && (app.show_meta ==> meta_ok(cv[i].date))
}

/// What a commit needs for every view of the tree to be drawable: its first seven
/// bytes, its first ten date bytes and its time of day fall on character
/// boundaries.
pub open spec fn commit_ready(c: CommitView) -> bool {
    hash_head_ok(c.hash) && date10_ok(c.date) && meta_ok(c.date)
}

/// What the loaded git data must hold for the tree to be drawn under any filter:
/// a lane for every commit, a lane count whose widths fit, and drawable commits.
pub open spec fn data_ready(app: AppState) -> bool {
    &&& app.lanes@.len() == app.commits@.len()
    &&& app.nlanes * 2 + 49 <= usize::MAX
    &&& forall|i: int|
        0 <= i < app.commits@.len() ==> #[trigger] commit_ready(commits_view(app.commits@)[i])
}

/// Every tree line that names a commit names one of the window.
pub open spec fn lines_point_in(app: AppState) -> bool {
    forall|k: int|
        0 <= k < app.render_lines@.len() && (#[trigger] app.render_lines@[k]).commit_idx is Some
            ==> app.render_lines@[k].commit_idx->0 < app.commits@.len()
}

/// Whether every view of the tree can draw commit `c`.
pub fn commit_ready_exec(c: &CommitInfo) -> (r: bool)
    ensures
        r == commit_ready(c@),
{
    let h = chars_of(c.hash.as_str());
    let d = chars_of(c.date.as_str());
    let hash_ok = byte_head(&h, 7).is_some();
    let date_ok = byte_head(&d, 10).is_some();
    let long = byte_len_exceeds(&d, 10);
    let time_ok = long && byte_head(&d, 11).is_some() && byte_head(&d, 19).is_some();
    proof {
        assert(c@.hash == h@ && c@.date == d@);
    }
    hash_ok && date_ok && time_ok
}

/// Whether the loaded git data is ready to be drawn.
pub fn data_ready_exec(app: &AppState) -> (r: bool)
    ensures
        r == data_ready(*app),
{
    if app.lanes.len() != app.commits.len() || app.nlanes > (usize::MAX - 49) / 2 {
        return false;
    }
    let n = app.commits.len();
    let mut i: usize = 0;
    while i < n
        invariant
            i <= n,
            n == app.commits@.len(),
            forall|k: int| 0 <= k < i ==> #[trigger] commit_ready(commits_view(app.commits@)[k]),
        decreases n - i,
    {
        if !commit_ready_exec(&app.commits[i]) {
            assert(commits_view(app.commits@)[i as int] == app.commits@[i as int]@);
            return false;
        }
        assert(commits_view(app.commits@)[i as int] == app.commits@[i as int]@);
        i = i + 1;
    }
    true
}

/// Whether every tree line that names a commit names one of the window.
pub fn lines_point_in_exec(app: &AppState) -> (r: bool)
    ensures
        r == lines_point_in(*app),
{
    let n = app.render_lines.len();
    let mut k: usize = 0;
    while k < n
        invariant
            k <= n,
            n == app.render_lines@.len(),
            forall|j: int|
                0 <= j < k && (#[trigger] app.render_lines@[j]).commit_idx is Some
                    ==> app.render_lines@[j].commit_idx->0 < app.commits@.len(),
        decreases n - k,
    {
        match app.render_lines[k].commit_idx {
            Some(ci) => {
                if ci >= app.commits.len() {
                    return false;
                }
            },
            None => {},
        }
        k = k + 1;
    }
    true
}

/// Loaded data that is ready can be drawn whatever the filters and toggles.
pub proof fn lemma_data_ready_renders(app: AppState)
    requires
        data_ready(app),
    ensures
        render_ready(app),
{
    let cv = commits_view(app.commits@);
    assert forall|i: int| 0 <= i < cv.len() implies #[trigger] date10_ok(cv[i].date) by {
        assert(commit_ready(cv[i]));
    }
    assert forall|i: int| 0 <= i < cv.len() && #[trigger] commit_listed(app, i) implies hash_head_ok(
        cv[i].hash,
    ) && date10_ok(cv[i].date) && (app.show_meta ==> meta_ok(cv[i].date)) by {
        assert(commit_ready(cv[i]));
    }
}

/// `b` differs from `a` at most in its drawn lines and its redraw flag.
pub open spec fn same_but_drawing(a: AppState, b: AppState) -> bool {
    b == (AppState { render_lines: b.render_lines, dirty: b.dirty, ..a })
}

proof fn lemma_parent_lanes_same(a: AppState, b: AppState, ps: Seq<Seq<char>>)
    requires
        same_but_drawing(a, b),
    ensures
        parent_lanes_from(a, ps) == parent_lanes_from(b, ps),
    decreases ps.len(),
{
    if ps.len() > 0 {
        lemma_parent_lanes_same(a, b, ps.drop_last());
    }
}

proof fn lemma_graph_prefix_same(a: AppState, b: AppState, i: int, k: int)
    requires
        same_but_drawing(a, b),
    ensures
        graph_prefix(a, i, k) == graph_prefix(b, i, k),
    decreases k,
{
    if k > 0 {
        lemma_graph_prefix_same(a, b, i, k - 1);
        lemma_parent_lanes_same(a, b, commits_view(a.commits@)[i].parents);
        assert(lane_active(a, i, k - 1) == lane_active(b, i, k - 1));
        assert(lane_piece(a, i, k - 1) == lane_piece(b, i, k - 1));
    }
}

proof fn lemma_refs_text_same(a: AppState, b: AppState, h: Seq<char>, k: int)
    requires
        same_but_drawing(a, b),
    ensures
        refs_text(a, h, k) == refs_text(b, h, k),
    decreases k,
{
    if k > 0 {
        lemma_refs_text_same(a, b, h, k - 1);
    }
}

proof fn lemma_tree_lines_same(a: AppState, b: AppState, k: int)
    requires
        same_but_drawing(a, b),
    ensures
        tree_lines(a, k) == tree_lines(b, k),
    decreases k,
{
    if k > 0 {
        lemma_tree_lines_same(a, b, k - 1);
        let i = k - 1;
        lemma_graph_prefix_same(a, b, i, a.nlanes as int);
        lemma_refs_text_same(a, b, commits_view(a.commits@)[i].hash, a.branches@.len() as int);
        assert(commit_listed(a, i) == commit_listed(b, i));
        assert(commit_line(a, i) == commit_line(b, i));
        assert(meta_line(a, i) == meta_line(b, i));
    }
}

/// The tree drawn for a state does not depend on the lines drawn before nor on
/// the redraw flag.
pub proof fn lemma_rendered_same(a: AppState, b: AppState)
    requires
        same_but_drawing(a, b),
    ensures
        rendered(a) == rendered(b),
{
    lemma_tree_lines_same(a, b, a.commits@.len() as int);
}

proof fn lemma_tree_lines_listed(app: AppState, k: int)
    requires
        0 <= k <= app.commits@.len() <= usize::MAX,
    ensures
        forall|j: int|
            0 <= j < tree_lines(app, k).len() && (#[trigger] tree_lines(app, k)[j]).1 is Some ==> ({
                let i = tree_lines(app, k)[j].1->0 as int;
                0 <= i < k && commit_listed(app, i)
            }),
        forall|i: int|
            0 <= i < k && #[trigger] commit_listed(app, i) ==> exists|j: int|
                0 <= j < tree_lines(app, k).len() && (#[trigger] tree_lines(app, k)[j]).1 == Some(i as usize),
        forall|j1: int, j2: int|
            0 <= j1 < j2 < tree_lines(app, k).len() && (#[trigger] tree_lines(app, k)[j1]).1 is Some && (
            #[trigger] tree_lines(app, k)[j2]).1 is Some ==> tree_lines(app, k)[j1].1->0 <= tree_lines(
                app,
                k,
            )[j2].1->0,
    decreases k,
{
    if k > 0 {
        lemma_tree_lines_listed(app, k - 1);
        let rest = tree_lines(app, k - 1);
        let t = tree_lines(app, k);
        assert forall|j: int| 0 <= j < rest.len() implies #[trigger] t[j] == rest[j] by {}
        assert forall|i: int|
            0 <= i < k && #[trigger] commit_listed(app, i) implies exists|j: int|
                0 <= j < t.len() && (#[trigger] t[j]).1 == Some(i as usize) by {
            if i < k - 1 {
                let j = choose|j: int| 0 <= j < rest.len() && (#[trigger] rest[j]).1 == Some(i as usize);
                assert(t[j] == rest[j]);
            } else {
                assert(t[rest.len() as int].1 == Some(i as usize));
            }
        }
        assert forall|j1: int, j2: int|
            0 <= j1 < j2 < t.len() && (#[trigger] t[j1]).1 is Some && (#[trigger] t[j2]).1 is Some implies t[j1].1->0
                <= t[j2].1->0 by {
            if j2 < rest.len() {
                assert(t[j1] == rest[j1] && t[j2] == rest[j2]);
            } else if j1 < rest.len() {
                assert(t[j1] == rest[j1]);
            }
        }
    }
}

/// The tree shows exactly the commits of the window that pass the text, date
/// and descendant filters, in the order of the window.
pub proof fn law_tree_shows_listed_commits(app: AppState)
    requires
        app.commits@.len() <= usize::MAX,
    ensures
        forall|j: int|
            0 <= j < rendered(app).len() && (#[trigger] rendered(app)[j]).1 is Some ==> ({
                let i = rendered(app)[j].1->0 as int;
                0 <= i < app.commits@.len() && commit_listed(app, i)
            }),
        forall|i: int|
            0 <= i < app.commits@.len() && #[trigger] commit_listed(app, i) ==> exists|j: int|
                0 <= j < rendered(app).len() && (#[trigger] rendered(app)[j]).1 == Some(i as usize),
        forall|j1: int, j2: int|
            0 <= j1 < j2 < rendered(app).len() && (#[trigger] rendered(app)[j1]).1 is Some && (
            #[trigger] rendered(app)[j2]).1 is Some ==> rendered(app)[j1].1->0 <= rendered(app)[j2].1->0,
{
    let n = app.commits@.len() as int;
    if n > 0 {
        lemma_tree_lines_listed(app, n);
    }
}

proof fn lemma_tree_lines_point_in(app: AppState, k: int)
    requires
        0 <= k,
    ensures
        forall|j: int|
            0 <= j < tree_lines(app, k).len() && (#[trigger] tree_lines(app, k)[j]).1 is Some
                ==> tree_lines(app, k)[j].1->0 < k,
    decreases k,
{
    if k > 0 {
        lemma_tree_lines_point_in(app, k - 1);
        let rest = tree_lines(app, k - 1);
        assert forall|j: int|
            0 <= j < tree_lines(app, k).len() && (#[trigger] tree_lines(app, k)[j]).1 is Some
                implies tree_lines(app, k)[j].1->0 < k by {
            if j < rest.len() {
                assert(tree_lines(app, k)[j] == rest[j]);
            }
        }
    }
}

// ── Building the lines ──────────────────────────────────────────────────────

fn in_descendants(set: &Vec<String>, h: &String) -> (r: bool)
    ensures
        r == set@.map_values(|x: String| x@).contains(h@),
{
    let ghost sv = set@.map_values(|x: String| x@);
    let mut k: usize = 0;
    while k < set.len()
        invariant
            k <= set@.len(),
            sv == set@.map_values(|x: String| x@),
            forall|j: int| 0 <= j < k ==> sv[j] != h@,
        decreases set@.len() - k,
    {
        if set[k] == *h {
            assert(sv[k as int] == h@);
            return true;
        }
        k = k + 1;
    }
    false
}

pub fn date_head_exec(date: &String) -> (r: Vec<char>)
    requires
        date10_ok(date@),
    ensures
        r@ == date_head(date@),
{
    let v = chars_of(date.as_str());
    match byte_head(&v, 10) {
        Some(x) => x,
        None => {
            assert(false);
            Vec::new()
        },
    }
}

fn commit_listed_exec(app: &AppState, i: usize, fl: &Vec<char>) -> (r: bool)
    requires
        i < app.commits@.len(),
        fl@ == app.filter_text@,
        (app.date_from@.len() > 0 || app.date_to@.len() > 0) ==> date10_ok(
            commits_view(app.commits@)[i as int].date,
        ),
    ensures
        r == commit_listed(*app, i as int),
{
    let c = &app.commits[i];
    assert(c.hash@ == commits_view(app.commits@)[i as int].hash);
    assert(c.date@ == commits_view(app.commits@)[i as int].date);
    if app.filter_text.as_str().unicode_len() > 0 {
        let h = to_lowercase(c.hash.as_str());
        let su = to_lowercase(c.subject.as_str());
        let au = to_lowercase(c.author.as_str());
        let hv = chars_of(h.as_str());
        let sv = chars_of(su.as_str());
        let av = chars_of(au.as_str());
        if !regex_matches_exec(fl, &hv) && !regex_matches_exec(fl, &sv) && !regex_matches_exec(fl, &av) {
            return false;
        }
    }
    if app.date_from.as_str().unicode_len() > 0 {
        let d = date_head_exec(&c.date);
        let from = chars_of(app.date_from.as_str());
        if lex_less_exec(&d, &from) {
            return false;
        }
    }
    if app.date_to.as_str().unicode_len() > 0 {
        let d = date_head_exec(&c.date);
        let to = chars_of(app.date_to.as_str());
        if lex_less_exec(&to, &d) {
            return false;
        }
    }
    if app.descendant_set.len() > 0 {
        if !in_descendants(&app.descendant_set, &c.hash) {
            assert(!desc_hashes(*app).contains(c.hash@));
            return false;
        }
    }
    true
}

fn parent_lanes_exec(app: &AppState, i: usize) -> (r: Vec<usize>)
    requires
        i < app.commits@.len(),
        app.lanes@.len() == app.commits@.len(),
    ensures
        r@.map_values(|x: usize| x as int) == parent_lanes(*app, i as int),
{
    let parents = &app.commits[i].parents;
    let ghost pv = commits_view(app.commits@)[i as int].parents;
    assert(pv == parents@.map_values(|p: String| p@));
    let mut out: Vec<usize> = Vec::new();
    if parents.len() <= 1 {
        assert(out@.map_values(|x: usize| x as int) =~= Seq::<int>::empty());
        return out;
    }
    let mut q: usize = 0;
    while q < parents.len()
        invariant
            q <= parents@.len(),
            pv == parents@.map_values(|p: String| p@),
            app.lanes@.len() == app.commits@.len(),
            out@.map_values(|x: usize| x as int) == parent_lanes_from(*app, pv.take(q as int)),
        decreases parents@.len() - q,
    {
        assert(pv.take(q + 1).drop_last() =~= pv.take(q as int));
        assert(pv.take(q + 1).last() == parents@[q as int]@);
        let ghost before = out@;
        match find_commit(&app.commits, &parents[q]) {
            Some(pi) => {
                out.push(app.lanes[pi]);
                assert(out@.map_values(|x: usize| x as int) =~= before.map_values(|x: usize| x as int).push(
                    app.lanes@[pi as int] as int,
                ));
            },
            None => {},
        }
        q = q + 1;
    }
    assert(pv.take(pv.len() as int) =~= pv);
    out
}

fn min_max_exec(v: &Vec<usize>, dflt: usize) -> (r: (usize, usize))
    ensures
        r.0 == seq_min(v@.map_values(|x: usize| x as int), dflt as int),
        r.1 == seq_max(v@.map_values(|x: usize| x as int), dflt as int),
{
    let ghost sv = v@.map_values(|x: usize| x as int);
    if v.len() == 0 {
        return (dflt, dflt);
    }
    let mut lo = v[0];
    let mut hi = v[0];
    let mut k: usize = 1;
    assert(sv.take(1).len() == 1);
    while k < v.len()
        invariant
            1 <= k <= v@.len(),
            sv == v@.map_values(|x: usize| x as int),
            lo == min_of(sv.take(k as int)),
            hi == max_of(sv.take(k as int)),
        decreases v@.len() - k,
    {
        assert(sv.take(k + 1).drop_last() =~= sv.take(k as int));
        if v[k] < lo {
            lo = v[k];
        }
        if v[k] > hi {
            hi = v[k];
        }
        k = k + 1;
    }
    assert(sv.take(sv.len() as int) =~= sv);
    (lo, hi)
}

fn contains_lane(v: &Vec<usize>, l: usize) -> (r: bool)
    ensures
        r == v@.map_values(|x: usize| x as int).contains(l as int),
{
    let ghost sv = v@.map_values(|x: usize| x as int);
    let mut k: usize = 0;
    while k < v.len()
        invariant
            k <= v@.len(),
            sv == v@.map_values(|x: usize| x as int),
            forall|j: int| 0 <= j < k ==> sv[j] != l as int,
        decreases v@.len() - k,
    {
        if v[k] == l {
            assert(sv[k as int] == l as int);
            return true;
        }
        k = k + 1;
    }
    false
}

fn lane_active_exec(app: &AppState, i: usize, l: usize) -> (r: bool)
    requires
        i < app.commits@.len(),
        app.lanes@.len() == app.commits@.len(),
    ensures
        r == lane_active(*app, i as int, l as int),
{
    let ghost cv = commits_view(app.commits@);
    let ghost occ = occ_view(app.occupied@);
    if l < app.occupied.len() {
        match &app.occupied[l] {
            Some(oh) => {
                assert(occ[l as int] == Some(oh@));
                if crate::graph::needed_after(&app.commits, i, oh) {
                    return true;
                }
            },
            None => {
                assert(occ[l as int] is None);
            },
        }
    }
    let parents = &app.commits[i].parents;
    let ghost pv = cv[i as int].parents;
    assert(pv == parents@.map_values(|p: String| p@));
    let mut q: usize = 0;
    while q < parents.len()
        invariant
            q <= parents@.len(),
            pv == parents@.map_values(|p: String| p@),
            cv == commits_view(app.commits@),
            pv == cv[i as int].parents,
            app.lanes@.len() == app.commits@.len(),
            forall|qq: int|
                0 <= qq < q ==> !(commit_index(cv, pv[qq]) is Some && app.lanes@[commit_index(
                    cv,
                    pv[qq],
                )->0] == l),
        decreases parents@.len() - q,
    {
        match find_commit(&app.commits, &parents[q]) {
            Some(pi) => {
                if app.lanes[pi] == l {
                    assert(commit_index(cv, cv[i as int].parents[q as int]) is Some);
                    return true;
                }
            },
            None => {},
        }
        q = q + 1;
    }
    false
}

fn node_exec(app: &AppState, i: usize) -> (r: (String, char))
    requires
        i < app.commits@.len(),
    ensures
        (r.0@, r.1) == node_of(*app, i as int),
{
    let c = &app.commits[i];
    assert(c.hash@ == commits_view(app.commits@)[i as int].hash);
    assert(c.parents@.len() == commits_view(app.commits@)[i as int].parents.len());
    if c.hash == app.head_hash {
        (String::from_str(LRE), '▶')
    } else if c.parents.len() > 1 {
        (String::from_str(YEL), '◆')
    } else {
        match find_branch(&app.branches, &c.hash) {
            Some(k) => {
                let mut s = String::new();
                push_color(&mut s, app.branches[k].color);
                assert(s@ =~= color_esc(branches_view(app.branches@)[k as int].1));
                (s, '◉')
            },
            None => (String::from_str(GRN), '●'),
        }
    }
}

fn push_lane_piece(
    g: &mut String,
    app: &AppState,
    i: usize,
    l: usize,
    pl: &Vec<usize>,
    lo: usize,
    hi: usize,
    ncol: &String,
    nchar: char,
)
    requires
        i < app.commits@.len(),
        app.lanes@.len() == app.commits@.len(),
        pl@.map_values(|x: usize| x as int) == parent_lanes(*app, i as int),
        lo == seq_min(parent_lanes(*app, i as int), app.lanes@[i as int] as int),
        hi == seq_max(parent_lanes(*app, i as int), app.lanes@[i as int] as int),
        (ncol@, nchar) == node_of(*app, i as int),
    ensures
        final(g)@ == old(g)@ + lane_piece(*app, i as int, l as int),
{
    let lane = app.lanes[i];
    let np = app.commits[i].parents.len();
    assert(np == commits_view(app.commits@)[i as int].parents.len());
    let is_merge = np > 1 && pl.len() > 0;
    let is_parent_lane = is_merge && contains_lane(pl, l) && l != lane;
    let is_between = is_merge && lo < l && l < hi;
    if l == lane {
        push_char(g, ' ');
        push_str(g, ncol.as_str());
        push_str(g, BLD);
        push_char(g, nchar);
        push_str(g, RST);
    } else if is_parent_lane && l < lane {
        push_str(g, YEL);
        push_char(g, '╰');
        push_char(g, '─');
        push_str(g, RST);
    } else if is_parent_lane && l > lane {
        push_str(g, YEL);
        push_char(g, '─');
        push_char(g, '╭');
        push_str(g, RST);
    } else if is_between {
        push_str(g, YEL);
        push_char(g, '─');
        push_char(g, '─');
        push_str(g, RST);
    } else if lane_active_exec(app, i, l) {
        let col = if l < app.occupied.len() {
            match &app.occupied[l] {
                Some(h) => {
                    assert(occ_view(app.occupied@)[l as int] == Some(h@));
                    hash_to_branch_color(&app.branches, h)
                },
                None => {
                    assert(occ_view(app.occupied@)[l as int] is None);
                    String::from_str(DIM)
                },
            }
        } else {
            String::from_str(DIM)
        };
        push_char(g, ' ');
        push_str(g, col.as_str());
        push_char(g, '│');
        push_str(g, RST);
    } else {
        push_char(g, ' ');
        push_char(g, ' ');
    }
    assert(g@ =~= old(g)@ + lane_piece(*app, i as int, l as int));
}

fn graph_exec(app: &AppState, i: usize, ncol: &String, nchar: char) -> (r: String)
    requires
        i < app.commits@.len(),
        app.lanes@.len() == app.commits@.len(),
        app.nlanes * 2 + 49 <= usize::MAX,
        (ncol@, nchar) == node_of(*app, i as int),
    ensures
        r@ == graph_text(*app, i as int),
{
    let pl = parent_lanes_exec(app, i);
    let (lo, hi) = min_max_exec(&pl, app.lanes[i]);
    let mut g = String::new();
    let mut l: usize = 0;
    while l < app.nlanes
        invariant
            l <= app.nlanes,
            i < app.commits@.len(),
            app.lanes@.len() == app.commits@.len(),
            pl@.map_values(|x: usize| x as int) == parent_lanes(*app, i as int),
            lo == seq_min(parent_lanes(*app, i as int), app.lanes@[i as int] as int),
            hi == seq_max(parent_lanes(*app, i as int), app.lanes@[i as int] as int),
            (ncol@, nchar) == node_of(*app, i as int),
            g@ == graph_prefix(*app, i as int, l as int),
        decreases app.nlanes - l,
    {
        push_lane_piece(&mut g, app, i, l, &pl, lo, hi, ncol, nchar);
        l = l + 1;
    }
    let ga_w = app.nlanes * 2 + 4;
    let gv = vis_len(g.as_str());
    if gv < ga_w {
        let mut k: usize = 0;
        let ghost g0 = g@;
        while k < ga_w - gv
            invariant
                k <= ga_w - gv,
                gv < ga_w,
                g@ == g0 + spaces(k as int),
            decreases ga_w - gv - k,
        {
            push_char(&mut g, ' ');
            assert(spaces(k + 1) =~= spaces(k as int).push(' '));
            k = k + 1;
        }
    }
    g
}

fn push_refs(s: &mut String, app: &AppState, h: &String)
    ensures
        final(s)@ == old(s)@ + refs_text(*app, h@, app.branches@.len() as int),
{
    let mut k: usize = 0;
    let ghost s0 = old(s)@;
    while k < app.branches.len()
        invariant
            k <= app.branches@.len(),
            s@ == s0 + refs_text(*app, h@, k as int),
        decreases app.branches@.len() - k,
    {
        let b = &app.branches[k];
        let ghost bv = branches_view(app.branches@)[k as int];
        assert(bv == (b.name@, b.color, b.head_oid@));
        if b.head_oid == *h {
            push_char(s, ' ');
            push_color(s, b.color);
            if b.name == app.current_branch {
                push_str(s, BLD);
            }
            push_str(s, b.name.as_str());
            push_str(s, RST);
        }
        assert(s@ =~= s0 + refs_text(*app, h@, k + 1));
        k = k + 1;
    }
}

fn subject_exec(subject: &String, w: usize) -> (r: String)
    requires
        w <= 70000,
    ensures
        r@ == subject_text(subject@, w as int),
{
    let sv = chars_of(subject.as_str());
    let take = if sv.len() > w { w } else { sv.len() };
    let mut subj = string_of(&sv, 0, take);
    assert(subj@ =~= (if sv@.len() > w { sv@.take(w as int) } else { sv@ }));
    if byte_len_exceeds(&sv, w) {
        push_char(&mut subj, '…');
    }
    subj
}

#[verifier::rlimit(40)]
fn box_tail_exec(app: &AppState, i: usize) -> (r: String)
    requires
        i < app.commits@.len(),
        app.nlanes * 2 + 49 <= usize::MAX,
        date10_ok(commits_view(app.commits@)[i as int].date),
    ensures
        r@ == box_tail(
            commits_view(app.commits@)[i as int],
            subject_width(app.term_w as int, app.nlanes as int),
        ),
{
    let c = &app.commits[i];
    let ghost cv = commits_view(app.commits@)[i as int];
    assert(c.subject@ == cv.subject && c.author@ == cv.author && c.date@ == cv.date);
    let mut s = String::new();
    push_char(&mut s, ' ');
    push_char(&mut s, ' ');
    push_str(&mut s, WHT);
    let tree_w = compute_tree_w(app.term_w);
    let ga_w = app.nlanes * 2 + 4;
    let fixed = (4 + ga_w + 1) + 8 + 14 + 12 + 6;
    let sw0 = if tree_w >= fixed { tree_w - fixed } else { 0 };
    let subj_w = if sw0 >= 10 { sw0 } else { 10 };
    assert(tree_w <= 70000);
    assert(subj_w == subject_width(app.term_w as int, app.nlanes as int));
    let subj = subject_exec(&c.subject, subj_w);
    push_str(&mut s, subj.as_str());
    push_str(&mut s, RST);
    push_char(&mut s, ' ');
    push_char(&mut s, ' ');
    push_str(&mut s, DIM);
    let av = chars_of(c.author.as_str());
    let atake = if av.len() > 12 { 12 } else { av.len() };
    let auth = string_of(&av, 0, atake);
    assert(auth@ =~= (if av@.len() > 12 { av@.take(12) } else { av@ }));
    push_str(&mut s, auth.as_str());
    push_str(&mut s, RST);
    push_char(&mut s, ' ');
    push_str(&mut s, GRY);
    push_char(&mut s, '·');
    push_char(&mut s, ' ');
    let dv = date_head_exec(&c.date);
    let ds = string_of(&dv, 0, dv.len());
    assert(ds@ =~= dv@);
    push_str(&mut s, ds.as_str());
    push_str(&mut s, RST);
    assert(s@ =~= box_tail(cv, subj_w as int));
    s
}

#[verifier::rlimit(40)]
fn box_exec(app: &AppState, i: usize, ncol: &String) -> (r: String)
    requires
        i < app.commits@.len(),
        app.nlanes * 2 + 49 <= usize::MAX,
        ncol@ == node_of(*app, i as int).0,
        hash_head_ok(commits_view(app.commits@)[i as int].hash),
        date10_ok(commits_view(app.commits@)[i as int].date),
    ensures
        r@ == box_text(*app, i as int),
{
    let c = &app.commits[i];
    let ghost cv = commits_view(app.commits@)[i as int];
    assert(c.hash@ == cv.hash && c.subject@ == cv.subject && c.author@ == cv.author && c.date@ == cv.date);
    let hv = chars_of(c.hash.as_str());
    let short = match byte_head(&hv, 7) {
        Some(x) => x,
        None => {
            assert(false);
            Vec::new()
        },
    };
    let mut s = String::new();
    push_str(&mut s, ncol.as_str());
    push_char(&mut s, '╰');
    push_char(&mut s, '─');
    push_str(&mut s, RST);
    push_char(&mut s, ' ');
    push_str(&mut s, BLD);
    push_str(&mut s, CYN);
    let short_s = string_of(&short, 0, short.len());
    assert(short_s@ =~= short@);
    push_str(&mut s, short_s.as_str());
    push_str(&mut s, RST);
    push_refs(&mut s, app, &c.hash);
    let tail = box_tail_exec(app, i);
    push_str(&mut s, tail.as_str());
    assert(s@ =~= box_text(*app, i as int));
    s
}

fn meta_exec(app: &AppState, i: usize) -> (r: String)
    requires
        i < app.commits@.len(),
        app.nlanes * 2 + 49 <= usize::MAX,
        meta_ok(commits_view(app.commits@)[i as int].date),
    ensures
        r@ == meta_line(*app, i as int),
{
    let c = &app.commits[i];
    let ghost cv = commits_view(app.commits@)[i as int];
    assert(c.hash@ == cv.hash && c.date@ == cv.date && c.parents@.len() == cv.parents.len());
    let ga_w = app.nlanes * 2 + 4;
    let indent = 4 + ga_w + 2;
    let mut s = String::new();
    let mut k: usize = 0;
    while k < indent
        invariant
            k <= indent,
            s@ == spaces(k as int),
        decreases indent - k,
    {
        push_char(&mut s, ' ');
        assert(spaces(k + 1) =~= spaces(k as int).push(' '));
        k = k + 1;
    }
    push_str(&mut s, GRY);
    push_str(&mut s, c.hash.as_str());
    push_str(&mut s, GRY);
    let dv = chars_of(c.date.as_str());
    let (a11, k11) = bytes_upto(&dv, 11);
    let (a19, k19) = bytes_upto(&dv, 19);
    proof {
        lemma_byte_len_mono(dv@, k11 as int, dv@.len() as int);
        lemma_byte_len_mono(dv@, k19 as int, dv@.len() as int);
        assert(dv@.take(dv@.len() as int) =~= dv@);
        lemma_byte_prefix_at(dv@, k11 as int);
        lemma_byte_prefix_at(dv@, k19 as int);
        if a11 > 11 {
            crate::text::lemma_byte_prefix_none(dv@, k11 as int, 11);
        }
        if a19 > 19 {
            crate::text::lemma_byte_prefix_none(dv@, k19 as int, 19);
        }
        if k19 < k11 {
            lemma_byte_len_mono(dv@, k19 as int, k11 as int);
        }
    }
    let part = string_of(&dv, k11, k19);
    assert(part@ =~= date_time_part(cv.date));
    push_str(&mut s, part.as_str());
    push_str(&mut s, RST);
    if c.parents.len() > 1 {
        push_char(&mut s, ' ');
        push_char(&mut s, ' ');
        push_str(&mut s, YEL);
        push_str(&mut s, "⟶ merge");
        push_str(&mut s, RST);
        proof { reveal_strlit("⟶ merge"); }
    } else if c.parents.len() == 0 {
        push_char(&mut s, ' ');
        push_char(&mut s, ' ');
        push_str(&mut s, GRN);
        push_str(&mut s, "⟶ root");
        push_str(&mut s, RST);
        proof { reveal_strlit("⟶ root"); }
    }
    assert(s@ =~= meta_line(*app, i as int));
    s
}

fn commit_line_exec(app: &AppState, i: usize) -> (r: String)
    requires
        i < app.commits@.len(),
        app.lanes@.len() == app.commits@.len(),
        app.nlanes * 2 + 49 <= usize::MAX,
        hash_head_ok(commits_view(app.commits@)[i as int].hash),
        date10_ok(commits_view(app.commits@)[i as int].date),
    ensures
        r@ == commit_line(*app, i as int),
{
    let (ncol, nchar) = node_exec(app, i);
    let graph = graph_exec(app, i, &ncol, nchar);
    let bx = box_exec(app, i, &ncol);
    let mut s = String::new();
    push_char(&mut s, ' ');
    push_char(&mut s, ' ');
    push_space_padded(&mut s, i as u64, 3);
    push_char(&mut s, ' ');
    push_str(&mut s, graph.as_str());
    push_char(&mut s, ' ');
    push_str(&mut s, bx.as_str());
    assert(s@ =~= commit_line(*app, i as int));
    s
}

/// The tree lines of the current window and filters.
pub fn render_lines_of(app: &AppState) -> (r: Vec<RenderLine>)
    requires
        render_ready(*app),
    ensures
        render_view(r@) == rendered(*app),
{
    let mut out: Vec<RenderLine> = Vec::new();
    if app.commits.len() == 0 {
        let mut s = String::new();
        push_char(&mut s, ' ');
        push_char(&mut s, ' ');
        push_str(&mut s, DIM);
        push_str(&mut s, "No commits to display");
        push_str(&mut s, RST);
        assert(s@ =~= empty_tree_line());
        let ghost line = s@;
        out.push(RenderLine { content: s, commit_idx: None });
        assert(render_view(out@)[0] == (line, None::<usize>));
        assert(render_view(out@) =~= seq![(empty_tree_line(), None::<usize>)]);
        return out;
    }
    let fl = chars_of(app.filter_text.as_str());
    let mut i: usize = 0;
    while i < app.commits.len()
        invariant
            i <= app.commits@.len(),
            render_ready(*app),
            fl@ == app.filter_text@,
            render_view(out@) == tree_lines(*app, i as int),
        decreases app.commits@.len() - i,
    {
        let ghost cv = commits_view(app.commits@);
        proof {
            if app.date_from@.len() > 0 || app.date_to@.len() > 0 {
                assert(date10_ok(cv[i as int].date));
            }
        }
        let ghost before = out@;
        if commit_listed_exec(app, i, &fl) {
            assert(commit_listed(*app, i as int));
            let line = commit_line_exec(app, i);
            out.push(RenderLine { content: line, commit_idx: Some(i) });
            if app.show_meta {
                let m = meta_exec(app, i);
                out.push(RenderLine { content: m, commit_idx: Some(i) });
            }
        }
        assert(render_view(out@) =~= tree_lines(*app, i + 1));
        i = i + 1;
    }
    out
}

/// Rebuilds the tree lines from the commits, lanes and filters.
pub fn build_render_buffer(app: &mut AppState)
    requires
        render_ready(*old(app)),
    ensures
        *final(app) == (AppState { render_lines: final(app).render_lines, ..*old(app) }),
        render_view(final(app).render_lines@) == rendered(*old(app)),
        lines_point_in(*final(app)),
{
    let lines = render_lines_of(app);
    app.render_lines = lines;
    proof {
        let n = app.commits@.len() as int;
        lemma_tree_lines_point_in(*old(app), n);
        assert forall|k: int|
            0 <= k < app.render_lines@.len() && (#[trigger] app.render_lines@[k]).commit_idx is Some
                implies app.render_lines@[k].commit_idx->0 < app.commits@.len() by {
            assert(render_view(app.render_lines@)[k] == rendered(*old(app))[k]);
            assert(render_view(app.render_lines@)[k].1 == app.render_lines@[k].commit_idx);
            if n > 0 {
                assert(rendered(*old(app)) == tree_lines(*old(app), n));
                assert(tree_lines(*old(app), n)[k].1 is Some);
            } else {
                assert(app.render_lines@.len() == render_view(app.render_lines@).len());
                assert(rendered(*old(app)) == seq![(empty_tree_line(), None::<usize>)]);
                assert(rendered(*old(app))[k].1 is None);
            }
        }
    }
}

} // verus!

//! The sidebar beside the tree and the issue list: branches and authors, or an
//! issue summary.
use vstd::prelude::*;
use crate::ansi::{BLD, CYN, DIM, LBL, LGR, LMA, LRE, RST, YEL};
use crate::render::{color_esc, branches_view};
use crate::state::{AppMode, AppState, BranchInfo, branch_color, branch_color_at};
use crate::styled::{TermColor, color_to_ansi_num};
use crate::text::{
    byte_len, byte_len_exceeds, chars_of, decimal, eq_str, is_digit, is_space, parse_u64,
    parsed_u64, push_char, push_str, skip_space, slice_chars, starts_with, starts_with_exec,
    string_of, trim_bounds, trimmed, u64_to_decimal, char_is_digit, char_is_space,
};
use crate::issues::{strings_view, lemma_strings_view_push};

verus! {

/// A run of `n` copies of `c`.
pub open spec fn repeat(c: char, n: int) -> Seq<char> {
    Seq::new(if n > 0 { n as nat } else { 0 }, |j: int| c)
}

/// `s` followed by empty lines up to `n` lines.
pub open spec fn pad_lines(s: Seq<Seq<char>>, n: int) -> Seq<Seq<char>> {
    if s.len() < n {
        s + Seq::new((n - s.len()) as nat, |j: int| Seq::<char>::empty())
    } else {
        s
    }
}

pub open spec fn first_chars(s: Seq<char>, n: int) -> Seq<char> {
    if s.len() > n { s.take(n) } else { s }
}

pub open spec fn separator_line() -> Seq<char> {
    seq![' '] + DIM@ + repeat('┄', 28) + RST@
}

// ── Branches and authors ────────────────────────────────────────────────────

pub open spec fn branches_header(nb: nat) -> Seq<char> {
    seq![' '] + BLD@ + LBL@ + "BRANCHES"@ + RST@ + seq![' '] + DIM@ + seq!['('] + decimal(nb) + seq![')'] + RST@
}

/// The sidebar line of branch `bi`: cursor marker, colour dot, current-branch
/// star, name (20 characters at most) and filter check mark.
pub open spec fn branch_line(app: AppState, bi: int) -> Seq<char> {
    let b = branches_view(app.branches@)[bi];
    let marker = if app.mode == AppMode::SidebarFocus && bi == app.branch_idx {
        BLD@ + LGR@ + seq!['▸'] + RST@
    } else {
        seq![' ']
    };
    let cur = if b.0 == app.current_branch@ { DIM@ + seq!['*'] + RST@ } else { seq![' '] };
    let filt = if b.0 == app.branch_filter@ { YEL@ + seq!['✓'] + RST@ } else { seq![] };
    seq![' '] + marker + color_esc(b.1) + seq!['◉'] + RST@ + seq![' '] + cur + first_chars(b.0, 20) + seq![' ']
        + RST@ + filt
}

pub open spec fn authors_header(na: nat) -> Seq<char> {
    seq![' '] + BLD@ + LMA@ + "AUTHORS"@ + RST@ + seq![' '] + DIM@ + seq!['('] + decimal(na) + seq![')'] + RST@
}

/// The largest commit count of the authors, or 1 when there are none.
pub open spec fn max_count(a: Seq<(String, usize)>) -> int
    decreases a.len(),
{
    if a.len() == 0 {
        1
    } else if a.len() == 1 {
        a[0].1 as int
    } else {
        let m = max_count(a.drop_last());
        if a.last().1 > m { a.last().1 as int } else { m }
    }
}

/// `s` padded with spaces on the right to `n` characters (`{:<n}`).
pub open spec fn pad_right(s: Seq<char>, n: int) -> Seq<char> {
    if s.len() < n { s + repeat(' ', n - s.len()) } else { s }
}

/// The sidebar line of author `ai`: name and a bar of eight cells, filled in
/// proportion to the author's share of the largest count.
pub open spec fn author_line(app: AppState, ai: int) -> Seq<char> {
    let (name, cnt) = app.authors@[ai];
    let mc = max_count(app.authors@);
    let bl = (cnt * 8) / (if mc >= 1 { mc } else { 1 });
    let col = color_esc(branch_color(ai));
    seq![' '] + col + pad_right(first_chars(name@, 12), 12) + RST@ + seq![' '] + col + repeat('▓', bl) + RST@
        + repeat('░', 8 - bl)
}

/// The branches-and-authors sidebar for `vis` rows: branches in the upper half
/// (at least three rows), a separator, then as many authors as fit.
pub open spec fn tree_sidebar(app: AppState, vis: int) -> Seq<Seq<char>> {
    let nb = app.branches@.len() as int;
    let na = app.authors@.len() as int;
    let br_vis = if vis / 2 >= 3 { vis / 2 } else { 3 };
    let au_vis = if vis >= br_vis { vis - br_vis } else { 0 };
    let br_end = if br_vis < nb { br_vis } else { nb };
    let au_end = if na < au_vis - 1 { na } else if au_vis >= 1 { au_vis - 1 } else { 0 };
    let part1 = seq![branches_header(nb as nat)] + Seq::new(br_end as nat, |k: int| branch_line(app, k));
    let part2 = pad_lines(part1, br_vis) + seq![separator_line(), authors_header(na as nat)] + Seq::new(
        au_end as nat,
        |k: int| author_line(app, k),
    );
    pad_lines(part2, vis)
}

// ── Issue summary ───────────────────────────────────────────────────────────

/// Skipping an escape up to and including the next `m` (how the issue summary
/// cleans titles).
pub open spec fn strip_m_from(in_esc: bool, s: Seq<char>) -> Seq<char>
    decreases s.len(),
{
    if s.len() == 0 {
        seq![]
    } else if in_esc {
        strip_m_from(s[0] != 'm', s.drop_first())
    } else if s[0] == '\x1b' {
        strip_m_from(true, s.drop_first())
    } else {
        seq![s[0]] + strip_m_from(false, s.drop_first())
    }
}

/// `s` with every leading copy of `p` removed (`trim_start_matches`).
pub open spec fn strip_all_prefix(s: Seq<char>, p: Seq<char>) -> Seq<char>
    decreases s.len(),
{
    if p.len() > 0 && starts_with(s, p) {
        strip_all_prefix(s.skip(p.len() as int), p)
    } else {
        s
    }
}

/// The number of leading ASCII digits of `s` from `k` on.
pub open spec fn digit_run(s: Seq<char>, k: int) -> int
    decreases s.len() - k,
{
    if 0 <= k < s.len() && is_digit(s[k]) {
        digit_run(s, k + 1)
    } else {
        k
    }
}

/// What the summary reads off an issue line `  #N  OPEN title` (or `CLOSED`):
/// the number, the title without escapes and surrounding whitespace, and
/// whether the state is open and whether it is closed.
pub open spec fn issue_summary(line: Seq<char>) -> Option<(u64, Seq<char>, bool, bool)> {
    if starts_with(line, "  ↳"@) || !starts_with(line, "  #"@) {
        None
    } else {
        let rest = line.skip(3);
        let nd = digit_run(rest, 0);
        match parsed_u64(rest.take(nd)) {
            None => None,
            Some(num) => {
                let after = rest.skip(nd);
                let t = after.skip(skip_space(after, 0));
                let is_open = starts_with(t, "OPEN"@);
                let is_closed = starts_with(t, "CLOSED"@);
                let title_start = if is_open {
                    strip_all_prefix(t, "OPEN"@)
                } else if is_closed {
                    strip_all_prefix(t, "CLOSED"@)
                } else {
                    t
                };
                Some((num, trimmed(strip_m_from(false, title_start)), is_open, is_closed))
            },
        }
    }
}

/// The summaries of the lines `lines[..k]`, in order.
pub open spec fn summaries(lines: Seq<Seq<char>>, k: int) -> Seq<(u64, Seq<char>, bool, bool)>
    decreases k,
{
    if k <= 0 {
        seq![]
    } else {
        let rest = summaries(lines, k - 1);
        match issue_summary(lines[k - 1]) {
            Some(x) => rest.push(x),
            None => rest,
        }
    }
}

pub open spec fn count_where(s: Seq<(u64, Seq<char>, bool, bool)>, open: bool) -> nat
    decreases s.len(),
{
    if s.len() == 0 {
        0
    } else {
        count_where(s.drop_last(), open) + (if (if open { s.last().2 } else { s.last().3 }) {
            1nat
        } else {
            0nat
        })
    }
}

/// The issue lines after the two header lines.
pub open spec fn issue_data_lines(app: AppState) -> Seq<Seq<char>> {
    let full = strings_view(app.issues_lines_full@);
    if full.len() > 2 { full.skip(2) } else { seq![] }
}

pub open spec fn state_label(state: Seq<char>) -> Seq<char> {
    if state == "closed"@ { "CLOSED"@ } else if state == "all"@ { "ALL"@ } else { "OPEN"@ }
}

pub open spec fn state_color(state: Seq<char>) -> Seq<char> {
    if state == "closed"@ { LRE@ } else if state == "all"@ { CYN@ } else { LGR@ }
}

pub open spec fn dot(open: bool) -> Seq<char> {
    (if open { LGR@ } else { LRE@ }) + BLD@ + seq!['●'] + RST@
}

/// The summary line of one issue: state dot, number, and the title cut to 18
/// characters (with `…` when it is longer than 18 bytes).
pub open spec fn recent_line(x: (u64, Seq<char>, bool, bool)) -> Seq<char> {
    let (num, title, is_open, _c) = x;
    let head = seq![' '] + dot(is_open) + seq![' ', '#'] + decimal(num as nat) + seq![' '] + RST@ + seq![' ']
        + first_chars(title, 18);
    if byte_len(title) > 18 { head + seq!['…'] + RST@ } else { head }
}

pub open spec fn issues_header(total: nat, state: Seq<char>) -> Seq<char> {
    seq![' '] + BLD@ + LBL@ + "ISSUES"@ + RST@ + seq![' '] + DIM@ + seq!['('] + decimal(total) + seq![')'] + RST@
        + seq![' ', ' '] + state_color(state) + state_label(state) + RST@
}

pub open spec fn counts_line(open: nat, closed: nat) -> Seq<char> {
    seq![' ', ' '] + dot(true) + seq![' '] + decimal(open) + "open   "@ + dot(false) + seq![' '] + decimal(closed)
        + "closed"@ + RST@
}

pub open spec fn recent_header() -> Seq<char> {
    seq![' '] + BLD@ + LMA@ + "RECENT"@ + RST@
}

/// The issue sidebar for `vis` rows: totals by state, then the most recent
/// issues that fit.
pub open spec fn issues_sidebar(app: AppState, vis: int) -> Seq<Seq<char>> {
    let data = issue_data_lines(app);
    let sm = summaries(data, data.len() as int);
    let open = count_where(sm, true);
    let closed = count_where(sm, false);
    let head = seq![
        issues_header(open + closed, app.issues_state@),
        counts_line(open, closed),
        separator_line(),
        recent_header(),
    ];
    let remaining = if vis >= 6 { vis - 6 } else { 0 };
    let show = if remaining < sm.len() { remaining } else { sm.len() as int };
    pad_lines(head + Seq::new(show as nat, |k: int| recent_line(sm[k])), vis)
}

/// The sidebar for `vis` rows: the issue summary in the issue list, else
/// branches and authors.
pub open spec fn sidebar(app: AppState, vis: int) -> Seq<Seq<char>> {
    if app.mode == AppMode::Issues || app.mode == AppMode::IssuesFilter {
        issues_sidebar(app, vis)
    } else {
        tree_sidebar(app, vis)
    }
}

// ── Building the sidebar ────────────────────────────────────────────────────

fn push_repeat(s: &mut String, c: char, n: usize)
    ensures
        final(s)@ == old(s)@ + repeat(c, n as int),
{
    let mut k: usize = 0;
    let ghost s0 = old(s)@;
    while k < n
        invariant
            k <= n,
            s@ == s0 + repeat(c, k as int),
        decreases n - k,
    {
        push_char(s, c);
        assert(repeat(c, k + 1) =~= repeat(c, k as int).push(c));
        k = k + 1;
    }
}

fn push_decimal(s: &mut String, n: usize)
    ensures
        final(s)@ == old(s)@ + decimal(n as nat),
{
    let d = u64_to_decimal(n as u64);
    push_str(s, d.as_str());
}

fn push_first_chars(s: &mut String, t: &String, n: usize)
    ensures
        final(s)@ == old(s)@ + first_chars(t@, n as int),
{
    let v = chars_of(t.as_str());
    let k = if v.len() > n { n } else { v.len() };
    let part = string_of(&v, 0, k);
    assert(part@ =~= first_chars(t@, n as int));
    push_str(s, part.as_str());
}

fn push_color_code(s: &mut String, c: TermColor)
    ensures
        final(s)@ == old(s)@ + color_esc(c),
{
    push_char(s, '\x1b');
    push_char(s, '[');
    let n = color_to_ansi_num(c);
    let d = u64_to_decimal(n as u64);
    push_str(s, d.as_str());
    push_char(s, 'm');
    assert(s@ =~= old(s)@ + color_esc(c));
}

fn separator() -> (r: String)
    ensures
        r@ == separator_line(),
{
    let mut s = String::new();
    push_char(&mut s, ' ');
    push_str(&mut s, DIM);
    push_repeat(&mut s, '┄', 28);
    push_str(&mut s, RST);
    assert(s@ =~= separator_line());
    s
}

fn pad_vec(v: &mut Vec<String>, n: usize)
    ensures
        strings_view(final(v)@) == pad_lines(strings_view(old(v)@), n as int),
{
    let ghost v0 = strings_view(old(v)@);
    while v.len() < n
        invariant
            v0.len() <= v@.len(),
            v@.len() <= (if v0.len() < n { n as int } else { v0.len() as int }),
            strings_view(v@).take(v0.len() as int) == v0,
            forall|j: int| v0.len() <= j < v@.len() ==> v@[j]@ == Seq::<char>::empty(),
        decreases n - v@.len(),
    {
        let ghost before = v@;
        v.push(String::new());
        proof {
            lemma_strings_view_push(before, v@.last());
        }
        assert(strings_view(v@).take(v0.len() as int) =~= strings_view(before).take(v0.len() as int));
    }
    assert(strings_view(v@).len() == pad_lines(v0, n as int).len());
    assert forall|j: int| 0 <= j < strings_view(v@).len() implies #[trigger] strings_view(v@)[j]
        == pad_lines(v0, n as int)[j] by {
        if j < v0.len() {
            assert(strings_view(v@).take(v0.len() as int)[j] == v0[j]);
        } else {
            assert(v@[j]@ == Seq::<char>::empty());
        }
    }
    assert(strings_view(v@) =~= pad_lines(v0, n as int));
}

#[verifier::rlimit(60)]
fn branch_line_exec(app: &AppState, bi: usize) -> (r: String)
    requires
        bi < app.branches@.len(),
    ensures
        r@ == branch_line(*app, bi as int),
{
    let b = &app.branches[bi];
    assert(branches_view(app.branches@)[bi as int] == (b.name@, b.color, b.head_oid@));
    let focus = match app.mode {
        AppMode::SidebarFocus => true,
        _ => false,
    };
    let mut s = String::new();
    push_char(&mut s, ' ');
    if focus && bi == app.branch_idx {
        push_str(&mut s, BLD);
        push_str(&mut s, LGR);
        push_char(&mut s, '▸');
        push_str(&mut s, RST);
    } else {
        push_char(&mut s, ' ');
    }
    push_color_code(&mut s, b.color);
    push_char(&mut s, '◉');
    push_str(&mut s, RST);
    push_char(&mut s, ' ');
    if b.name == app.current_branch {
        push_str(&mut s, DIM);
        push_char(&mut s, '*');
        push_str(&mut s, RST);
    } else {
        push_char(&mut s, ' ');
    }
    push_first_chars(&mut s, &b.name, 20);
    push_char(&mut s, ' ');
    push_str(&mut s, RST);
    if b.name == app.branch_filter {
        push_str(&mut s, YEL);
        push_char(&mut s, '✓');
        push_str(&mut s, RST);
    }
    assert(s@ =~= branch_line(*app, bi as int));
    s
}

fn max_count_exec(a: &Vec<(String, usize)>) -> (r: usize)
    ensures
        r == max_count(a@),
{
    if a.len() == 0 {
        return 1;
    }
    let mut m = a[0].1;
    let mut k: usize = 1;
    assert(a@.take(1).len() == 1);
    while k < a.len()
        invariant
            1 <= k <= a@.len(),
            m == max_count(a@.take(k as int)),
        decreases a@.len() - k,
    {
        assert(a@.take(k + 1).drop_last() =~= a@.take(k as int));
        if a[k].1 > m {
            m = a[k].1;
        }
        k = k + 1;
    }
    assert(a@.take(a@.len() as int) =~= a@);
    m
}

proof fn lemma_max_count(a: Seq<(String, usize)>, i: int)
    requires
        0 <= i < a.len(),
    ensures
        a[i].1 <= max_count(a),
    decreases a.len(),
{
    if a.len() > 1 && i < a.len() - 1 {
        lemma_max_count(a.drop_last(), i);
    }
}

fn author_line_exec(app: &AppState, ai: usize, mc: usize) -> (r: String)
    requires
        ai < app.authors@.len(),
        mc == max_count(app.authors@),
        app.authors@[ai as int].1 * 8 <= usize::MAX,
    ensures
        r@ == author_line(*app, ai as int),
{
    let name = &app.authors[ai].0;
    let cnt = app.authors[ai].1;
    let d = if mc >= 1 { mc } else { 1 };
    let bl = (cnt * 8) / d;
    let col = branch_color_at(ai);
    let mut s = String::new();
    push_char(&mut s, ' ');
    push_color_code(&mut s, col);
    let v = chars_of(name.as_str());
    let k = if v.len() > 12 { 12 } else { v.len() };
    let nm = string_of(&v, 0, k);
    push_str(&mut s, nm.as_str());
    if k < 12 {
        push_repeat(&mut s, ' ', 12 - k);
    }
    assert(nm@ =~= first_chars(name@, 12));
    push_str(&mut s, RST);
    push_char(&mut s, ' ');
    push_color_code(&mut s, col);
    push_repeat(&mut s, '▓', bl);
    push_str(&mut s, RST);
    if bl < 8 {
        push_repeat(&mut s, '░', 8 - bl);
    }
    assert(s@ =~= author_line(*app, ai as int));
    s
}

fn tree_sidebar_exec(app: &AppState, vis: usize) -> (r: Vec<String>)
    requires
        forall|i: int| 0 <= i < app.authors@.len() ==> app.authors@[i].1 * 8 <= usize::MAX,
    ensures
        strings_view(r@) == tree_sidebar(*app, vis as int),
{
    let nb = app.branches.len();
    let na = app.authors.len();
    let half = vis / 2;
    let br_vis = if half >= 3 { half } else { 3 };
    let au_vis = if vis >= br_vis { vis - br_vis } else { 0 };
    let mut lines: Vec<String> = Vec::new();
    let mut h = String::new();
    push_char(&mut h, ' ');
    push_str(&mut h, BLD);
    push_str(&mut h, LBL);
    push_str(&mut h, "BRANCHES");
    push_str(&mut h, RST);
    push_char(&mut h, ' ');
    push_str(&mut h, DIM);
    push_char(&mut h, '(');
    push_decimal(&mut h, nb);
    push_char(&mut h, ')');
    push_str(&mut h, RST);
    assert(h@ =~= branches_header(nb as nat));
    lines.push(h);
    let br_end = if br_vis < nb { br_vis } else { nb };
    let mut bi: usize = 0;
    while bi < br_end
        invariant
            bi <= br_end <= nb,
            nb == app.branches@.len(),
            strings_view(lines@) == seq![branches_header(nb as nat)] + Seq::new(
                bi as nat,
                |k: int| branch_line(*app, k),
            ),
        decreases br_end - bi,
    {
        let ghost before = lines@;
        lines.push(branch_line_exec(app, bi));
        proof {
            lemma_strings_view_push(before, lines@.last());
        }
        assert(strings_view(lines@) =~= seq![branches_header(nb as nat)] + Seq::new(
            (bi + 1) as nat,
            |k: int| branch_line(*app, k),
        ));
        bi = bi + 1;
    }
    pad_vec(&mut lines, br_vis);
    lines.push(separator());
    let mut ah = String::new();
    push_char(&mut ah, ' ');
    push_str(&mut ah, BLD);
    push_str(&mut ah, LMA);
    push_str(&mut ah, "AUTHORS");
    push_str(&mut ah, RST);
    push_char(&mut ah, ' ');
    push_str(&mut ah, DIM);
    push_char(&mut ah, '(');
    push_decimal(&mut ah, na);
    push_char(&mut ah, ')');
    push_str(&mut ah, RST);
    assert(ah@ =~= authors_header(na as nat));
    lines.push(ah);
    let ghost base = strings_view(lines@);
    let mc = max_count_exec(&app.authors);
    let au_lim = if au_vis >= 1 { au_vis - 1 } else { 0 };
    let au_end = if na < au_lim { na } else { au_lim };
    let mut ai: usize = 0;
    while ai < au_end
        invariant
            ai <= au_end <= na,
            na == app.authors@.len(),
            mc == max_count(app.authors@),
            forall|i: int| 0 <= i < app.authors@.len() ==> app.authors@[i].1 * 8 <= usize::MAX,
            strings_view(lines@) == base + Seq::new(ai as nat, |k: int| author_line(*app, k)),
        decreases au_end - ai,
    {
        let ghost before = lines@;
        lines.push(author_line_exec(app, ai, mc));
        proof {
            lemma_strings_view_push(before, lines@.last());
        }
        assert(strings_view(lines@) =~= base + Seq::new((ai + 1) as nat, |k: int| author_line(*app, k)));
        ai = ai + 1;
    }
    assert(base =~= pad_lines(
        seq![branches_header(nb as nat)] + Seq::new(br_end as nat, |k: int| branch_line(*app, k)),
        br_vis as int,
    ) + seq![separator_line(), authors_header(na as nat)]);
    pad_vec(&mut lines, vis);
    lines
}

fn strip_m(s: &Vec<char>) -> (r: Vec<char>)
    ensures
        r@ == strip_m_from(false, s@),
{
    let mut out: Vec<char> = Vec::new();
    let mut in_esc = false;
    let mut k: usize = 0;
    assert(s@.skip(0) =~= s@);
    while k < s.len()
        invariant
            k <= s@.len(),
            out@ + strip_m_from(in_esc, s@.skip(k as int)) == strip_m_from(false, s@),
        decreases s@.len() - k,
    {
        let c = s[k];
        assert(s@.skip(k as int).drop_first() =~= s@.skip(k + 1));
        assert(s@.skip(k as int)[0] == c);
        let ghost before = out@;
        if in_esc {
            in_esc = c != 'm';
        } else if c == '\x1b' {
            in_esc = true;
        } else {
            out.push(c);
            assert(out@ + strip_m_from(in_esc, s@.skip(k + 1)) =~= before + (seq![c] + strip_m_from(
                false,
                s@.skip(k + 1),
            )));
        }
        k = k + 1;
    }
    assert(s@.skip(s@.len() as int) =~= Seq::<char>::empty());
    assert(out@ =~= out@ + Seq::<char>::empty());
    out
}

fn strip_all_prefix_exec(s: &Vec<char>, p: &Vec<char>) -> (r: Vec<char>)
    ensures
        r@ == strip_all_prefix(s@, p@),
{
    let mut k: usize = 0;
    let n = s.len();
    assert(s@.skip(0) =~= s@);
    while p.len() > 0 && k <= n && p.len() <= n - k && crate::text::matches_at_exec(s, p, k)
        invariant
            k <= n,
            n == s@.len(),
            strip_all_prefix(s@.skip(k as int), p@) == strip_all_prefix(s@, p@),
        decreases n - k,
    {
        assert(s@.skip(k as int).take(p@.len() as int) =~= s@.subrange(k as int, k + p@.len()));
        assert(s@.skip(k as int).skip(p@.len() as int) =~= s@.skip(k + p@.len()));
        k = k + p.len();
    }
    proof {
        if p@.len() > 0 && k + p@.len() <= n {
            assert(s@.skip(k as int).take(p@.len() as int) =~= s@.subrange(k as int, k + p@.len()));
        }
    }
    slice_chars(s, k, n)
}

fn issue_summary_exec(line: &String) -> (r: Option<(u64, String, bool, bool)>)
    ensures
        r matches Some(x) ==> issue_summary(line@) == Some((x.0, x.1@, x.2, x.3)) && !(x.2 && x.3),
        r is None ==> issue_summary(line@) is None,
{
    let v = chars_of(line.as_str());
    let n = v.len();
    let arrow = chars_of("  ↳");
    let hash = chars_of("  #");
    proof {
        reveal_strlit("  #");
    }
    if starts_with_exec(&v, &arrow) || !starts_with_exec(&v, &hash) {
        return None;
    }
    let rest = slice_chars(&v, 3, n);
    assert(rest@ =~= v@.skip(3));
    let mut nd: usize = 0;
    while nd < rest.len() && char_is_digit(rest[nd])
        invariant
            nd <= rest@.len(),
            digit_run(rest@, nd as int) == digit_run(rest@, 0),
        decreases rest@.len() - nd,
    {
        nd = nd + 1;
    }
    let digits = slice_chars(&rest, 0, nd);
    assert(digits@ =~= rest@.take(nd as int));
    match parse_u64(&digits) {
        None => None,
        Some(num) => {
            let after = slice_chars(&rest, nd, rest.len());
            assert(after@ =~= rest@.skip(nd as int));
            let mut st: usize = 0;
            while st < after.len() && char_is_space(after[st])
                invariant
                    st <= after@.len(),
                    skip_space(after@, st as int) == skip_space(after@, 0),
                decreases after@.len() - st,
            {
                st = st + 1;
            }
            let t = slice_chars(&after, st, after.len());
            assert(t@ =~= after@.skip(skip_space(after@, 0)));
            let open_w = chars_of("OPEN");
            let closed_w = chars_of("CLOSED");
            let is_open = starts_with_exec(&t, &open_w);
            let is_closed = starts_with_exec(&t, &closed_w);
            proof {
                reveal_strlit("OPEN");
                reveal_strlit("CLOSED");
                if is_open && is_closed {
                    assert(t@.take(4)[0] == 'O');
                    assert(t@.take(6)[0] == 'C');
                }
            }
            let title_start = if is_open {
                strip_all_prefix_exec(&t, &open_w)
            } else if is_closed {
                strip_all_prefix_exec(&t, &closed_w)
            } else {
                t
            };
            let clean = strip_m(&title_start);
            let (lo, hi) = trim_bounds(&clean);
            let title = string_of(&clean, lo, hi);
            Some((num, title, is_open, is_closed))
        },
    }
}

pub open spec fn summaries_view(v: Seq<(u64, String, bool, bool)>) -> Seq<(u64, Seq<char>, bool, bool)> {
    v.map_values(|x: (u64, String, bool, bool)| (x.0, x.1@, x.2, x.3))
}

proof fn lemma_count_where_le(s: Seq<(u64, Seq<char>, bool, bool)>, open: bool)
    ensures
        count_where(s, open) <= s.len(),
    decreases s.len(),
{
    if s.len() > 0 {
        lemma_count_where_le(s.drop_last(), open);
    }
}

fn recent_line_exec(x: &(u64, String, bool, bool)) -> (r: String)
    ensures
        r@ == recent_line((x.0, x.1@, x.2, x.3)),
{
    let mut s = String::new();
    push_char(&mut s, ' ');
    if x.2 {
        push_str(&mut s, LGR);
    } else {
        push_str(&mut s, LRE);
    }
    push_str(&mut s, BLD);
    push_char(&mut s, '●');
    push_str(&mut s, RST);
    push_char(&mut s, ' ');
    push_char(&mut s, '#');
    let d = u64_to_decimal(x.0);
    push_str(&mut s, d.as_str());
    push_char(&mut s, ' ');
    push_str(&mut s, RST);
    push_char(&mut s, ' ');
    push_first_chars(&mut s, &x.1, 18);
    let tv = chars_of(x.1.as_str());
    if byte_len_exceeds(&tv, 18) {
        push_char(&mut s, '…');
        push_str(&mut s, RST);
    }
    assert(s@ =~= recent_line((x.0, x.1@, x.2, x.3)));
    s
}

fn summaries_exec(app: &AppState) -> (r: (Vec<(u64, String, bool, bool)>, usize, usize))
    ensures
        ({
            let data = issue_data_lines(*app);
            let sm = summaries(data, data.len() as int);
            &&& summaries_view(r.0@) == sm
            &&& r.1 == count_where(sm, true)
            &&& r.2 == count_where(sm, false)
            &&& r.1 + r.2 <= r.0@.len()
        }),
{
    let full = &app.issues_lines_full;
    let ghost data = issue_data_lines(*app);
    let mut sm: Vec<(u64, String, bool, bool)> = Vec::new();
    let mut open: usize = 0;
    let mut closed: usize = 0;
    let mut k: usize = 2;
    if full.len() <= 2 {
        k = full.len();
    }
    let ghost k0 = k;
    assert(data =~= strings_view(full@).skip(k0 as int));
    while k < full.len()
        invariant
            k0 <= k <= full@.len(),
            data == strings_view(full@).skip(k0 as int),
            data.len() == full@.len() - k0,
            summaries_view(sm@) == summaries(data, k - k0),
            open == count_where(summaries(data, k - k0), true),
            closed == count_where(summaries(data, k - k0), false),
            open + closed <= sm@.len(),
            sm@.len() <= k,
        decreases full@.len() - k,
    {
        let ghost before = sm@;
        let ghost sb = summaries(data, k - k0);
        assert(data[k - k0] == full@[k as int]@);
        match issue_summary_exec(&full[k]) {
            Some(x) => {
                let ghost xv = (x.0, x.1@, x.2, x.3);
                assert(summaries(data, k + 1 - k0) == sb.push(xv));
                assert(sb.push(xv).drop_last() =~= sb);
                if x.2 {
                    open = open + 1;
                }
                if x.3 {
                    closed = closed + 1;
                }
                sm.push(x);
                assert(summaries_view(sm@) =~= summaries_view(before).push(xv));
            },
            None => {
                assert(summaries(data, k + 1 - k0) == sb);
            },
        }
        k = k + 1;
    }
    (sm, open, closed)
}

fn issues_header_exec(total: usize, state: &String) -> (r: String)
    ensures
        r@ == issues_header(total as nat, state@),
{
    let closed_s = eq_str(state.as_str(), "closed");
    let all_s = eq_str(state.as_str(), "all");
    let mut h = String::new();
    push_char(&mut h, ' ');
    push_str(&mut h, BLD);
    push_str(&mut h, LBL);
    push_str(&mut h, "ISSUES");
    push_str(&mut h, RST);
    push_char(&mut h, ' ');
    push_str(&mut h, DIM);
    push_char(&mut h, '(');
    push_decimal(&mut h, total);
    push_char(&mut h, ')');
    push_str(&mut h, RST);
    push_char(&mut h, ' ');
    push_char(&mut h, ' ');
    if closed_s {
        push_str(&mut h, LRE);
        push_str(&mut h, "CLOSED");
    } else if all_s {
        push_str(&mut h, CYN);
        push_str(&mut h, "ALL");
    } else {
        push_str(&mut h, LGR);
        push_str(&mut h, "OPEN");
    }
    push_str(&mut h, RST);
    assert(h@ =~= issues_header(total as nat, state@));
    h
}

fn counts_line_exec(open: usize, closed: usize) -> (r: String)
    ensures
        r@ == counts_line(open as nat, closed as nat),
{
    let mut c = String::new();
    push_char(&mut c, ' ');
    push_char(&mut c, ' ');
    push_str(&mut c, LGR);
    push_str(&mut c, BLD);
    push_char(&mut c, '●');
    push_str(&mut c, RST);
    push_char(&mut c, ' ');
    push_decimal(&mut c, open);
    push_str(&mut c, "open   ");
    push_str(&mut c, LRE);
    push_str(&mut c, BLD);
    push_char(&mut c, '●');
    push_str(&mut c, RST);
    push_char(&mut c, ' ');
    push_decimal(&mut c, closed);
    push_str(&mut c, "closed");
    push_str(&mut c, RST);
    assert(c@ =~= counts_line(open as nat, closed as nat));
    c
}

fn recent_header_exec() -> (r: String)
    ensures
        r@ == recent_header(),
{
    let mut rc = String::new();
    push_char(&mut rc, ' ');
    push_str(&mut rc, BLD);
    push_str(&mut rc, LMA);
    push_str(&mut rc, "RECENT");
    push_str(&mut rc, RST);
    assert(rc@ =~= recent_header());
    rc
}

fn issues_sidebar_exec(app: &AppState, vis: usize) -> (r: Vec<String>)
    ensures
        strings_view(r@) == issues_sidebar(*app, vis as int),
{
    let ghost data = issue_data_lines(*app);
    let ghost sms = summaries(data, data.len() as int);
    let (sm, open, closed) = summaries_exec(app);
    let n_sm = sm.len();
    let mut lines: Vec<String> = Vec::new();
    let l1 = issues_header_exec(open + closed, &app.issues_state);
    let l2 = counts_line_exec(open, closed);
    let l3 = separator();
    let l4 = recent_header_exec();
    let ghost head = seq![l1@, l2@, l3@, l4@];
    lines.push(l1);
    lines.push(l2);
    lines.push(l3);
    lines.push(l4);
    assert(strings_view(lines@) =~= head);
    let remaining = if vis >= 6 { vis - 6 } else { 0 };
    let show = if remaining < n_sm { remaining } else { n_sm };
    let mut i: usize = 0;
    while i < show
        invariant
            i <= show <= sm@.len(),
            summaries_view(sm@) == sms,
            strings_view(lines@) == head + Seq::new(i as nat, |k: int| recent_line(sms[k])),
        decreases show - i,
    {
        let ghost before = lines@;
        lines.push(recent_line_exec(&sm[i]));
        proof {
            lemma_strings_view_push(before, lines@.last());
        }
        assert(summaries_view(sm@)[i as int] == (sm@[i as int].0, sm@[i as int].1@, sm@[i as int].2, sm@[i as int].3));
        assert(strings_view(lines@) =~= head + Seq::new((i + 1) as nat, |k: int| recent_line(sms[k])));
        i = i + 1;
    }
    pad_vec(&mut lines, vis);
    lines
}

/// The sidebar lines for `vis` rows.
pub fn build_sidebar(app: &AppState, vis: usize) -> (r: Vec<String>)
    requires
        forall|i: int| 0 <= i < app.authors@.len() ==> app.authors@[i].1 * 8 <= usize::MAX,
    ensures
        strings_view(r@) == sidebar(*app, vis as int),
{
    let issues_mode = match app.mode {
        AppMode::Issues => true,
        AppMode::IssuesFilter => true,
        _ => false,
    };
    if issues_mode {
        issues_sidebar_exec(app, vis)
    } else {
        tree_sidebar_exec(app, vis)
    }
}

} // verus!

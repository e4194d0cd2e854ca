//! The author report: the files each author added or changed, read from
//! `git log --format=%ae|%as|%s --name-only` output, and the e-mail suggestions
//! of its filter.
use vstd::prelude::*;
use crate::ansi::{BLD, CYN, DIM, LGR, LYL, RST};
use crate::issues::{strings_view, lemma_strings_view_push};
use crate::render::spaces;
use crate::state::{AppMode, AppState};
use crate::text::{
    byte_len, byte_len_exceeds, chars_byte_len, chars_of, contains, find_char, find_char_from, find_exec, lemma_find_char_bounds,
    lex_less, lex_less_exec, repeated, lowercase, push_char, push_str, split_lines, string_of, text_lines,
    to_lowercase, trim_bounds, trimmed, eq_str, byte_len_checked, byte_prefix, decimal, find, prefix_at,
    slice_chars, u64_to_decimal, lemma_find_from, lemma_byte_len_mono, lemma_lex_total, lemma_lex_transitive,
    lemma_lex_irreflexive,
};

verus! {

/// One file of the report: who added or changed it, its path and the day.
pub struct ReportEntry {
    pub email: String,
    pub file: String,
    pub date: String,
}

pub open spec fn entry_view(e: ReportEntry) -> (Seq<char>, Seq<char>, Seq<char>) {
    (e.email@, e.file@, e.date@)
}

pub open spec fn entries_view(v: Seq<ReportEntry>) -> Seq<(Seq<char>, Seq<char>, Seq<char>)> {
    v.map_values(|e: ReportEntry| entry_view(e))
}

fn clone_entry(e: &ReportEntry) -> (r: ReportEntry)
    ensures
        entry_view(r) == entry_view(*e),
{
    ReportEntry { email: e.email.clone(), file: e.file.clone(), date: e.date.clone() }
}

// ── Reading the log ─────────────────────────────────────────────────────────

/// The reading state: the e-mail and day of the commit being read, and the
/// entries so far.
pub type ReadState = (Seq<char>, Seq<char>, Seq<(Seq<char>, Seq<char>, Seq<char>)>);

/// One log line: a commit line `email|day|subject` starts a commit; any other
/// non-empty line after a commit names a file (trimmed).
pub open spec fn read_step(st: ReadState, line: Seq<char>) -> ReadState {
    if line.len() == 0 {
        st
    } else {
        match find_char_from(line, '|', 0) {
            Some(b) => {
                let rest = line.skip(b + 1);
                match find_char_from(rest, '|', 0) {
                    Some(b2) => (line.take(b), rest.take(b2), st.2),
                    None => st,
                }
            },
            None => if st.0.len() > 0 && trimmed(line).len() > 0 {
                (st.0, st.1, st.2.push((st.0, trimmed(line), st.1)))
            } else {
                st
            },
        }
    }
}

pub open spec fn read_lines(lines: Seq<Seq<char>>) -> ReadState
    decreases lines.len(),
{
    if lines.len() == 0 {
        (seq![], seq![], seq![])
    } else {
        read_step(read_lines(lines.drop_last()), lines.last())
    }
}

/// The entries of a log, in the order of the log.
pub open spec fn log_entries(raw: Seq<char>) -> Seq<(Seq<char>, Seq<char>, Seq<char>)> {
    read_lines(text_lines(raw)).2
}

/// Reads the entries of a log.
pub fn parse_report(raw: &str) -> (r: Vec<ReportEntry>)
    ensures
        entries_view(r@) == log_entries(raw@),
{
    let lines = split_lines(raw);
    let ghost lv = lines@.map_values(|x: String| x@);
    let mut cur_email = String::new();
    let mut cur_date = String::new();
    let mut out: Vec<ReportEntry> = Vec::new();
    let mut i: usize = 0;
    while i < lines.len()
        invariant
            i <= lines@.len(),
            lv == lines@.map_values(|x: String| x@),
            lv == text_lines(raw@),
            read_lines(lv.take(i as int)) == (cur_email@, cur_date@, entries_view(out@)),
        decreases lines@.len() - i,
    {
        let ghost st = (cur_email@, cur_date@, entries_view(out@));
        let line = &lines[i];
        assert(line@ == lv[i as int]);
        let v = chars_of(line.as_str());
        let n = v.len();
        if n > 0 {
            match find_char(&v, '|', 0) {
                Some(b) => {
                    let rest = crate::text::slice_chars(&v, b + 1, n);
                    assert(rest@ =~= v@.skip(b + 1));
                    match find_char(&rest, '|', 0) {
                        Some(b2) => {
                            cur_email = string_of(&v, 0, b);
                            cur_date = string_of(&rest, 0, b2);
                            assert(cur_email@ =~= v@.take(b as int));
                            assert(cur_date@ =~= rest@.take(b2 as int));
                        },
                        None => {},
                    }
                },
                None => {
                    if cur_email.as_str().unicode_len() > 0 {
                        let (lo, hi) = trim_bounds(&v);
                        if hi > lo {
                            let f = string_of(&v, lo, hi);
                            let ghost before = out@;
                            out.push(ReportEntry { email: cur_email.clone(), file: f, date: cur_date.clone() });
                            assert(entries_view(out@) =~= entries_view(before).push((st.0, trimmed(v@), st.1)));
                        }
                    }
                },
            }
        }
        proof {
            assert(lv.take(i + 1).drop_last() =~= lv.take(i as int));
            assert(lv.take(i + 1).last() == lv[i as int]);
        }
        i = i + 1;
    }
    assert(lv.take(lines@.len() as int) =~= lv);
    out
}

// ── E-mail filter ───────────────────────────────────────────────────────────

/// The entries whose e-mail, in lower case, contains `filter`.
pub open spec fn with_email(es: Seq<(Seq<char>, Seq<char>, Seq<char>)>, filter: Seq<char>) -> Seq<(Seq<char>, Seq<char>, Seq<char>)>
    decreases es.len(),
{
    if es.len() == 0 {
        seq![]
    } else {
        let rest = with_email(es.drop_last(), filter);
        if contains(lowercase(es.last().0), filter) { rest.push(es.last()) } else { rest }
    }
}

/// Whether `f` stands somewhere in the e-mail `email`, in lower case.
pub open spec fn email_has(email: Seq<char>, f: Seq<char>) -> bool {
    exists|k: int| 0 <= k && k + f.len() <= lowercase(email).len() && #[trigger] lowercase(email).subrange(k, k + f.len()) == f
}

/// The e-mail filter keeps, in the order of the log, just the entries whose
/// lower-case e-mail has the filter at some place in it.
pub proof fn law_email_filter_is_a_filter(es: Seq<(Seq<char>, Seq<char>, Seq<char>)>, f: Seq<char>)
    ensures
        with_email(es, f) == es.filter(|e: (Seq<char>, Seq<char>, Seq<char>)| email_has(e.0, f)),
    decreases es.len(),
{
    reveal(Seq::filter);
    let pred = |e: (Seq<char>, Seq<char>, Seq<char>)| email_has(e.0, f);
    if es.len() > 0 {
        law_email_filter_is_a_filter(es.drop_last(), f);
        crate::text::lemma_contains_iff(lowercase(es.last().0), f);
        assert(contains(lowercase(es.last().0), f) == pred(es.last()));
        assert(es.filter(pred) == if pred(es.last()) {
            es.drop_last().filter(pred).push(es.last())
        } else {
            es.drop_last().filter(pred)
        });
    } else {
        assert(es.filter(pred) == es);
    }
}

/// The e-mail filter of the report keeps exactly the entries whose e-mail, in
/// lower case, has the filter somewhere in it (at its start, in its middle or
/// at its end).
pub proof fn law_email_filter_keeps_containing(es: Seq<(Seq<char>, Seq<char>, Seq<char>)>, f: Seq<char>)
    ensures
        forall|e: (Seq<char>, Seq<char>, Seq<char>)|
            #[trigger] with_email(es, f).contains(e) <==> es.contains(e) && exists|k: int|
                0 <= k && k + f.len() <= lowercase(e.0).len() && #[trigger] lowercase(e.0).subrange(k, k + f.len())
                    == f,
        with_email(es, f).len() <= es.len(),
    decreases es.len(),
{
    if es.len() > 0 {
        let es0 = es.drop_last();
        let x = es.last();
        law_email_filter_keeps_containing(es0, f);
        let r0 = with_email(es0, f);
        let r = with_email(es, f);
        crate::text::lemma_contains_iff(lowercase(x.0), f);
        assert(es =~= es0.push(x));
        assert forall|e: (Seq<char>, Seq<char>, Seq<char>)|
            #[trigger] r.contains(e) <==> es.contains(e) && exists|k: int|
                0 <= k && k + f.len() <= lowercase(e.0).len() && #[trigger] lowercase(e.0).subrange(k, k + f.len())
                    == f by {
            crate::text::lemma_contains_iff(lowercase(e.0), f);
            if r.contains(e) {
                let q = choose|q: int| 0 <= q < r.len() && r[q] == e;
                if q < r0.len() {
                    assert(r0[q] == e);
                    assert(r0.contains(e));
                    let w = choose|w: int| 0 <= w < es0.len() && es0[w] == e;
                    assert(es[w] == e);
                } else {
                    assert(e == x);
                    assert(es[es.len() - 1] == e);
                }
            }
            if es.contains(e) && exists|k: int|
                0 <= k && k + f.len() <= lowercase(e.0).len() && #[trigger] lowercase(e.0).subrange(k, k + f.len())
                    == f {
                let w = choose|w: int| 0 <= w < es.len() && es[w] == e;
                if w < es.len() - 1 {
                    assert(es0[w] == e);
                    assert(r0.contains(e));
                    let q = choose|q: int| 0 <= q < r0.len() && r0[q] == e;
                    assert(r[q] == e);
                } else {
                    assert(e == x);
                    assert(r[r.len() - 1] == e);
                }
            }
        }
    }
}

fn keep_email(entries: &Vec<ReportEntry>, filter: &str) -> (r: Vec<ReportEntry>)
    ensures
        entries_view(r@) == with_email(entries_view(entries@), filter@),
{
    let fv = chars_of(filter);
    let ghost ev = entries_view(entries@);
    let mut out: Vec<ReportEntry> = Vec::new();
    let mut i: usize = 0;
    while i < entries.len()
        invariant
            i <= entries@.len(),
            ev == entries_view(entries@),
            fv@ == filter@,
            entries_view(out@) == with_email(ev.take(i as int), filter@),
        decreases entries@.len() - i,
    {
        let e = &entries[i];
        assert(entry_view(*e) == ev[i as int]);
        let lower = to_lowercase(e.email.as_str());
        let lv = chars_of(lower.as_str());
        let keep = find_exec(&lv, &fv, 0).is_some();
        let ghost before = out@;
        if keep {
            out.push(clone_entry(e));
            assert(entries_view(out@) =~= entries_view(before).push(ev[i as int]));
        }
        proof {
            assert(ev.take(i + 1).drop_last() =~= ev.take(i as int));
            assert(ev.take(i + 1).last() == ev[i as int]);
        }
        i = i + 1;
    }
    assert(ev.take(entries@.len() as int) =~= ev);
    out
}

// ── Newest first ────────────────────────────────────────────────────────────

/// Where an entry of day `d` goes in a list ordered newest first, after the
/// entries of the same day or later.
pub open spec fn insert_pos(s: Seq<(Seq<char>, Seq<char>, Seq<char>)>, d: Seq<char>, k: int) -> int
    decreases s.len() - k,
{
    if k < 0 || k >= s.len() {
        s.len() as int
    } else if lex_less(s[k].2, d) {
        k
    } else {
        insert_pos(s, d, k + 1)
    }
}

/// The entries ordered by day, newest first; entries of one day keep their order
/// (a stable sort).
pub open spec fn newest_first(s: Seq<(Seq<char>, Seq<char>, Seq<char>)>) -> Seq<(Seq<char>, Seq<char>, Seq<char>)>
    decreases s.len(),
{
    if s.len() == 0 {
        s
    } else {
        let r = newest_first(s.drop_last());
        r.insert(insert_pos(r, s.last().2, 0), s.last())
    }
}

proof fn lemma_newest_first_len(s: Seq<(Seq<char>, Seq<char>, Seq<char>)>)
    ensures
        newest_first(s).len() == s.len(),
    decreases s.len(),
{
    if s.len() > 0 {
        lemma_newest_first_len(s.drop_last());
        lemma_insert_pos_bounds(newest_first(s.drop_last()), s.last().2, 0);
    }
}

proof fn lemma_insert_pos_bounds(s: Seq<(Seq<char>, Seq<char>, Seq<char>)>, d: Seq<char>, k: int)
    requires
        0 <= k,
    ensures
        0 <= insert_pos(s, d, k) <= s.len(),
    decreases s.len() - k,
{
    if k < s.len() && !lex_less(s[k].2, d) {
        lemma_insert_pos_bounds(s, d, k + 1);
    }
}

proof fn lemma_insert_pos(s: Seq<(Seq<char>, Seq<char>, Seq<char>)>, d: Seq<char>, k: int)
    requires
        0 <= k <= s.len(),
    ensures
        k <= insert_pos(s, d, k) <= s.len(),
        forall|i: int| k <= i < insert_pos(s, d, k) ==> !lex_less(#[trigger] s[i].2, d),
        insert_pos(s, d, k) < s.len() ==> lex_less(s[insert_pos(s, d, k)].2, d),
    decreases s.len() - k,
{
    if k < s.len() && !lex_less(s[k].2, d) {
        lemma_insert_pos(s, d, k + 1);
    }
}

/// The report ordered by day holds the same entries, each day's entries after
/// those of later days.
pub proof fn law_newest_first(s: Seq<(Seq<char>, Seq<char>, Seq<char>)>)
    ensures
        newest_first(s).to_multiset() == s.to_multiset(),
        forall|i: int, j: int|
            0 <= i < j < newest_first(s).len() ==> !lex_less(#[trigger] newest_first(s)[i].2, #[trigger] newest_first(s)[j].2),
    decreases s.len(),
{
    if s.len() > 0 {
        let s0 = s.drop_last();
        let x = s.last();
        let r0 = newest_first(s0);
        law_newest_first(s0);
        let p = insert_pos(r0, x.2, 0);
        lemma_insert_pos(r0, x.2, 0);
        let r = newest_first(s);
        assert(r == r0.insert(p, x));
        vstd::seq_lib::to_multiset_insert(r0, p, x);
        assert(s =~= s0.push(x));
        vstd::seq_lib::to_multiset_build(s0, x);
        assert forall|i: int, j: int| 0 <= i < j < r.len() implies !lex_less(#[trigger] r[i].2, #[trigger] r[j].2) by {
            if j < p {
                assert(r[i] == r0[i] && r[j] == r0[j]);
            } else if j == p {
                assert(r[i] == r0[i] && r[j] == x);
            } else if i < p {
                assert(r[i] == r0[i] && r[j] == r0[j - 1]);
            } else if i == p {
                assert(r[i] == x && r[j] == r0[j - 1]);
                if lex_less(x.2, r0[j - 1].2) {
                    lemma_lex_transitive(r0[p].2, x.2, r0[j - 1].2);
                    if j - 1 == p {
                        lemma_lex_irreflexive(r0[p].2);
                    } else {
                        assert(!lex_less(r0[p].2, r0[j - 1].2));
                    }
                }
            } else {
                assert(r[i] == r0[i - 1] && r[j] == r0[j - 1]);
            }
        }
    }
}

fn sort_newest_first(entries: &Vec<ReportEntry>) -> (r: Vec<ReportEntry>)
    ensures
        entries_view(r@) == newest_first(entries_view(entries@)),
{
    let ghost ev = entries_view(entries@);
    let n = entries.len();
    let mut out: Vec<ReportEntry> = Vec::new();
    let mut i: usize = 0;
    while i < n
        invariant
            i <= n,
            n == entries@.len(),
            ev == entries_view(entries@),
            entries_view(out@) == newest_first(ev.take(i as int)),
        decreases n - i,
    {
        let e = clone_entry(&entries[i]);
        assert(entry_view(e) == ev[i as int]);
        let dv = chars_of(e.date.as_str());
        let m = out.len();
        let mut k: usize = 0;
        let ghost ov = entries_view(out@);
        while k < m && !lex_less_exec(&chars_of(out[k].date.as_str()), &dv)
            invariant
                k <= m,
                m == out@.len(),
                ov == entries_view(out@),
                dv@ == e.date@,
                insert_pos(ov, e.date@, k as int) == insert_pos(ov, e.date@, 0),
            decreases m - k,
        {
            assert(ov[k as int].2 == out@[k as int].date@);
            k = k + 1;
        }
        proof {
            if k < m {
                assert(ov[k as int].2 == out@[k as int].date@);
            }
            assert(insert_pos(ov, e.date@, k as int) == k);
            assert(ev.take(i + 1).drop_last() =~= ev.take(i as int));
            assert(ev.take(i + 1).last() == ev[i as int]);
        }
        out.insert(k, e);
        proof {
            assert(entries_view(out@) =~= ov.insert(k as int, ev[i as int]));
        }
        i = i + 1;
    }
    assert(ev.take(n as int) =~= ev);
    out
}

// ── Grouped by author ───────────────────────────────────────────────────────

/// Just after the last entry of author `a` in `s[..k]`; -1 when there is none.
pub open spec fn after_last_of(s: Seq<(Seq<char>, Seq<char>, Seq<char>)>, a: Seq<char>, k: int) -> int
    decreases k,
{
    if k <= 0 {
        -1
    } else if s[k - 1].0 == a {
        k
    } else {
        after_last_of(s, a, k - 1)
    }
}

/// Where an entry of author `a` goes among `s` grouped by author: right after
/// the last entry of `a`, or at the end when there is none.
pub open spec fn group_pos(s: Seq<(Seq<char>, Seq<char>, Seq<char>)>, a: Seq<char>) -> int {
    let p = after_last_of(s, a, s.len() as int);
    if p < 0 { s.len() as int } else { p }
}

/// The entries grouped by author: authors in the order of their first entry,
/// each author's entries in their order.
pub open spec fn by_author(s: Seq<(Seq<char>, Seq<char>, Seq<char>)>) -> Seq<(Seq<char>, Seq<char>, Seq<char>)>
    decreases s.len(),
{
    if s.len() == 0 {
        s
    } else {
        let r = by_author(s.drop_last());
        r.insert(group_pos(r, s.last().0), s.last())
    }
}

proof fn lemma_after_last_of(s: Seq<(Seq<char>, Seq<char>, Seq<char>)>, a: Seq<char>, k: int)
    requires
        0 <= k <= s.len(),
    ensures
        after_last_of(s, a, k) < 0 ==> forall|m: int| 0 <= m < k ==> #[trigger] s[m].0 != a,
        after_last_of(s, a, k) >= 0 ==> {
            let q = after_last_of(s, a, k);
            &&& 1 <= q <= k
            &&& s[q - 1].0 == a
            &&& forall|m: int| q <= m < k ==> #[trigger] s[m].0 != a
        },
    decreases k,
{
    if k > 0 && s[k - 1].0 != a {
        lemma_after_last_of(s, a, k - 1);
    }
}

proof fn lemma_by_author_len(s: Seq<(Seq<char>, Seq<char>, Seq<char>)>)
    ensures
        by_author(s).len() == s.len(),
    decreases s.len(),
{
    if s.len() > 0 {
        let r0 = by_author(s.drop_last());
        lemma_by_author_len(s.drop_last());
        lemma_after_last_of(r0, s.last().0, r0.len() as int);
    }
}

/// Every entry of the report stands with the other entries of its author, and
/// the report holds the same entries as the log.
pub proof fn law_grouped_by_author(s: Seq<(Seq<char>, Seq<char>, Seq<char>)>)
    ensures
        by_author(s).to_multiset() == s.to_multiset(),
        forall|i: int, j: int, k: int|
            0 <= i < j < k < by_author(s).len() && #[trigger] by_author(s)[i].0 == #[trigger] by_author(s)[k].0
                ==> #[trigger] by_author(s)[j].0 == by_author(s)[i].0,
    decreases s.len(),
{
    if s.len() > 0 {
        let s0 = s.drop_last();
        let x = s.last();
        let r0 = by_author(s0);
        law_grouped_by_author(s0);
        let q = group_pos(r0, x.0);
        lemma_after_last_of(r0, x.0, r0.len() as int);
        let r = by_author(s);
        assert(r == r0.insert(q, x));
        vstd::seq_lib::to_multiset_insert(r0, q, x);
        assert(s =~= s0.push(x));
        vstd::seq_lib::to_multiset_build(s0, x);
        assert forall|i: int, j: int, k: int|
            0 <= i < j < k < r.len() && #[trigger] r[i].0 == #[trigger] r[k].0 implies #[trigger] r[j].0 == r[i].0 by {
            let ii = if i < q { i } else { i - 1 };
            let jj = if j < q { j } else { j - 1 };
            let kk = if k < q { k } else { k - 1 };
            if i != q && j != q && k != q {
                assert(0 <= ii < jj < kk < r0.len());
                assert(r[i] == r0[ii] && r[j] == r0[jj] && r[k] == r0[kk]);
                assert(r0[ii].0 == r0[kk].0);
                assert(r0[jj].0 == r0[ii].0);
            } else if j == q {
                assert(r[i] == r0[i] && r[k] == r0[k - 1]);
                if q < r0.len() {
                    if r0[i].0 != x.0 {
                        assert(r0[i].0 == r0[k - 1].0);
                        assert(r0[q - 1].0 == r0[i].0);
                    }
                } else {
                    assert(r0[i].0 != x.0);
                }
            } else if i == q {
                assert(r[k] == r0[k - 1]);
                assert(r0[k - 1].0 != x.0);
            } else {
                assert(k == q);
                assert(r[i] == r0[i] && r[j] == r0[j]);
                assert(r0[i].0 == x.0);
                assert(after_last_of(r0, x.0, r0.len() as int) >= 0);
                if j < q - 1 {
                    assert(r0[q - 1].0 == r0[i].0);
                    assert(r0[j].0 == r0[i].0);
                }
            }
        }
    }
}

fn group_by_author(entries: &Vec<ReportEntry>) -> (r: Vec<ReportEntry>)
    ensures
        entries_view(r@) == by_author(entries_view(entries@)),
{
    let ghost ev = entries_view(entries@);
    let n = entries.len();
    let mut out: Vec<ReportEntry> = Vec::new();
    let mut i: usize = 0;
    while i < n
        invariant
            i <= n,
            n == entries@.len(),
            ev == entries_view(entries@),
            entries_view(out@) == by_author(ev.take(i as int)),
        decreases n - i,
    {
        let e = clone_entry(&entries[i]);
        assert(entry_view(e) == ev[i as int]);
        let m = out.len();
        let mut k: usize = m;
        let ghost ov = entries_view(out@);
        while k > 0 && !eq_str(out[k - 1].email.as_str(), e.email.as_str())
            invariant
                k <= m,
                m == out@.len(),
                ov == entries_view(out@),
                after_last_of(ov, e.email@, k as int) == after_last_of(ov, e.email@, m as int),
            decreases k,
        {
            assert(ov[k - 1].0 == out@[k - 1].email@);
            k = k - 1;
        }
        let pos = if k == 0 { m } else { k };
        proof {
            if k > 0 {
                assert(ov[k - 1].0 == out@[k - 1].email@);
            }
            assert(group_pos(ov, e.email@) == pos);
            assert(ev.take(i + 1).drop_last() =~= ev.take(i as int));
            assert(ev.take(i + 1).last() == ev[i as int]);
        }
        out.insert(pos, e);
        proof {
            assert(entries_view(out@) =~= ov.insert(pos as int, ev[i as int]));
        }
        i = i + 1;
    }
    assert(ev.take(n as int) =~= ev);
    out
}

// ── The report lines ────────────────────────────────────────────────────────

/// The last component of a path, as `std::path::Path::file_name` gives it (none
/// for a path that ends in `..` or is a root).
pub uninterp spec fn path_file_name(p: Seq<char>) -> Option<Seq<char>>;

/// `std::path::Path::file_name`, as text (the path comes from a `&str`, so no
/// character is lost on the way back).
#[verifier::external_body]
pub(crate) fn file_name_of(path: &str) -> (r: Option<String>)
    ensures
        r matches Some(x) ==> path_file_name(path@) == Some(x@),
        r is None ==> path_file_name(path@) is None,
{
    match std::path::Path::new(path).file_name() {
        Some(f) => Some(f.to_string_lossy().to_string()),
        None => None,
    }
}

/// The name shown for a file: its last path component, or the whole path.
pub open spec fn shown_name(f: Seq<char>) -> Seq<char> {
    match path_file_name(f) {
        Some(b) => b,
        None => f,
    }
}

/// A line of `=` under and over the report.
pub open spec fn rule_line() -> Seq<char> {
    Seq::new(63, |i: int| '=')
}

pub open spec fn dashes() -> Seq<char> {
    Seq::new(60, |i: int| '-')
}

/// The lines that open an author's files.
pub open spec fn author_head(email: Seq<char>) -> Seq<Seq<char>> {
    seq![
        seq![],
        dashes(),
        "  CREATED BY: "@ + CYN@ + email + RST@,
        dashes(),
        seq![' ', ' '] + BLD@ + "FILE NAME"@ + RST@ + spaces(38) + BLD@ + "DATE"@ + RST@,
        DIM@ + dashes() + RST@,
    ]
}

/// The line of one file: its name, padded to 48 bytes (at least two spaces),
/// and its day.
pub open spec fn file_line(file: Seq<char>, date: Seq<char>) -> Seq<char> {
    let b = shown_name(file);
    let pad = if byte_len(b) + 2 <= 48 { 48 - byte_len(b) } else { 2 };
    seq![' ', ' '] + LYL@ + b + RST@ + spaces(pad) + DIM@ + date
}

/// The body lines of the report for `es[..k]`, and the author of the last one.
pub open spec fn report_body(es: Seq<(Seq<char>, Seq<char>, Seq<char>)>, k: int) -> (Seq<Seq<char>>, Seq<char>)
    decreases k,
{
    if k <= 0 {
        (seq![], seq![])
    } else {
        let (lines, cur) = report_body(es, k - 1);
        let e = es[k - 1];
        let head = if e.0 != cur { author_head(e.0) } else { seq![] };
        (lines + head + seq![file_line(e.1, e.2)], e.0)
    }
}

/// All lines of the report for the entries `es`.
pub open spec fn report_text(es: Seq<(Seq<char>, Seq<char>, Seq<char>)>) -> Seq<Seq<char>> {
    seq![rule_line(), "                    FILES BY AUTHOR"@, rule_line()] + report_body(es, es.len() as int).0 + seq![
        seq![],
        rule_line(),
    ]
}

/// The report for a log: its entries, those of the e-mail filter when there is
/// one, newest first when so ordered, grouped by author.
pub open spec fn report_for(raw: Seq<char>, filter: Seq<char>, sort: Seq<char>) -> Seq<Seq<char>> {
    let all = log_entries(raw);
    let es = if filter.len() > 0 { with_email(all, filter) } else { all };
    if filter.len() > 0 && es.len() == 0 {
        seq![seq![' ', ' '] + DIM@ + "No files found for: "@ + filter + RST@]
    } else if sort == "date"@ {
        report_text(by_author(newest_first(es)))
    } else {
        report_text(by_author(es))
    }
}

fn file_line_exec(file: &String, date: &String) -> (r: String)
    ensures
        r@ == file_line(file@, date@),
{
    let b = match file_name_of(file.as_str()) {
        Some(x) => x,
        None => file.clone(),
    };
    let bv = chars_of(b.as_str());
    let pad = if byte_len_exceeds(&bv, 46) { 2 } else { 48 - chars_byte_len(&bv) };
    let mut s = String::new();
    push_str(&mut s, "  ");
    push_str(&mut s, LYL);
    push_str(&mut s, b.as_str());
    push_str(&mut s, RST);
    let sp = repeated(' ', pad);
    assert(sp@ =~= spaces(pad as int));
    push_str(&mut s, sp.as_str());
    push_str(&mut s, DIM);
    push_str(&mut s, date.as_str());
    proof {
        reveal_strlit("  ");
    }
    assert(s@ =~= file_line(file@, date@));
    s
}

fn push_author_head(out: &mut Vec<String>, email: &String)
    ensures
        strings_view(final(out)@) == strings_view(old(out)@) + author_head(email@),
{
    let ghost o = strings_view(out@);
    let d = repeated('-', 60);
    proof {
        reveal_strlit("  CREATED BY: ");
        reveal_strlit("FILE NAME");
        reveal_strlit("DATE");
        reveal_strlit("  ");
    }
    let l0 = String::new();
    let mut l2 = String::from_str("  CREATED BY: ");
    push_str(&mut l2, CYN);
    push_str(&mut l2, email.as_str());
    push_str(&mut l2, RST);
    let mut l4 = String::from_str("  ");
    push_str(&mut l4, BLD);
    push_str(&mut l4, "FILE NAME");
    push_str(&mut l4, RST);
    let sp = repeated(' ', 38);
    assert(sp@ =~= spaces(38));
    push_str(&mut l4, sp.as_str());
    push_str(&mut l4, BLD);
    push_str(&mut l4, "DATE");
    push_str(&mut l4, RST);
    let mut l5 = String::from_str(DIM);
    push_str(&mut l5, d.as_str());
    push_str(&mut l5, RST);
    let ghost v0 = out@;
    let ghost lines = seq![l0@, d@, l2@, d@, l4@, l5@];
    assert(lines =~= author_head(email@)) by {
        assert("  "@ =~= seq![' ', ' ']);
    }
    push_line(out, l0);
    push_line(out, d.clone());
    push_line(out, l2);
    push_line(out, d);
    push_line(out, l4);
    push_line(out, l5);
    assert(strings_view(out@) =~= o + lines);
}

pub fn push_line(out: &mut Vec<String>, l: String)
    ensures
        strings_view(final(out)@) == strings_view(old(out)@).push(l@),
{
    let ghost before = out@;
    out.push(l);
    proof {
        lemma_strings_view_push(before, l);
    }
}

#[verifier::rlimit(40)]
fn report_lines_of(es: &Vec<ReportEntry>) -> (r: Vec<String>)
    ensures
        strings_view(r@) == report_text(entries_view(es@)),
{
    let ghost ev = entries_view(es@);
    let rule = repeated('=', 63);
    proof {
        reveal_strlit("                    FILES BY AUTHOR");
        assert(rule_line() =~= rule@);
    }
    let mut out: Vec<String> = Vec::new();
    push_line(&mut out, rule.clone());
    push_line(&mut out, String::from_str("                    FILES BY AUTHOR"));
    push_line(&mut out, rule.clone());
    let ghost head = strings_view(out@);
    assert(head =~= seq![rule_line(), "                    FILES BY AUTHOR"@, rule_line()]);
    let mut cur = String::new();
    let mut i: usize = 0;
    while i < es.len()
        invariant
            i <= es@.len(),
            ev == entries_view(es@),
            strings_view(out@) == head + report_body(ev, i as int).0,
            cur@ == report_body(ev, i as int).1,
        decreases es@.len() - i,
    {
        let e = &es[i];
        assert(entry_view(*e) == ev[i as int]);
        if !eq_str(e.email.as_str(), cur.as_str()) {
            push_author_head(&mut out, &e.email);
            cur = e.email.clone();
        }
        let ghost before = out@;
        out.push(file_line_exec(&e.file, &e.date));
        proof {
            lemma_strings_view_push(before, out@.last());
            let (pl, pc) = report_body(ev, i as int);
            let h = if ev[i as int].0 != pc { author_head(ev[i as int].0) } else { seq![] };
            assert(report_body(ev, i + 1).0 == pl + h + seq![file_line(ev[i as int].1, ev[i as int].2)]);
            assert(strings_view(out@) =~= head + report_body(ev, i + 1).0);
        }
        i = i + 1;
    }
    push_line(&mut out, String::new());
    push_line(&mut out, rule);
    assert(strings_view(out@) =~= report_text(ev));
    out
}

/// Fills the report view from the output of `git log` (`None` when git could
/// not be run).
pub fn open_report(app: &mut AppState, raw: Option<String>)
    ensures
        *final(app) == (AppState { report_lines: final(app).report_lines, report_scroll: 0, mode: AppMode::Report, ..*old(app) }),
        strings_view(final(app).report_lines@) == match raw {
            None => seq!["  Failed to load report"@],
            Some(t) => report_for(t@, old(app).report_email_filter@, old(app).report_sort@),
        },
{
    let lines = match raw {
        None => {
            let mut v: Vec<String> = Vec::new();
            v.push(String::from_str("  Failed to load report"));
            assert(strings_view(v@) =~= seq!["  Failed to load report"@]);
            v
        },
        Some(t) => {
            let all = parse_report(t.as_str());
            let has_filter = app.report_email_filter.as_str().unicode_len() > 0;
            let es = if has_filter { keep_email(&all, app.report_email_filter.as_str()) } else { all };
            if has_filter && es.len() == 0 {
                let mut l = String::from_str("  ");
                push_str(&mut l, DIM);
                push_str(&mut l, "No files found for: ");
                push_str(&mut l, app.report_email_filter.as_str());
                push_str(&mut l, RST);
                proof {
                    reveal_strlit("  ");
                    reveal_strlit("No files found for: ");
                }
                assert("  "@ =~= seq![' ', ' ']);
                let mut v: Vec<String> = Vec::new();
                push_line(&mut v, l);
                assert(strings_view(v@) =~= seq![seq![' ', ' '] + DIM@ + "No files found for: "@ + app.report_email_filter@ + RST@]);
                v
            } else if eq_str(app.report_sort.as_str(), "date") {
                let sorted = sort_newest_first(&es);
                report_lines_of(&group_by_author(&sorted))
            } else {
                report_lines_of(&group_by_author(&es))
            }
        },
    };
    app.report_lines = lines;
    app.report_scroll = 0;
    app.mode = AppMode::Report;
}

// ── E-mail suggestions ──────────────────────────────────────────────────────

/// `s` (ordered, without repeats) with `x` added in its place, if not there yet.
pub open spec fn insert_sorted(s: Seq<Seq<char>>, x: Seq<char>) -> Seq<Seq<char>> {
    if s.contains(x) {
        s
    } else {
        let k = first_greater(s, x, 0);
        s.insert(k, x)
    }
}

/// The first index at or after `k` whose element comes after `x`.
pub open spec fn first_greater(s: Seq<Seq<char>>, x: Seq<char>, k: int) -> int
    decreases s.len() - k,
{
    if k < 0 || k >= s.len() {
        s.len() as int
    } else if lex_less(x, s[k]) {
        k
    } else {
        first_greater(s, x, k + 1)
    }
}

/// The distinct e-mails of `es` whose lower case contains `input_lower`,
/// ordered.
pub open spec fn matching_emails(es: Seq<Seq<char>>, input_lower: Seq<char>) -> Seq<Seq<char>>
    decreases es.len(),
{
    if es.len() == 0 {
        seq![]
    } else {
        let rest = matching_emails(es.drop_last(), input_lower);
        if contains(lowercase(es.last()), input_lower) { insert_sorted(rest, es.last()) } else { rest }
    }
}

/// The suggestions for an e-mail input: the first five (in order) of the
/// distinct e-mails that contain it, compared in lower case.
pub open spec fn suggestions(es: Seq<Seq<char>>, input: Seq<char>) -> Seq<Seq<char>> {
    let all = matching_emails(es, lowercase(input));
    if all.len() > 5 { all.take(5) } else { all }
}

proof fn lemma_first_greater_bounds(s: Seq<Seq<char>>, x: Seq<char>, k: int)
    requires
        0 <= k,
    ensures
        0 <= first_greater(s, x, k) <= s.len(),
    decreases s.len() - k,
{
    if k < s.len() && !lex_less(x, s[k]) {
        lemma_first_greater_bounds(s, x, k + 1);
    }
}

proof fn lemma_first_greater(s: Seq<Seq<char>>, x: Seq<char>, k: int)
    requires
        0 <= k <= s.len(),
    ensures
        k <= first_greater(s, x, k) <= s.len(),
        forall|i: int| k <= i < first_greater(s, x, k) ==> !lex_less(x, #[trigger] s[i]),
        first_greater(s, x, k) < s.len() ==> lex_less(x, s[first_greater(s, x, k)]),
    decreases s.len() - k,
{
    if k < s.len() && !lex_less(x, s[k]) {
        lemma_first_greater(s, x, k + 1);
    }
}

/// The matching e-mails are in strictly increasing order, each an e-mail of
/// the log that matches, and every matching e-mail of the log is among them.
proof fn lemma_matching_emails(es: Seq<Seq<char>>, il: Seq<char>)
    ensures
        ({
            let m = matching_emails(es, il);
            &&& forall|i: int, j: int| 0 <= i < j < m.len() ==> lex_less(#[trigger] m[i], #[trigger] m[j])
            &&& forall|k: int| 0 <= k < m.len() ==> es.contains(#[trigger] m[k]) && contains(lowercase(m[k]), il)
            &&& forall|x: Seq<char>| #[trigger] es.contains(x) && contains(lowercase(x), il) ==> m.contains(x)
        }),
    decreases es.len(),
{
    if es.len() > 0 {
        let e0 = es.drop_last();
        let x = es.last();
        let rest = matching_emails(e0, il);
        let m = matching_emails(es, il);
        lemma_matching_emails(e0, il);
        assert forall|y: Seq<char>| e0.contains(y) implies es.contains(y) by {
            let k = choose|k: int| 0 <= k < e0.len() && e0[k] == y;
            assert(es[k] == y);
        }
        assert forall|y: Seq<char>| #[trigger] es.contains(y) && y != x implies e0.contains(y) by {
            let k = choose|k: int| 0 <= k < es.len() && es[k] == y;
            assert(k != es.len() - 1);
            assert(e0[k] == y);
        }
        assert(es.contains(x)) by {
            assert(es[es.len() - 1] == x);
        }
        if contains(lowercase(x), il) && !rest.contains(x) {
            let p = first_greater(rest, x, 0);
            lemma_first_greater(rest, x, 0);
            assert(m == rest.insert(p, x));
            assert forall|i: int, j: int| 0 <= i < j < m.len() implies lex_less(#[trigger] m[i], #[trigger] m[j]) by {
                if j < p {
                    assert(m[i] == rest[i] && m[j] == rest[j]);
                } else if j == p {
                    assert(m[i] == rest[i] && m[j] == x);
                    assert(!lex_less(x, rest[i]));
                    assert(rest[i] != x);
                    lemma_lex_total(rest[i], x);
                } else if i < p {
                    assert(m[i] == rest[i] && m[j] == rest[j - 1]);
                } else if i == p {
                    assert(m[i] == x && m[j] == rest[j - 1]);
                    if j - 1 > p {
                        assert(lex_less(rest[p], rest[j - 1]));
                        lemma_lex_transitive(x, rest[p], rest[j - 1]);
                    }
                } else {
                    assert(m[i] == rest[i - 1] && m[j] == rest[j - 1]);
                }
            }
            assert forall|k: int| 0 <= k < m.len() implies es.contains(#[trigger] m[k]) && contains(
                lowercase(m[k]),
                il,
            ) by {
                if k < p {
                    assert(m[k] == rest[k]);
                } else if k > p {
                    assert(m[k] == rest[k - 1]);
                }
            }
            assert forall|y: Seq<char>| #[trigger] es.contains(y) && contains(lowercase(y), il) implies m.contains(y) by {
                if y == x {
                    assert(m[p] == x);
                } else {
                    let k = choose|k: int| 0 <= k < rest.len() && rest[k] == y;
                    if k < p {
                        assert(m[k] == y);
                    } else {
                        assert(m[k + 1] == y);
                    }
                }
            }
        }
    }
}

/// The suggestions of the e-mail filter: at most five, in strictly increasing
/// order (so none twice), each an e-mail of the log whose lower case contains
/// the input's; and when there are fewer than five, every such e-mail is one.
pub proof fn law_suggestions(es: Seq<Seq<char>>, input: Seq<char>)
    ensures
        ({
            let s = suggestions(es, input);
            &&& s.len() <= 5
            &&& forall|i: int, j: int| 0 <= i < j < s.len() ==> lex_less(#[trigger] s[i], #[trigger] s[j])
            &&& forall|k: int|
                0 <= k < s.len() ==> es.contains(#[trigger] s[k]) && contains(lowercase(s[k]), lowercase(input))
            &&& s.len() < 5 ==> forall|x: Seq<char>|
                #[trigger] es.contains(x) && contains(lowercase(x), lowercase(input)) ==> s.contains(x)
        }),
{
    lemma_matching_emails(es, lowercase(input));
}

/// Looks up the suggestions of the e-mail filter among the author e-mails of the
/// log (one per line, as `git log --format=%ae` prints them).
/// The view is drawn again when the suggestions changed.
pub fn set_report_completions(app: &mut AppState, emails: &Vec<String>)
    ensures
        *final(app) == (AppState {
            report_ac_list: final(app).report_ac_list,
            dirty: old(app).dirty || strings_view(final(app).report_ac_list@) != strings_view(
                old(app).report_ac_list@,
            ),
            ..*old(app)
        }),
        strings_view(final(app).report_ac_list@) == suggestions(strings_view(emails@), old(app).report_email_input@),
{
    let lower_in = to_lowercase(app.report_email_input.as_str());
    let iv = chars_of(lower_in.as_str());
    let ghost ev = strings_view(emails@);
    let mut out: Vec<String> = Vec::new();
    let mut i: usize = 0;
    while i < emails.len()
        invariant
            i <= emails@.len(),
            ev == strings_view(emails@),
            iv@ == lowercase(old(app).report_email_input@),
            strings_view(out@) == matching_emails(ev.take(i as int), iv@),
        decreases emails@.len() - i,
    {
        let e = &emails[i];
        let lower = to_lowercase(e.as_str());
        let ghost ov = strings_view(out@);
        if find_exec(&chars_of(lower.as_str()), &iv, 0).is_some() {
            let evc = chars_of(e.as_str());
            let m = out.len();
            let mut k: usize = 0;
            let mut present = false;
            while k < m
                invariant
                    k <= m,
                    m == out@.len(),
                    ov == strings_view(out@),
                    evc@ == e@,
                    present == ov.take(k as int).contains(e@),
                decreases m - k,
            {
                let same = eq_str(out[k].as_str(), e.as_str());
                proof {
                    let t = ov.take(k as int);
                    assert(ov.take(k + 1) =~= t.push(ov[k as int]));
                    assert(ov[k as int] == out@[k as int]@);
                    if same {
                        assert(t.push(ov[k as int])[k as int] == e@);
                    } else if t.contains(e@) {
                        let j = choose|j: int| 0 <= j < t.len() && t[j] == e@;
                        assert(t.push(ov[k as int])[j] == e@);
                    } else {
                        assert forall|j: int| 0 <= j < t.len() + 1 implies t.push(ov[k as int])[j] != e@ by {
                            if j < t.len() {
                                assert(t.push(ov[k as int])[j] == t[j]);
                            }
                        }
                    }
                }
                present = present || same;
                k = k + 1;
            }
            assert(ov.take(m as int) =~= ov);
            if !present {
                let mut k: usize = 0;
                while k < m && !lex_less_exec(&evc, &chars_of(out[k].as_str()))
                    invariant
                        k <= m,
                        m == out@.len(),
                        ov == strings_view(out@),
                        evc@ == e@,
                        first_greater(ov, e@, k as int) == first_greater(ov, e@, 0),
                    decreases m - k,
                {
                    k = k + 1;
                }
                out.insert(k, e.clone());
                proof {
                    assert(strings_view(out@) =~= ov.insert(k as int, e@));
                }
            }
        }
        proof {
            assert(ev.take(i + 1).drop_last() =~= ev.take(i as int));
            assert(ev.take(i + 1).last() == e@);
        }
        i = i + 1;
    }
    assert(ev.take(emails@.len() as int) =~= ev);
    if out.len() > 5 {
        out.truncate(5);
    }
    let changed = !same_lines(&out, &app.report_ac_list);
    app.report_ac_list = out;
    if changed {
        app.dirty = true;
    }
}

/// Whether two lists of lines are the same.
pub fn same_lines(a: &Vec<String>, b: &Vec<String>) -> (r: bool)
    ensures
        r == (strings_view(a@) == strings_view(b@)),
{
    if a.len() != b.len() {
        assert(strings_view(a@).len() != strings_view(b@).len());
        return false;
    }
    let mut i: usize = 0;
    while i < a.len()
        invariant
            i <= a@.len(),
            a@.len() == b@.len(),
            forall|j: int| 0 <= j < i ==> a@[j]@ == b@[j]@,
        decreases a@.len() - i,
    {
        if !eq_str(a[i].as_str(), b[i].as_str()) {
            assert(strings_view(a@)[i as int] != strings_view(b@)[i as int]);
            return false;
        }
        i = i + 1;
    }
    assert(strings_view(a@) =~= strings_view(b@));
    true
}


// ── The e-mail filter overlay ───────────────────────────────────────────────

/// Where the typed text starts in a suggestion, in bytes: the first place where
/// it occurs in lower case (as `str::find` gives it), or 0.
pub open spec fn match_start(sug: Seq<char>, input: Seq<char>) -> nat {
    let lo = lowercase(sug);
    match find(lo, lowercase(input)) {
        Some(k) => byte_len(lo.take(k)),
        None => 0,
    }
}

/// Where the highlighted part of a suggestion ends, in bytes: as many bytes
/// after its start as the typed text has.
pub open spec fn match_end(sug: Seq<char>, input: Seq<char>) -> nat {
    match_start(sug, input) + byte_len(input)
}

/// What highlighting the typed text in a suggestion needs: both ends of the
/// highlight fall within it, between characters.
pub open spec fn suggestion_ok(sug: Seq<char>, input: Seq<char>) -> bool {
    &&& match_end(sug, input) < usize::MAX - 5
    &&& byte_prefix(sug, match_start(sug, input)) is Some
    &&& byte_prefix(sug, match_end(sug, input)) is Some
}

/// The rows of one suggestion: the marker of the selected one, the part before
/// the match dimmed, the match highlighted, and the rest on a row of its own.
pub open spec fn suggestion_rows(sug: Seq<char>, input: Seq<char>, selected: bool) -> Seq<Seq<char>> {
    let pre = byte_prefix(sug, match_start(sug, input))->0;
    let upto = byte_prefix(sug, match_end(sug, input))->0;
    let mid = upto.skip(pre.len() as int);
    let rest = sug.skip(upto.len() as int);
    let marker = if selected { BLD@ + LGR@ + "▸"@ + RST@ + " "@ } else { "  "@ };
    seq!["  "@ + marker + DIM@ + pre + RST@ + BLD@ + LGR@ + mid] + (if rest.len() > 0 {
        seq![DIM@ + rest + RST@]
    } else {
        seq![]
    })
}

/// The rows of the first `k` suggestions, the one at `sel` marked.
pub open spec fn suggestions_rows(sugs: Seq<Seq<char>>, input: Seq<char>, sel: int, k: int) -> Seq<Seq<char>>
    decreases k,
{
    if k <= 0 {
        seq![]
    } else {
        suggestions_rows(sugs, input, sel, k - 1) + suggestion_rows(sugs[k - 1], input, k - 1 == sel)
    }
}

/// The overlay of the e-mail filter of the report: the input line, then the
/// number of suggestions and the suggestions, or a note that none match.
pub open spec fn report_filter_view(app: AppState) -> Seq<Seq<char>> {
    let input = app.report_email_input@;
    let ac = strings_view(app.report_ac_list@);
    if app.mode != AppMode::ReportFilter {
        seq![]
    } else {
        seq!["  "@ + BLD@ + LGR@ + input + RST@ + DIM@ + "█ Esc to cancel  Tab to select"@ + RST@] + (if ac.len()
            > 0 {
            seq!["  "@ + DIM@ + decimal(ac.len()) + " match(es)"@ + RST@] + suggestions_rows(
                ac,
                input,
                app.report_ac_idx as int,
                ac.len() as int,
            )
        } else if input.len() > 0 {
            seq!["  "@ + DIM@ + "  no matches"@ + RST@]
        } else {
            seq![]
        })
    }
}

/// What drawing the overlay needs: every suggestion can be highlighted.
pub open spec fn report_filter_ready(app: AppState) -> bool {
    app.mode == AppMode::ReportFilter ==> forall|i: int|
        0 <= i < app.report_ac_list@.len() ==> #[trigger] suggestion_ok(
            app.report_ac_list@[i]@,
            app.report_email_input@,
        )
}

/// The start of the highlight, or `None` when it does not fit in a `usize`.
fn match_start_exec(sug: &str, input: &str) -> (r: Option<usize>)
    ensures
        r matches Some(p) ==> p == match_start(sug@, input@),
        r is None ==> match_start(sug@, input@) > usize::MAX,
{
    let lo = chars_of(to_lowercase(sug).as_str());
    let li = chars_of(to_lowercase(input).as_str());
    match find_exec(&lo, &li, 0) {
        Some(k) => {
            proof {
                lemma_find_from(lo@, li@, 0);
            }
            let head = slice_chars(&lo, 0, k);
            assert(head@ =~= lo@.take(k as int));
            byte_len_checked(&head)
        },
        None => Some(0),
    }
}

/// The two ends of the highlight, when it can be drawn.
fn match_bounds(sug: &str, input: &str) -> (r: Option<(usize, usize)>)
    ensures
        r matches Some(b) ==> b.0 == match_start(sug@, input@) && b.1 == match_end(sug@, input@)
            && b.1 < usize::MAX - 5,
        r is None ==> match_end(sug@, input@) >= usize::MAX - 5,
{
    let p = match match_start_exec(sug, input) {
        Some(p) => p,
        None => {
            return None;
        },
    };
    let n = match byte_len_checked(&chars_of(input)) {
        Some(n) => n,
        None => {
            return None;
        },
    };
    if p >= usize::MAX - 5 || n >= usize::MAX - 5 - p {
        return None;
    }
    Some((p, p + n))
}

/// Whether the typed text can be highlighted in `sug`.
fn suggestion_ok_exec(sug: &str, input: &str) -> (r: bool)
    ensures
        r == suggestion_ok(sug@, input@),
{
    match match_bounds(sug, input) {
        Some((p, e)) => {
            let v = chars_of(sug);
            prefix_at(&v, p).is_some() && prefix_at(&v, e).is_some()
        },
        None => false,
    }
}

/// Whether the overlay of the e-mail filter can be drawn.
pub fn report_filter_ready_exec(app: &AppState) -> (r: bool)
    ensures
        r == report_filter_ready(*app),
{
    if app.mode != AppMode::ReportFilter {
        return true;
    }
    let n = app.report_ac_list.len();
    let mut i: usize = 0;
    while i < n
        invariant
            i <= n,
            n == app.report_ac_list@.len(),
            app.mode == AppMode::ReportFilter,
            forall|k: int|
                0 <= k < i ==> #[trigger] suggestion_ok(app.report_ac_list@[k]@, app.report_email_input@),
        decreases n - i,
    {
        if !suggestion_ok_exec(app.report_ac_list[i].as_str(), app.report_email_input.as_str()) {
            return false;
        }
        i = i + 1;
    }
    true
}

fn push_suggestion_rows(out: &mut Vec<String>, sug: &str, input: &str, selected: bool)
    requires
        suggestion_ok(sug@, input@),
    ensures
        strings_view(final(out)@) == strings_view(old(out)@) + suggestion_rows(sug@, input@, selected),
{
    let ghost o = strings_view(out@);
    let (p, e) = match match_bounds(sug, input) {
        Some(b) => b,
        None => {
            return;
        },
    };
    let v = chars_of(sug);
    let pre = match prefix_at(&v, p) {
        Some(x) => x,
        None => {
            return;
        },
    };
    let upto = match prefix_at(&v, e) {
        Some(x) => x,
        None => {
            return;
        },
    };
    proof {
        assert(pre@ == byte_prefix(sug@, match_start(sug@, input@))->0);
        assert(upto@ == byte_prefix(sug@, match_end(sug@, input@))->0);
        let c1 = choose|k: int| 0 <= k <= sug@.len() && byte_len(#[trigger] sug@.take(k)) == p;
        let c2 = choose|k: int| 0 <= k <= sug@.len() && byte_len(#[trigger] sug@.take(k)) == e;
        assert(pre@ == sug@.take(c1));
        assert(upto@ == sug@.take(c2));
        if c1 > c2 {
            lemma_byte_len_mono(sug@, c2, c1);
        }
        assert(pre@.len() <= upto@.len());
        assert(upto@.len() <= v@.len());
    }
    let mid = string_of(&upto, pre.len(), upto.len());
    assert(mid@ =~= upto@.skip(pre@.len() as int));
    let rest = string_of(&v, upto.len(), v.len());
    assert(rest@ =~= sug@.skip(upto@.len() as int));
    let mut first = String::from_str("  ");
    if selected {
        push_str(&mut first, BLD);
        push_str(&mut first, LGR);
        push_str(&mut first, "▸");
        push_str(&mut first, RST);
        push_str(&mut first, " ");
    } else {
        push_str(&mut first, "  ");
    }
    push_str(&mut first, DIM);
    push_str(&mut first, string_of(&pre, 0, pre.len()).as_str());
    push_str(&mut first, RST);
    push_str(&mut first, BLD);
    push_str(&mut first, LGR);
    push_str(&mut first, mid.as_str());
    assert(pre@.subrange(0, pre@.len() as int) =~= pre@);
    let ghost marker = if selected { BLD@ + LGR@ + "▸"@ + RST@ + " "@ } else { "  "@ };
    assert(first@ =~= "  "@ + marker + DIM@ + pre@ + RST@ + BLD@ + LGR@ + mid@);
    push_line(out, first);
    if rest.as_str().unicode_len() > 0 {
        let mut r = String::from_str(DIM);
        push_str(&mut r, rest.as_str());
        push_str(&mut r, RST);
        assert(r@ =~= DIM@ + rest@ + RST@);
        push_line(out, r);
    }
    assert(strings_view(out@) =~= o + suggestion_rows(sug@, input@, selected));
}

/// The overlay of the e-mail filter of the report (no rows in other views).
pub fn report_filter_lines(app: &AppState) -> (r: Vec<String>)
    requires
        report_filter_ready(*app),
    ensures
        strings_view(r@) == report_filter_view(*app),
{
    let mut out: Vec<String> = Vec::new();
    if app.mode != AppMode::ReportFilter {
        assert(strings_view(out@) =~= report_filter_view(*app));
        return out;
    }
    let input = app.report_email_input.as_str();
    let mut first = String::from_str("  ");
    push_str(&mut first, BLD);
    push_str(&mut first, LGR);
    push_str(&mut first, input);
    push_str(&mut first, RST);
    push_str(&mut first, DIM);
    push_str(&mut first, "█ Esc to cancel  Tab to select");
    push_str(&mut first, RST);
    push_line(&mut out, first);
    let ghost head = strings_view(out@);
    let ghost ac = strings_view(app.report_ac_list@);
    let n = app.report_ac_list.len();
    if n > 0 {
        let mut c = String::from_str("  ");
        push_str(&mut c, DIM);
        push_str(&mut c, u64_to_decimal(n as u64).as_str());
        push_str(&mut c, " match(es)");
        push_str(&mut c, RST);
        push_line(&mut out, c);
        let ghost start = strings_view(out@);
        let mut i: usize = 0;
        while i < n
            invariant
                i <= n,
                n == app.report_ac_list@.len(),
                ac == strings_view(app.report_ac_list@),
                report_filter_ready(*app),
                app.mode == AppMode::ReportFilter,
                input@ == app.report_email_input@,
                strings_view(out@) == start + suggestions_rows(ac, input@, app.report_ac_idx as int, i as int),
            decreases n - i,
        {
            assert(suggestion_ok(app.report_ac_list@[i as int]@, input@));
            push_suggestion_rows(&mut out, app.report_ac_list[i].as_str(), input, i == app.report_ac_idx);
            assert(ac[i as int] == app.report_ac_list@[i as int]@);
            assert(strings_view(out@) =~= start + suggestions_rows(ac, input@, app.report_ac_idx as int, i + 1));
            i = i + 1;
        }
        assert(strings_view(out@) =~= report_filter_view(*app));
    } else if input.unicode_len() > 0 {
        let mut c = String::from_str("  ");
        push_str(&mut c, DIM);
        push_str(&mut c, "  no matches");
        push_str(&mut c, RST);
        push_line(&mut out, c);
        assert(strings_view(out@) =~= report_filter_view(*app));
    } else {
        assert(strings_view(out@) =~= report_filter_view(*app));
    }
    out
}

} // verus!

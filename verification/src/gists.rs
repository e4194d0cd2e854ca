//! GitHub gists: the gist list, its filter, the id of the gist under the cursor,
//! and the content view.
use vstd::prelude::*;
use crate::ansi::{lemma_stripped_plain_then_reset, plain, stripped, strip_ansi, BLD, CYN, DIM, GRY, LGR, LRE, LYL, RST, WHT};
use crate::issues::{clamped, filter_lines, kept_lines, strings_view, lemma_strings_view_push};
use crate::state::{show_msg, show_msg_string, AppMode, AppState, CmdOutcome};
use crate::render::{hash_head_ok, short_hash};
use crate::report::push_line;
use crate::sidebar::repeat;
use crate::text::{
    byte_prefix, chars_of, find, find_exec, find_from, first_word, first_word_bounds, lemma_find_from, lowercase,
    push_str, string_of, to_lowercase, trimmed, trim_bounds, byte_len, byte_head, concat3, repeated,
    split_lines, text_lines, byte_len_exceeds, byte_prefix_chars, decimal, u64_to_decimal, prefix_at,
    is_space, matches_at, skip_space, drop_trailing_space, token_end, lemma_decimal_digits, lemma_find_from_first,
    lemma_token_end_at,
};
use crate::render::{date10_ok, date_head, date_head_exec};

verus! {

// ── The gist under the cursor ───────────────────────────────────────────────

/// The gist id written on a line: the first word after the first `id:`, with
/// its escape codes removed.
pub open spec fn id_on_line(line: Seq<char>) -> Option<Seq<char>> {
    match find(line, "id:"@) {
        Some(pos) => match first_word(trimmed(line.skip(pos + 3))) {
            Some(w) => Some(stripped(w)),
            None => None,
        },
        None => None,
    }
}

/// The id on line `idx` or, failing that, on the nearest line above it.
pub open spec fn gist_id_from(lines: Seq<Seq<char>>, idx: int) -> Option<Seq<char>>
    decreases idx,
{
    let here = if 0 <= idx < lines.len() { id_on_line(lines[idx]) } else { None };
    if here is Some {
        here
    } else if idx <= 0 {
        None
    } else {
        gist_id_from(lines, idx - 1)
    }
}

proof fn lemma_gist_id_past_end(lines: Seq<Seq<char>>, idx: int)
    requires
        lines.len() > 0,
        idx >= lines.len(),
    ensures
        gist_id_from(lines, idx) == gist_id_from(lines, lines.len() - 1),
    decreases idx,
{
    if idx > lines.len() {
        lemma_gist_id_past_end(lines, idx - 1);
    }
}

/// The gist id under the cursor comes from the nearest line at or above it that
/// names one (none when no such line), and lines below the cursor are never
/// read.
pub proof fn law_gist_id_nearest_above(lines: Seq<Seq<char>>, cursor: int)
    requires
        0 <= cursor,
    ensures
        (forall|i: int| 0 <= i <= cursor && i < lines.len() ==> #[trigger] id_on_line(lines[i]) is None)
            ==> gist_id_from(lines, cursor) is None,
        forall|i: int|
            0 <= i <= cursor && i < lines.len() && #[trigger] id_on_line(lines[i]) is Some && (forall|k: int|
                i < k <= cursor && k < lines.len() ==> #[trigger] id_on_line(lines[k]) is None) ==> gist_id_from(
                lines,
                cursor,
            ) == id_on_line(lines[i]),
        cursor < lines.len() ==> gist_id_from(lines, cursor) == gist_id_from(lines.take(cursor + 1), cursor),
    decreases cursor,
{
    if cursor > 0 {
        law_gist_id_nearest_above(lines, cursor - 1);
    }
    if cursor < lines.len() {
        lemma_gist_id_prefix(lines, cursor + 1, cursor);
    }
}

proof fn lemma_gist_id_prefix(lines: Seq<Seq<char>>, n: int, idx: int)
    requires
        0 <= idx < n <= lines.len(),
    ensures
        gist_id_from(lines, idx) == gist_id_from(lines.take(n), idx),
    decreases idx,
{
    assert(lines.take(n)[idx] == lines[idx]);
    if idx > 0 {
        lemma_gist_id_prefix(lines, n, idx - 1);
    }
}

fn id_on_line_exec(line: &String) -> (r: Option<String>)
    ensures
        r matches Some(x) ==> id_on_line(line@) == Some(x@),
        r is None ==> id_on_line(line@) is None,
{
    let v = chars_of(line.as_str());
    let n = v.len();
    proof {
        reveal_strlit("id:");
    }
    let pat = chars_of("id:");
    assert(pat@.len() == 3);
    match find_exec(&v, &pat, 0) {
        Some(pos) => {
            proof {
                lemma_find_from(v@, pat@, 0);
                assert(find_from(v@, pat@, 0) == Some(pos as int));
            }
            assert(pos + 3 <= v@.len());
            let rest = crate::text::slice_chars(&v, pos + 3, n);
            assert(rest@ =~= line@.skip(pos + 3));
            let (lo, hi) = trim_bounds(&rest);
            let t = crate::text::slice_chars(&rest, lo, hi);
            match first_word_bounds(&t) {
                Some((a, b)) => {
                    let w = string_of(&t, a, b);
                    Some(strip_ansi(w.as_str()))
                },
                None => None,
            }
        },
        None => None,
    }
}

/// Extract gist ID from the cursor position in gists_lines.
/// Scans backwards from the cursor to find a line containing "id:" and extracts the ID.
/// Strips any ANSI escape codes that may be present in the extracted ID.
pub fn extract_gist_id(lines: &Vec<String>, cursor: usize) -> (r: Option<String>)
    ensures
        r matches Some(x) ==> gist_id_from(strings_view(lines@), cursor as int) == Some(x@),
        r is None ==> gist_id_from(strings_view(lines@), cursor as int) is None,
{
    let ghost lv = strings_view(lines@);
    let n = lines.len();
    if n == 0 {
        proof {
            if cursor > 0 {
                assert(gist_id_from(lv, cursor as int) == gist_id_from(lv, cursor - 1));
            }
            lemma_gist_id_empty(lv, cursor as int);
        }
        return None;
    }
    let mut idx = if cursor < n { cursor } else { n - 1 };
    proof {
        if cursor >= n {
            lemma_gist_id_past_end(lv, cursor as int);
        }
    }
    loop
        invariant
            idx < n,
            n == lines@.len(),
            lv == strings_view(lines@),
            gist_id_from(lv, idx as int) == gist_id_from(lv, cursor as int),
        decreases idx,
    {
        match id_on_line_exec(&lines[idx]) {
            Some(x) => {
                return Some(x);
            },
            None => {},
        }
        if idx == 0 {
            return None;
        }
        idx = idx - 1;
    }
}

proof fn lemma_gist_id_empty(lines: Seq<Seq<char>>, idx: int)
    requires
        lines.len() == 0,
    ensures
        gist_id_from(lines, idx) is None,
    decreases idx,
{
    if idx > 0 {
        lemma_gist_id_empty(lines, idx - 1);
    }
}

/// A copy of a list of lines.
pub fn clone_lines(v: &Vec<String>) -> (r: Vec<String>)
    ensures
        strings_view(r@) == strings_view(v@),
{
    let mut out: Vec<String> = Vec::new();
    let mut i: usize = 0;
    while i < v.len()
        invariant
            i <= v@.len(),
            strings_view(out@) == strings_view(v@).take(i as int),
        decreases v@.len() - i,
    {
        let ghost before = out@;
        out.push(v[i].clone());
        proof {
            lemma_strings_view_push(before, v@[i as int]);
            assert(strings_view(v@).take(i + 1) =~= strings_view(v@).take(i as int).push(v@[i as int]@));
        }
        i = i + 1;
    }
    assert(strings_view(v@).take(v@.len() as int) =~= strings_view(v@));
    out
}

// ── Filter ──────────────────────────────────────────────────────────────────

/// The gist list after `apply_gists_filter` on state `o`: with no filter all the
/// lines; otherwise the two header lines and the lines containing the filter (in
/// lower case), with the cursor and scroll kept within the list.
pub open spec fn gists_refiltered(o: AppState, f: AppState) -> bool {
    let flt = lowercase(o.gists_filter_text@);
    let kept = kept_lines(strings_view(o.gists_lines_full@), o.gists_lines_full@.len() as int, flt, seq![], seq![]);
    if flt.len() == 0 {
        &&& f == (AppState { gists_lines: f.gists_lines, ..o })
        &&& strings_view(f.gists_lines@) == strings_view(o.gists_lines_full@)
    } else {
        &&& f == (AppState {
            gists_lines: f.gists_lines,
            gists_cursor: clamped(o.gists_cursor, kept.len()),
            gists_scroll: clamped(o.gists_scroll, kept.len()),
            ..o
        })
        &&& strings_view(f.gists_lines@) == kept
    }
}

/// Apply gists filter
pub fn apply_gists_filter(app: &mut AppState)
    ensures
        gists_refiltered(*old(app), *final(app)),
{
    let f = to_lowercase(app.gists_filter_text.as_str());
    if f.as_str().unicode_len() == 0 {
        app.gists_lines = clone_lines(&app.gists_lines_full);
        return;
    }
    proof {
        reveal_strlit("");
    }
    assert(""@ =~= Seq::<char>::empty());
    let filtered = filter_lines(&app.gists_lines_full, f.as_str(), "", "");
    let n = filtered.len();
    assert(n == strings_view(filtered@).len());
    app.gists_lines = filtered;
    app.gists_cursor = if app.gists_cursor >= n { if n == 0 { 0 } else { n - 1 } } else { app.gists_cursor };
    app.gists_scroll = if app.gists_scroll >= n { if n == 0 { 0 } else { n - 1 } } else { app.gists_scroll };
}

// ── Content of a gist ───────────────────────────────────────────────────────

/// The rule under a view's header: as wide as the terminal, at most 80.
pub open spec fn rule_of(term_w: u16) -> Seq<char> {
    DIM@ + repeat('─', if term_w < 80 { term_w as int } else { 80 }) + RST@
}

pub fn rule_line_exec(term_w: u16) -> (r: String)
    ensures
        r@ == rule_of(term_w),
{
    let n: usize = if term_w < 80 { term_w as usize } else { 80 };
    let mut s = String::from_str(DIM);
    let run = repeated('─', n);
    push_str(&mut s, run.as_str());
    push_str(&mut s, RST);
    assert(run@ =~= repeat('─', n as int));
    s
}

/// The lines of the content view of a gist, from the outcome of `gh gist view`.
pub open spec fn gist_content_text(id: Seq<char>, term_w: u16, out: CmdOutcome) -> Seq<Seq<char>> {
    match out {
        CmdOutcome::NotRun(e) => seq![
            seq![' ', ' '] + LRE@ + "Error: "@ + "Failed to run `gh gist view`: "@ + e@ + RST@
        ],
        CmdOutcome::Failed(err, _) => seq![seq![' ', ' '] + LRE@ + "gh gist view failed: "@ + trimmed(err@) + RST@],
        CmdOutcome::Done(text) => seq![
            BLD@ + CYN@ + " Gist Content"@ + RST@ + "   "@ + DIM@ + "(id: "@ + id + ")"@ + RST@ + "  "@ + DIM@ + "q"@
                + RST@ + " back"@,
            rule_of(term_w),
        ] + text_lines(text@),
    }
}

fn trim_string(s: &String) -> (r: String)
    ensures
        r@ == trimmed(s@),
{
    let v = chars_of(s.as_str());
    let (lo, hi) = trim_bounds(&v);
    string_of(&v, lo, hi)
}

/// Opens the content view of gist `id` with the outcome of `gh gist view`.
pub fn show_gist_content(app: &mut AppState, id: &String, out: CmdOutcome)
    ensures
        *final(app) == (AppState {
            gist_content_lines: final(app).gist_content_lines,
            gist_content_scroll: 0,
            mode: AppMode::GistContent,
            ..*old(app)
        }),
        strings_view(final(app).gist_content_lines@) == gist_content_text(id@, old(app).term_w, out),
{
    let ghost o = out;
    proof {
        reveal_strlit("  ");
    }
    assert("  "@ =~= seq![' ', ' ']);
    let mut lines: Vec<String> = Vec::new();
    match out {
        CmdOutcome::NotRun(e) => {
            let mut l = String::from_str("  ");
            push_str(&mut l, LRE);
            push_str(&mut l, "Error: ");
            push_str(&mut l, "Failed to run `gh gist view`: ");
            push_str(&mut l, e.as_str());
            push_str(&mut l, RST);
            push_line(&mut lines, l);
            assert(strings_view(lines@) =~= gist_content_text(id@, app.term_w, o));
        },
        CmdOutcome::Failed(err, _) => {
            let mut l = String::from_str("  ");
            push_str(&mut l, LRE);
            push_str(&mut l, "gh gist view failed: ");
            let t = trim_string(&err);
            push_str(&mut l, t.as_str());
            push_str(&mut l, RST);
            push_line(&mut lines, l);
            assert(strings_view(lines@) =~= gist_content_text(id@, app.term_w, o));
        },
        CmdOutcome::Done(text) => {
            let mut h = String::from_str(BLD);
            push_str(&mut h, CYN);
            push_str(&mut h, " Gist Content");
            push_str(&mut h, RST);
            push_str(&mut h, "   ");
            push_str(&mut h, DIM);
            push_str(&mut h, "(id: ");
            push_str(&mut h, id.as_str());
            push_str(&mut h, ")");
            push_str(&mut h, RST);
            push_str(&mut h, "  ");
            push_str(&mut h, DIM);
            push_str(&mut h, "q");
            push_str(&mut h, RST);
            push_str(&mut h, " back");
            push_line(&mut lines, h);
            push_line(&mut lines, rule_line_exec(app.term_w));
            let body = split_lines(text.as_str());
            let ghost head = strings_view(lines@);
            let mut i: usize = 0;
            while i < body.len()
                invariant
                    i <= body@.len(),
                    strings_view(lines@) == head + strings_view(body@).take(i as int),
                decreases body@.len() - i,
            {
                let ghost before = strings_view(lines@);
                push_line(&mut lines, body[i].clone());
                assert(strings_view(body@).take(i + 1) =~= strings_view(body@).take(i as int).push(body@[i as int]@));
                assert(strings_view(lines@) =~= head + strings_view(body@).take(i + 1));
                i = i + 1;
            }
            assert(strings_view(body@).take(body@.len() as int) =~= strings_view(body@));
            assert(strings_view(lines@) =~= gist_content_text(id@, app.term_w, o));
        },
    }
    app.gist_content_lines = lines;
    app.gist_content_scroll = 0;
    app.mode = AppMode::GistContent;
}

/// What fetching a gist's raw content gives: the content, or the error shown.
pub open spec fn gist_fetch_result(out: CmdOutcome) -> Result<Seq<char>, Seq<char>> {
    match out {
        CmdOutcome::NotRun(e) => Err("Failed to run `gh gist view`: "@ + e@),
        CmdOutcome::Failed(err, _) => Err("gh gist view failed: "@ + trimmed(err@)),
        CmdOutcome::Done(text) => Ok(text@),
    }
}

/// After gist `id` was fetched for the clipboard (`out`) and, when fetched and
/// a clipboard tool is known, copied (`copied`).
pub fn after_gist_copy(app: &mut AppState, id: &String, out: CmdOutcome, copied: bool)
    requires
        out is Done && old(app).clipboard_cmd is Some && copied ==> hash_head_ok(id@),
    ensures
        ({
            let o = *old(app);
            let f = *final(app);
            match gist_fetch_result(out) {
                Ok(_) => if o.clipboard_cmd is Some {
                    if copied {
                        &&& f == (AppState { msg: f.msg, msg_new: true, ..o })
                        &&& f.msg@ == "Copied gist "@ + short_hash(id@) + " content to clipboard"@
                    } else {
                        f == o
                    }
                } else {
                    &&& f == (AppState { msg: f.msg, msg_new: true, ..o })
                    &&& f.msg@ == "No clipboard tool found"@
                },
                Err(e) => {
                    &&& f == (AppState { msg: f.msg, msg_new: true, ..o })
                    &&& f.msg@ == "Error: "@ + e
                },
            }
        }),
{
    match out {
        CmdOutcome::NotRun(e) => {
            let mut m = String::from_str("Error: ");
            push_str(&mut m, "Failed to run `gh gist view`: ");
            push_str(&mut m, e.as_str());
            show_msg_string(app, m);
        },
        CmdOutcome::Failed(err, _) => {
            let mut m = String::from_str("Error: ");
            push_str(&mut m, "gh gist view failed: ");
            let t = trim_string(&err);
            push_str(&mut m, t.as_str());
            show_msg_string(app, m);
        },
        CmdOutcome::Done(_) => {
            if app.clipboard_cmd.is_some() {
                if copied {
                    let hv = chars_of(id.as_str());
                    let short = match byte_head(&hv, 7) {
                        Some(x) => x,
                        None => {
                            assert(false);
                            Vec::new()
                        },
                    };
                    let ss = string_of(&short, 0, short.len());
                    assert(ss@ =~= short@);
                    show_msg_string(app, concat3("Copied gist ", ss.as_str(), " content to clipboard"));
                }
            } else {
                show_msg(app, "No clipboard tool found");
            }
        },
    }
}

// ── The gist list ───────────────────────────────────────────────────────────

/// What the list shows of a gist, as the GitHub API gives it (a field is `None`
/// when the API left it out or gave it another type; `files` are the names of
/// its files, in the API's order).
pub struct GistSummary {
    pub id: Option<String>,
    pub description: Option<String>,
    pub public: Option<bool>,
    pub html_url: Option<String>,
    pub owner: Option<String>,
    pub created_at: Option<String>,
    pub updated_at: Option<String>,
    pub comments: Option<u64>,
    pub files: Vec<String>,
}

/// A text field, or its stand-in when missing.
pub open spec fn or_text(o: Option<String>, dflt: Seq<char>) -> Seq<char> {
    match o {
        Some(s) => s@,
        None => dflt,
    }
}

fn or_text_exec(o: &Option<String>, dflt: &str) -> (r: String)
    ensures
        r@ == or_text(*o, dflt@),
{
    match o {
        Some(s) => s.clone(),
        None => String::from_str(dflt),
    }
}

/// `parts` joined by `sep`.
pub open spec fn joined(parts: Seq<Seq<char>>, sep: Seq<char>) -> Seq<char>
    decreases parts.len(),
{
    if parts.len() == 0 {
        seq![]
    } else if parts.len() == 1 {
        parts[0]
    } else {
        joined(parts.drop_last(), sep) + sep + parts.last()
    }
}

pub fn join_strings(parts: &Vec<String>, sep: &str) -> (r: String)
    ensures
        r@ == joined(strings_view(parts@), sep@),
{
    let ghost pv = strings_view(parts@);
    let mut s = String::new();
    let mut i: usize = 0;
    while i < parts.len()
        invariant
            i <= parts@.len(),
            pv == strings_view(parts@),
            s@ == joined(pv.take(i as int), sep@),
        decreases parts@.len() - i,
    {
        proof {
            assert(pv.take(i + 1).drop_last() =~= pv.take(i as int));
            assert(pv.take(i + 1).last() == parts@[i as int]@);
        }
        if i > 0 {
            push_str(&mut s, sep);
        }
        push_str(&mut s, parts[i].as_str());
        proof {
            if i == 0 {
                assert(pv.take(1) =~= seq![parts@[0]@]);
                assert(s@ =~= parts@[0]@);
            }
        }
        i = i + 1;
    }
    assert(pv.take(parts@.len() as int) =~= pv);
    s
}

/// `t` cut to at most `max` bytes: when longer, its first `max - 1` bytes (none
/// when `max` is 0) and `…`.
pub open spec fn cut_to(t: Seq<char>, max: int) -> Seq<char> {
    if byte_len(t) > max {
        byte_prefix(t, if max >= 1 { (max - 1) as nat } else { 0 })->0 + seq!['…']
    } else {
        t
    }
}

/// What cutting `t` to `max` bytes needs: the cut falls between characters.
pub open spec fn cut_ok(t: Seq<char>, max: int) -> bool {
    byte_len(t) > max ==> byte_prefix(t, if max >= 1 { (max - 1) as nat } else { 0 }) is Some
}

fn cut_to_exec(t: &String, max: usize) -> (r: String)
    requires
        cut_ok(t@, max as int),
        max < usize::MAX - 8,
    ensures
        r@ == cut_to(t@, max as int),
{
    let v = chars_of(t.as_str());
    if byte_len_exceeds(&v, max) {
        let b = if max >= 1 { max - 1 } else { 0 };
        let p = byte_prefix_chars(&v, b);
        let mut s = string_of(&p, 0, p.len());
        assert(s@ =~= p@);
        push_str(&mut s, "…");
        proof {
            reveal_strlit("…");
        }
        assert(s@ =~= cut_to(t@, max as int));
        s
    } else {
        t.clone()
    }
}

/// The first line of a gist: public or private, and its description.
pub open spec fn gist_main(g: GistSummary, term_w: u16) -> Seq<char> {
    let desc = or_text(g.description, "(no description)"@);
    let public = match g.public { Some(b) => b, None => false };
    let vis = if public { LGR@ + "PUBLIC "@ + RST@ } else { LRE@ + "PRIVATE"@ + RST@ };
    let w = term_w as int;
    seq![' ', ' '] + vis + seq![' '] + BLD@ + WHT@ + cut_to(desc, if w >= 50 { w - 50 } else { 0 }) + RST@
        + seq![' ', ' '] + GRY@ + RST@
}

/// The line of a gist's file names.
pub open spec fn gist_files_line(g: GistSummary, term_w: u16) -> Seq<char> {
    let w = term_w as int;
    seq![' ', ' '] + DIM@ + seq![' ', ' '] + RST@ + "📄"@ + DIM@ + seq![' '] + cut_to(
        joined(strings_view(g.files@), ", "@),
        if w >= 6 { w - 6 } else { 0 },
    ) + RST@
}

/// The line of a gist's owner, days, comments and id.
pub open spec fn gist_meta(g: GistSummary) -> Seq<char> {
    seq![' ', ' '] + GRY@ + "    by "@ + or_text(g.owner, "unknown"@) + RST@ + "  created: "@ + date_head(
        or_text(g.created_at, seq![]),
    ) + "  updated: "@ + date_head(or_text(g.updated_at, seq![])) + seq![' ', ' '] + LYL@ + "comments: "@
        + decimal((match g.comments { Some(n) => n, None => 0 }) as nat) + RST@ + seq![' ', ' '] + DIM@
        + "id: "@ + or_text(g.id, seq![]) + RST@
}

/// Copying or opening the gist on the line of its details acts on that gist:
/// the id read off that line is the gist's, when the id is one word without
/// escape codes and the owner and days hold no `:` (as GitHub logins and ISO
/// days do not).
#[verifier::spinoff_prover]
#[verifier::rlimit(60)]
pub proof fn law_gist_details_give_its_id(lines: Seq<Seq<char>>, idx: int, g: GistSummary, id: String)
    requires
        0 <= idx < lines.len(),
        lines[idx] == gist_meta(g),
        g.id == Some(id),
        id@.len() > 0,
        forall|k: int| 0 <= k < id@.len() ==> !is_space(#[trigger] id@[k]),
        plain(id@),
        forall|k: int| 0 <= k < or_text(g.owner, "unknown"@).len() ==> #[trigger] or_text(g.owner, "unknown"@)[k] != ':',
        forall|k: int|
            0 <= k < date_head(or_text(g.created_at, seq![])).len() ==> #[trigger] date_head(or_text(g.created_at, seq![]))[k]
                != ':',
        forall|k: int|
            0 <= k < date_head(or_text(g.updated_at, seq![])).len() ==> #[trigger] date_head(or_text(g.updated_at, seq![]))[k]
                != ':',
    ensures
        gist_id_from(lines, idx) == Some(id@),
{
    reveal_strlit("    by ");
    reveal_strlit("  created: ");
    reveal_strlit("  updated: ");
    reveal_strlit("comments: ");
    reveal_strlit("id: ");
    reveal_strlit("id:");
    reveal_strlit("\x1b[0m");
    reveal_strlit("\x1b[90m");
    reveal_strlit("\x1b[93m");
    reveal_strlit("\x1b[2m");
    let meta = gist_meta(g);
    let p1 = seq![' ', ' '] + GRY@ + "    by "@;
    let o = or_text(g.owner, "unknown"@);
    let p2 = RST@ + "  created: "@;
    let c = date_head(or_text(g.created_at, seq![]));
    let p3 = "  updated: "@;
    let u = date_head(or_text(g.updated_at, seq![]));
    let p4 = seq![' ', ' '] + LYL@ + "comments: "@;
    let d = decimal((match g.comments { Some(n) => n, None => 0 }) as nat);
    let p5 = RST@ + seq![' ', ' '] + DIM@;
    let a = p1 + o + p2 + c + p3 + u + p4 + d + p5;
    let rest = "id: "@ + id@ + RST@;
    assert(meta =~= a + rest);
    lemma_decimal_digits((match g.comments { Some(n) => n, None => 0 }) as nat);
    let pat = "id:"@;
    let o1 = p1.len() as int;
    let o2 = o1 + o.len();
    let o3 = o2 + p2.len();
    let o4 = o3 + c.len();
    let o5 = o4 + p3.len();
    let o6 = o5 + u.len();
    let o7 = o6 + p4.len();
    let o8 = o7 + d.len();
    let n = a.len() as int;
    assert(p1.len() == 14 && p2.len() == 15 && p3.len() == 11 && p4.len() == 17 && p5.len() == 10);
    assert forall|m: int| 0 <= m < n implies !matches_at(meta, pat, m) by {
        if matches_at(meta, pat, m) {
            assert(meta.subrange(m, m + 3) == pat);
            assert(meta[m] == 'i' && meta[m + 2] == ':') by {
                assert(meta.subrange(m, m + 3)[0] == meta[m]);
                assert(meta.subrange(m, m + 3)[2] == meta[m + 2]);
            }
            let x = m + 2;
            if x < o1 {
                assert(meta[x] == p1[x]);
            } else if x < o2 {
                assert(meta[x] == o[x - o1]);
            } else if x < o3 {
                assert(meta[x] == p2[x - o2]);
                if x - o2 == 13 {
                    assert(meta[m] == p2[11]);
                }
            } else if x < o4 {
                assert(meta[x] == c[x - o3]);
            } else if x < o5 {
                assert(meta[x] == p3[x - o4]);
                if x - o4 == 9 {
                    assert(meta[m] == p3[7]);
                }
            } else if x < o6 {
                assert(meta[x] == u[x - o5]);
            } else if x < o7 {
                assert(meta[x] == p4[x - o6]);
                if x - o6 == 15 {
                    assert(meta[m] == p4[13]);
                }
            } else if x < o8 {
                assert(meta[x] == d[x - o7]);
            } else if x < n {
                assert(meta[x] == p5[x - o8]);
            } else {
                assert(meta[x] == rest[x - n]);
            }
        }
    }
    assert(matches_at(meta, pat, n)) by {
        assert(meta.subrange(n, n + 3) =~= pat);
    }
    lemma_find_from_first(meta, pat, 0, n);
    let after = meta.skip(n + 3);
    assert(after =~= seq![' '] + (id@ + RST@));
    let w = id@ + RST@;
    assert(skip_space(after, 1) == 1) by {
        assert(after[1] == id@[0]);
    }
    assert(skip_space(after, 0) == 1);
    assert(drop_trailing_space(after, 1, after.len() as int) == after.len()) by {
        assert(after[after.len() - 1] == 'm');
    }
    assert(trimmed(after) =~= w);
    assert forall|k: int| 0 <= k < w.len() implies !is_space(#[trigger] w[k]) by {
        if k < id@.len() {
            assert(w[k] == id@[k]);
        }
    }
    lemma_token_end_at(w, 0, w.len() as int);
    assert(skip_space(w, 0) == 0) by {
        assert(w[0] == id@[0]);
    }
    assert(w.subrange(0, w.len() as int) =~= w);
    assert(first_word(w) == Some(w));
    lemma_stripped_plain_then_reset(id@);
    assert(id_on_line(meta) == Some(id@));
}

/// The lines of one gist in the list: the main line, the file names (when it has
/// files), the details, the link (when it has one) and a separator.
pub open spec fn gist_block(g: GistSummary, term_w: u16) -> Seq<Seq<char>> {
    let url = or_text(g.html_url, seq![]);
    seq![gist_main(g, term_w)] + (if g.files@.len() > 0 { seq![gist_files_line(g, term_w)] } else { seq![] })
        + seq![gist_meta(g)] + (if url.len() > 0 { seq![seq![' ', ' '] + GRY@ + "    "@ + url + RST@] } else {
        seq![]
    }) + seq![seq![' ', ' '] + DIM@ + "·"@ + RST@]
}

/// What listing a gist needs: its cuts and the first ten bytes of its dates fall
/// between characters.
pub open spec fn gist_ok(g: GistSummary, term_w: u16) -> bool {
    let w = term_w as int;
    &&& cut_ok(or_text(g.description, "(no description)"@), if w >= 50 { w - 50 } else { 0 })
    &&& cut_ok(joined(strings_view(g.files@), ", "@), if w >= 6 { w - 6 } else { 0 })
    &&& date10_ok(or_text(g.created_at, seq![]))
    &&& date10_ok(or_text(g.updated_at, seq![]))
}

fn cut_ok_exec(t: &String, max: usize) -> (r: bool)
    requires
        max < usize::MAX - 8,
    ensures
        r == cut_ok(t@, max as int),
{
    let v = chars_of(t.as_str());
    if byte_len_exceeds(&v, max) {
        let b = if max >= 1 { max - 1 } else { 0 };
        prefix_at(&v, b).is_some()
    } else {
        true
    }
}

fn date10_ok_exec(t: &Option<String>) -> (r: bool)
    ensures
        r == date10_ok(or_text(*t, seq![])),
{
    match t {
        Some(s) => byte_head(&chars_of(s.as_str()), 10).is_some(),
        None => {
            let e: Vec<char> = Vec::new();
            assert(e@ =~= seq![]);
            byte_head(&e, 10).is_some()
        },
    }
}

/// Whether gist `g` can be listed in a terminal `term_w` columns wide.
fn gist_ok_exec(g: &GistSummary, term_w: u16) -> (r: bool)
    ensures
        r == gist_ok(*g, term_w),
{
    let w = term_w as usize;
    let desc = or_text_exec(&g.description, "(no description)");
    let files = join_strings(&g.files, ", ");
    cut_ok_exec(&desc, if w >= 50 { w - 50 } else { 0 }) && cut_ok_exec(&files, if w >= 6 { w - 6 } else { 0 })
        && date10_ok_exec(&g.created_at) && date10_ok_exec(&g.updated_at)
}

/// What listing a reply of the API needs: every gist of it can be listed.
pub open spec fn gists_ready(gists: Option<Vec<GistSummary>>, term_w: u16) -> bool {
    match gists {
        Some(v) => forall|i: int| 0 <= i < v@.len() ==> #[trigger] gist_ok(v@[i], term_w),
        None => true,
    }
}

/// Whether a reply of the API can be listed (see `format_gists_lines`).
pub fn gists_ready_exec(gists: &Option<Vec<GistSummary>>, term_w: u16) -> (r: bool)
    ensures
        r == gists_ready(*gists, term_w),
{
    match gists {
        None => true,
        Some(v) => {
            let n = v.len();
            let mut i: usize = 0;
            while i < n
                invariant
                    i <= n,
                    n == v@.len(),
                    *gists == Some(*v),
                    forall|k: int| 0 <= k < i ==> #[trigger] gist_ok(v@[k], term_w),
                decreases n - i,
            {
                if !gist_ok_exec(&v[i], term_w) {
                    assert(!gist_ok(v@[i as int], term_w));
                    proof {
                        let vv = gists->0;
                        assert(vv == *v);
                        assert(vv@[i as int] == v@[i as int]);
                        assert(!gist_ok(vv@[i as int], term_w));
                    }
                    assert(!gists_ready(*gists, term_w));
                    return false;
                }
                i = i + 1;
            }
            true
        },
    }
}

/// The list lines of `gs[..k]`.
pub open spec fn gist_blocks(gs: Seq<GistSummary>, k: int, term_w: u16) -> Seq<Seq<char>>
    decreases k,
{
    if k <= 0 { seq![] } else { gist_blocks(gs, k - 1, term_w) + gist_block(gs[k - 1], term_w) }
}

/// The gist list for a reply of the API (`None` when the reply was not a list).
pub open spec fn gists_text(gs: Option<Seq<GistSummary>>, term_w: u16) -> Seq<Seq<char>> {
    match gs {
        None => seq![seq![' ', ' '] + LRE@ + "Unexpected response format from GitHub API."@ + RST@],
        Some(v) => if v.len() == 0 {
            seq![seq![' ', ' '] + DIM@ + "No gists found."@ + RST@]
        } else {
            seq![
                BLD@ + CYN@ + " Your Gists"@ + RST@ + seq![' ', ' '] + DIM@ + "("@ + decimal(v.len()) + " total)"@
                    + RST@ + DIM@ + seq![' ', ' '] + RST@ + "q"@ + DIM@ + " back"@ + RST@,
                rule_of(term_w),
            ] + gist_blocks(v, v.len() as int, term_w)
        },
    }
}

fn gist_main_line(g: &GistSummary, term_w: u16) -> (r: String)
    requires
        gist_ok(*g, term_w),
    ensures
        r@ == gist_main(*g, term_w),
{
    proof {
        reveal_strlit("  ");
        reveal_strlit(" ");
    }
    let desc = or_text_exec(&g.description, "(no description)");
    let public = match g.public { Some(b) => b, None => false };
    let w = term_w as usize;
    let d = cut_to_exec(&desc, if w >= 50 { w - 50 } else { 0 });
    let mut s = String::from_str("  ");
    if public {
        push_str(&mut s, LGR);
        push_str(&mut s, "PUBLIC ");
    } else {
        push_str(&mut s, LRE);
        push_str(&mut s, "PRIVATE");
    }
    push_str(&mut s, RST);
    push_str(&mut s, " ");
    push_str(&mut s, BLD);
    push_str(&mut s, WHT);
    push_str(&mut s, d.as_str());
    push_str(&mut s, RST);
    push_str(&mut s, "  ");
    push_str(&mut s, GRY);
    push_str(&mut s, RST);
    assert(s@ =~= gist_main(*g, term_w));
    s
}

#[verifier::rlimit(40)]
fn gist_meta_line(g: &GistSummary) -> (r: String)
    requires
        date10_ok(or_text(g.created_at, seq![])),
        date10_ok(or_text(g.updated_at, seq![])),
    ensures
        r@ == gist_meta(*g),
{
    proof {
        reveal_strlit("  ");
        reveal_strlit("");
    }
    assert(""@ =~= Seq::<char>::empty());
    let owner = or_text_exec(&g.owner, "unknown");
    let created = or_text_exec(&g.created_at, "");
    let updated = or_text_exec(&g.updated_at, "");
    let id = or_text_exec(&g.id, "");
    let c10 = date_head_exec(&created);
    let u10 = date_head_exec(&updated);
    let c10s = string_of(&c10, 0, c10.len());
    let u10s = string_of(&u10, 0, u10.len());
    assert(c10s@ =~= c10@);
    assert(u10s@ =~= u10@);
    let n = match g.comments { Some(n) => n, None => 0 };
    let ns = u64_to_decimal(n);
    let mut s = String::from_str("  ");
    push_str(&mut s, GRY);
    push_str(&mut s, "    by ");
    push_str(&mut s, owner.as_str());
    push_str(&mut s, RST);
    push_str(&mut s, "  created: ");
    push_str(&mut s, c10s.as_str());
    push_str(&mut s, "  updated: ");
    push_str(&mut s, u10s.as_str());
    push_str(&mut s, "  ");
    push_str(&mut s, LYL);
    push_str(&mut s, "comments: ");
    push_str(&mut s, ns.as_str());
    push_str(&mut s, RST);
    push_str(&mut s, "  ");
    push_str(&mut s, DIM);
    push_str(&mut s, "id: ");
    push_str(&mut s, id.as_str());
    push_str(&mut s, RST);
    assert(s@ =~= gist_meta(*g));
    s
}

#[verifier::rlimit(40)]
fn push_gist_block(out: &mut Vec<String>, g: &GistSummary, term_w: u16)
    requires
        gist_ok(*g, term_w),
    ensures
        strings_view(final(out)@) == strings_view(old(out)@) + gist_block(*g, term_w),
{
    proof {
        reveal_strlit("  ");
        reveal_strlit(" ");
        reveal_strlit("");
    }
    assert(""@ =~= Seq::<char>::empty());
    assert("  "@ =~= seq![' ', ' ']);
    assert(" "@ =~= seq![' ']);
    let ghost o = strings_view(out@);
    let w = term_w as usize;
    let url = or_text_exec(&g.html_url, "");
    let ghost opt_files = if g.files@.len() > 0 { seq![gist_files_line(*g, term_w)] } else { seq![] };
    let ghost opt_url = if url@.len() > 0 { seq![seq![' ', ' '] + GRY@ + "    "@ + url@ + RST@] } else { seq![] };
    let ghost sep = seq![' ', ' '] + DIM@ + "·"@ + RST@;
    push_line(out, gist_main_line(g, term_w));
    if g.files.len() > 0 {
        let fs = join_strings(&g.files, ", ");
        let disp = cut_to_exec(&fs, if w >= 6 { w - 6 } else { 0 });
        let mut l = String::from_str("  ");
        push_str(&mut l, DIM);
        push_str(&mut l, "  ");
        push_str(&mut l, RST);
        push_str(&mut l, "📄");
        push_str(&mut l, DIM);
        push_str(&mut l, " ");
        push_str(&mut l, disp.as_str());
        push_str(&mut l, RST);
        assert(l@ =~= gist_files_line(*g, term_w));
        push_line(out, l);
    }
    assert(strings_view(out@) =~= o.push(gist_main(*g, term_w)) + opt_files);
    push_line(out, gist_meta_line(g));
    if url.as_str().unicode_len() > 0 {
        let mut l = String::from_str("  ");
        push_str(&mut l, GRY);
        push_str(&mut l, "    ");
        push_str(&mut l, url.as_str());
        push_str(&mut l, RST);
        push_line(out, l);
    }
    assert(strings_view(out@) =~= (o.push(gist_main(*g, term_w)) + opt_files).push(gist_meta(*g)) + opt_url);
    let mut l = String::from_str("  ");
    push_str(&mut l, DIM);
    push_str(&mut l, "·");
    push_str(&mut l, RST);
    push_line(out, l);
    assert(gist_block(*g, term_w) =~= seq![gist_main(*g, term_w)] + opt_files + seq![gist_meta(*g)] + opt_url + seq![sep]);
    assert(strings_view(out@) =~= o + gist_block(*g, term_w));
}

pub open spec fn opt_seq(o: Option<Vec<GistSummary>>) -> Option<Seq<GistSummary>> {
    match o {
        Some(v) => Some(v@),
        None => None,
    }
}

/// Fills the gist list from a reply of the API (`None` when the reply was not a
/// list). An empty or unexpected reply leaves the unfiltered list as it was.
pub fn format_gists_lines(app: &mut AppState, gists: Option<Vec<GistSummary>>)
    requires
        gists_ready(gists, old(app).term_w),
    ensures
        ({
            let text = gists_text(opt_seq(gists), old(app).term_w);
            let listed = gists matches Some(v) && v@.len() > 0;
            &&& strings_view(final(app).gists_lines@) == text
            &&& listed ==> *final(app) == (AppState {
                gists_lines: final(app).gists_lines,
                gists_lines_full: final(app).gists_lines_full,
                gists_scroll: 0,
                mode: AppMode::Gists,
                ..*old(app)
            }) && strings_view(final(app).gists_lines_full@) == text
            &&& !listed ==> *final(app) == (AppState {
                gists_lines: final(app).gists_lines,
                gists_scroll: 0,
                mode: AppMode::Gists,
                ..*old(app)
            })
        }),
{
    proof {
        reveal_strlit("  ");
    }
    assert("  "@ =~= seq![' ', ' ']);
    let ghost gv = opt_seq(gists);
    let mut lines: Vec<String> = Vec::new();
    let mut listed = false;
    match &gists {
        None => {
            let mut l = String::from_str("  ");
            push_str(&mut l, LRE);
            push_str(&mut l, "Unexpected response format from GitHub API.");
            push_str(&mut l, RST);
            push_line(&mut lines, l);
        },
        Some(v) => {
            if v.len() == 0 {
                let mut l = String::from_str("  ");
                push_str(&mut l, DIM);
                push_str(&mut l, "No gists found.");
                push_str(&mut l, RST);
                push_line(&mut lines, l);
            } else {
                listed = true;
                let mut h = String::from_str(BLD);
                push_str(&mut h, CYN);
                push_str(&mut h, " Your Gists");
                push_str(&mut h, RST);
                push_str(&mut h, "  ");
                push_str(&mut h, DIM);
                push_str(&mut h, "(");
                let n = u64_to_decimal(v.len() as u64);
                push_str(&mut h, n.as_str());
                push_str(&mut h, " total)");
                push_str(&mut h, RST);
                push_str(&mut h, DIM);
                push_str(&mut h, "  ");
                push_str(&mut h, RST);
                push_str(&mut h, "q");
                push_str(&mut h, DIM);
                push_str(&mut h, " back");
                push_str(&mut h, RST);
                push_line(&mut lines, h);
                push_line(&mut lines, rule_line_exec(app.term_w));
                let ghost head = strings_view(lines@);
                let mut i: usize = 0;
                while i < v.len()
                    invariant
                        i <= v@.len(),
                        forall|j: int| 0 <= j < v@.len() ==> #[trigger] gist_ok(v@[j], app.term_w),
                        strings_view(lines@) == head + gist_blocks(v@, i as int, app.term_w),
                    decreases v@.len() - i,
                {
                    push_gist_block(&mut lines, &v[i], app.term_w);
                    assert(strings_view(lines@) =~= head + gist_blocks(v@, i + 1, app.term_w));
                    i = i + 1;
                }
            }
        },
    }
    assert(strings_view(lines@) =~= gists_text(gv, app.term_w));
    if listed {
        app.gists_lines_full = clone_lines(&lines);
    }
    app.gists_lines = lines;
    app.gists_scroll = 0;
    app.mode = AppMode::Gists;
}


/// Why the gist list could not be had.
pub enum GistsFailure {
    /// No GitHub token was found: gists are listed for a signed-in user only.
    NoToken,
    /// The request failed with this error.
    Fetch(String),
}

/// The lines shown when the gist list could not be had (the first is one
/// string holding two lines).
pub open spec fn gists_failure_text(f: GistsFailure) -> Seq<Seq<char>> {
    match f {
        GistsFailure::NoToken => seq![
            "  "@ + LRE@ + "GitHub token required to list gists."@ + RST@ + "\n  "@ + DIM@
                + "Set GITHUB_TOKEN or GH_TOKEN env var, or run `gh auth login`"@ + RST@,
        ],
        GistsFailure::Fetch(e) => seq!["  "@ + LRE@ + "Error fetching gists: "@ + e@ + RST@],
    }
}

/// Shows why the gist list could not be had.
pub fn show_gists_failure(app: &mut AppState, f: GistsFailure)
    ensures
        *final(app) == (AppState {
            gists_lines: final(app).gists_lines,
            gists_scroll: 0,
            mode: AppMode::Gists,
            ..*old(app)
        }),
        strings_view(final(app).gists_lines@) == gists_failure_text(f),
{
    let ghost fv = f;
    let mut lines: Vec<String> = Vec::new();
    match f {
        GistsFailure::NoToken => {
            let mut a = concat3("  ", LRE, "GitHub token required to list gists.");
            push_str(&mut a, RST);
            push_str(&mut a, "\n  ");
            push_str(&mut a, DIM);
            push_str(&mut a, "Set GITHUB_TOKEN or GH_TOKEN env var, or run `gh auth login`");
            push_str(&mut a, RST);
            push_line(&mut lines, a);
            assert(strings_view(lines@) =~= gists_failure_text(fv));
        },
        GistsFailure::Fetch(e) => {
            let mut a = concat3("  ", LRE, "Error fetching gists: ");
            push_str(&mut a, e.as_str());
            push_str(&mut a, RST);
            push_line(&mut lines, a);
            assert(strings_view(lines@) =~= gists_failure_text(fv));
        },
    }
    app.gists_lines = lines;
    app.gists_scroll = 0;
    app.mode = AppMode::Gists;
}

} // verus!

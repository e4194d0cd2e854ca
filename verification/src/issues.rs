//! GitHub issues: reading issue numbers off list lines, label autocomplete,
//! image links in an issue, and the filters of the issue list.
use vstd::prelude::*;
use crate::state::{AppMode, AppState};
use crate::text::{
    all_digits, chars_of, concat3, digits_value, ends_with, ends_with_exec, find, find_char, find_from,
    find_char_from, find_exec, first_word, first_word_bounds, is_digit, is_space, char_is_digit,
    char_is_space, contains, lowercase, matches_at, parse_u64, parsed_u64, push_char, rfind,
    rfind_exec, slice_chars, starts_with, starts_with_exec, str_contains, string_of, to_lowercase,
    trim_bounds, trimmed, rfind_from, skip_space, drop_trailing_space, lemma_skip_space_bounds,
    lemma_drop_trailing_bounds,
};

verus! {

// ── Issue numbers on list lines ─────────────────────────────────────────────

/// Reading an issue number after a `#`: whether a `#` was seen, the digits read
/// so far, and whether reading stopped (and with which number).
pub struct NumScan {
    pub finding: bool,
    pub digits: Seq<char>,
    pub done: bool,
    pub num: u64,
}

/// The digits as a `u64`, or 0 when there are none or they overflow.
pub open spec fn number_or_zero(d: Seq<char>) -> u64 {
    match parsed_u64(d) {
        Some(n) => n,
        None => 0,
    }
}

pub open spec fn num_step(st: NumScan, c: char) -> NumScan {
    if st.done {
        st
    } else if c == '#' {
        NumScan { finding: true, ..st }
    } else if st.finding {
        if is_digit(c) {
            NumScan { digits: st.digits.push(c), ..st }
        } else if st.digits.len() > 0 {
            NumScan { done: true, num: number_or_zero(st.digits), ..st }
        } else {
            NumScan { done: true, num: 0, ..st }
        }
    } else {
        st
    }
}

pub open spec fn num_run(s: Seq<char>) -> NumScan
    decreases s.len(),
{
    if s.len() == 0 {
        NumScan { finding: false, digits: seq![], done: false, num: 0 }
    } else {
        num_step(num_run(s.drop_last()), s.last())
    }
}

proof fn lemma_num_run_prefix(s: Seq<char>, k: int)
    requires
        0 <= k < s.len(),
    ensures
        num_run(s.take(k + 1)) == num_step(num_run(s.take(k)), s[k]),
{
    assert(s.take(k + 1).drop_last() =~= s.take(k));
}

proof fn lemma_num_run_no_hash(s: Seq<char>, k: int)
    requires
        0 <= k <= s.len(),
        forall|m: int| 0 <= m < k ==> s[m] != '#',
    ensures
        num_run(s.take(k)) == (NumScan { finding: false, digits: seq![], done: false, num: 0 }),
    decreases k,
{
    if k == 0 {
        assert(s.take(0) =~= Seq::<char>::empty());
    } else {
        lemma_num_run_no_hash(s, k - 1);
        lemma_num_run_prefix(s, k - 1);
    }
}

proof fn lemma_num_run_digits(s: Seq<char>, a: int, k: int)
    requires
        0 <= a <= k <= s.len(),
        num_run(s.take(a)).finding && !num_run(s.take(a)).done && num_run(s.take(a)).digits == Seq::<char>::empty(),
        forall|m: int| a <= m < k ==> is_digit(#[trigger] s[m]),
    ensures
        num_run(s.take(k)) == (NumScan { digits: s.subrange(a, k), ..num_run(s.take(a)) }),
    decreases k - a,
{
    if k == a {
        assert(s.subrange(a, a) =~= Seq::<char>::empty());
    } else {
        lemma_num_run_digits(s, a, k - 1);
        lemma_num_run_prefix(s, k - 1);
        assert(is_digit(s[k - 1]));
        assert(s.subrange(a, k - 1).push(s[k - 1]) =~= s.subrange(a, k));
    }
}

proof fn lemma_num_run_stays_done(s: Seq<char>, a: int, k: int)
    requires
        0 <= a <= k <= s.len(),
        num_run(s.take(a)).done,
    ensures
        num_run(s.take(k)) == num_run(s.take(a)),
    decreases k - a,
{
    if k > a {
        lemma_num_run_stays_done(s, a, k - 1);
        lemma_num_run_prefix(s, k - 1);
    }
}

/// The number that editing and closing read off a line whose first `#` (at
/// `h`) is followed by digits up to `e`, where some other character stands.
pub proof fn lemma_num_run_reads(s: Seq<char>, h: int, e: int)
    requires
        0 <= h < e < s.len(),
        e > h + 1,
        forall|m: int| 0 <= m < h ==> s[m] != '#',
        s[h] == '#',
        forall|m: int| h < m < e ==> is_digit(#[trigger] s[m]),
        !is_digit(s[e]),
        s[e] != '#',
    ensures
        num_run(s).num == number_or_zero(s.subrange(h + 1, e)),
{
    lemma_num_run_no_hash(s, h);
    lemma_num_run_prefix(s, h);
    lemma_num_run_digits(s, h + 1, e);
    lemma_num_run_prefix(s, e);
    lemma_num_run_stays_done(s, e + 1, s.len() as int);
    assert(s.take(s.len() as int) =~= s);
}

fn scan_number(line: &str) -> (r: (bool, Vec<char>, bool, u64))
    ensures
        ({
            let st = num_run(line@);
            r.0 == st.finding && r.1@ == st.digits && r.2 == st.done && r.3 == st.num
        }),
{
    let mut finding = false;
    let mut digits: Vec<char> = Vec::new();
    let mut done = false;
    let mut num: u64 = 0;
    proof {
        assert(line@.take(0) =~= Seq::<char>::empty());
    }
    for c in it: line.chars()
        invariant
            it.seq() == line@,
            ({
                let st = num_run(line@.take(it.index() as int));
                finding == st.finding && digits@ == st.digits && done == st.done && num == st.num
            }),
    {
        proof {
            assert(line@.take(it.index() + 1).drop_last() =~= line@.take(it.index() as int));
            assert(line@.take(it.index() + 1).last() == c);
        }
        if !done {
            if c == '#' {
                finding = true;
            } else if finding {
                if char_is_digit(c) {
                    digits.push(c);
                } else if digits.len() > 0 {
                    done = true;
                    num = match parse_u64(&digits) {
                        Some(n) => n,
                        None => 0,
                    };
                } else {
                    done = true;
                    num = 0;
                }
            }
        }
    }
    proof {
        assert(line@.take(line@.len() as int) =~= line@);
    }
    (finding, digits, done, num)
}

/// The issue number that editing and closing read off a list line: the digits
/// after a `#`, ended by some other character (0 when there is none).
pub fn issue_number_in_line(line: &str) -> (n: u64)
    ensures
        n == num_run(line@).num,
{
    let (_f, _d, _done, num) = scan_number(line);
    num
}

/// The issue number shown in the close prompt: the digits after a `#`, up to
/// the first other character or the end of the line (0 when there are none).
pub fn issue_number_for_prompt(line: &str) -> (n: u64)
    ensures
        n == number_or_zero(num_run(line@).digits),
{
    let (_f, digits, _done, _num) = scan_number(line);
    match parse_u64(&digits) {
        Some(n) => n,
        None => 0,
    }
}

/// The number that opening an issue reads off a list line: the first word
/// between the first `#` and the next `#`, as a `u64`.
pub open spec fn detail_number(line: Seq<char>) -> Option<u64> {
    match find_char_from(line, '#', 0) {
        None => None,
        Some(i) => {
            let after = line.skip(i + 1);
            let seg = after.take(
                match find_char_from(after, '#', 0) {
                    Some(j) => j,
                    None => after.len() as int,
                },
            );
            match first_word(seg) {
                Some(w) => parsed_u64(w),
                None => None,
            }
        },
    }
}

/// Reads the issue number for the detail view off a list line.
pub fn issue_number_for_detail(line: &str) -> (r: Option<u64>)
    ensures
        r == detail_number(line@),
{
    let v = chars_of(line);
    match find_char(&v, '#', 0) {
        None => None,
        Some(i) => {
            let after = slice_chars(&v, i + 1, v.len());
            assert(after@ =~= v@.skip(i + 1));
            let end = match find_char(&after, '#', 0) {
                Some(j) => j,
                None => after.len(),
            };
            let seg = slice_chars(&after, 0, end);
            assert(seg@ =~= after@.take(end as int));
            match first_word_bounds(&seg) {
                Some((a, b)) => {
                    let w = slice_chars(&seg, a, b);
                    parse_u64(&w)
                },
                None => None,
            }
        },
    }
}

// ── Label autocomplete ──────────────────────────────────────────────────────

/// The part of a comma-separated list after its last comma (all of it when there
/// is no comma).
pub open spec fn after_last_comma(s: Seq<char>) -> Seq<char> {
    match rfind(s, seq![',']) {
        Some(i) => s.skip(i + 1),
        None => s,
    }
}

/// Get the current token being typed (text after the last comma, trimmed).
pub fn get_label_current_token(input: &str) -> (r: String)
    ensures
        r@ == trimmed(after_last_comma(input@)),
{
    let v = chars_of(input);
    let n = v.len();
    let mut comma: Vec<char> = Vec::new();
    comma.push(',');
    assert(comma@ =~= seq![',']);
    let tail = match rfind_exec(&v, &comma) {
        Some(i) => {
            assert(matches_at(v@, seq![','], i as int));
            let t = slice_chars(&v, i + 1, n);
            assert(t@ =~= v@.skip(i + 1));
            t
        },
        None => v,
    };
    let (lo, hi) = trim_bounds(&tail);
    string_of(&tail, lo, hi)
}

/// `input` with its last token replaced by `new_token`: everything up to and
/// including the last comma, a space, and the new token.
pub open spec fn replaced_token(input: Seq<char>, new_token: Seq<char>) -> Seq<char> {
    match rfind(input, seq![',']) {
        Some(i) => input.take(i + 1) + seq![' '] + new_token,
        None => new_token,
    }
}

/// Replace the current token (text after the last comma) with a new token.
pub fn replace_label_current_token(input: &str, new_token: &str) -> (r: String)
    ensures
        r@ == replaced_token(input@, new_token@),
{
    let v = chars_of(input);
    let n = v.len();
    let mut comma: Vec<char> = Vec::new();
    comma.push(',');
    assert(comma@ =~= seq![',']);
    match rfind_exec(&v, &comma) {
        Some(i) => {
            assert(matches_at(v@, seq![','], i as int));
            let mut s = string_of(&v, 0, i + 1);
            push_char(&mut s, ' ');
            crate::text::push_str(&mut s, new_token);
            assert(s@ =~= v@.take(i + 1) + seq![' '] + new_token@);
            s
        },
        None => String::from_str(new_token),
    }
}

/// Looking back from `k` for a comma in `s`: the first comma found is the
/// last one at or before `k`.
proof fn lemma_rfind_comma(s: Seq<char>, k: int)
    requires
        k < s.len(),
    ensures
        rfind_from(s, seq![','], k) matches Some(j) ==> 0 <= j <= k && s[j] == ',' && forall|m: int|
            j < m <= k ==> s[m] != ',',
        rfind_from(s, seq![','], k) is None ==> forall|m: int| 0 <= m <= k ==> s[m] != ',',
    decreases k + 1,
{
    if k >= 0 {
        assert(matches_at(s, seq![','], k) <==> s[k] == ',') by {
            if s[k] == ',' {
                assert(s.subrange(k, k + 1) =~= seq![',']);
            } else {
                assert(s.subrange(k, k + 1)[0] == s[k]);
            }
        }
        lemma_rfind_comma(s, k - 1);
    }
}

/// Picking a suggestion (`replace_label_current_token`, whose result is
/// `replaced_token`) and then reading the token being typed
/// (`get_label_current_token`, whose result is `trimmed(after_last_comma(..))`)
/// gives the suggestion back, trimmed, and what came before the last comma
/// stays as it was: when the suggestion has no comma.
pub proof fn law_replaced_token_is_current(input: Seq<char>, token: Seq<char>)
    requires
        forall|m: int| 0 <= m < token.len() ==> token[m] != ',',
    ensures
        trimmed(after_last_comma(replaced_token(input, token))) == trimmed(token),
        rfind(input, seq![',']) matches Some(i) ==> replaced_token(input, token).take(i + 1) == input.take(i + 1),
{
    let r = replaced_token(input, token);
    lemma_rfind_comma(input, input.len() - 1);
    lemma_rfind_comma(r, r.len() - 1);
    match rfind(input, seq![',']) {
        Some(i) => {
            assert(r =~= input.take(i + 1) + seq![' '] + token);
            assert(r[i] == ',');
            assert forall|m: int| i < m < r.len() implies r[m] != ',' by {
                if m > i + 1 {
                    assert(r[m] == token[m - i - 2]);
                }
            }
            let u = r.skip(i + 1);
            assert(u =~= seq![' '] + token);
            assert(r.take(i + 1) =~= input.take(i + 1));
            lemma_space_before_trim(token);
        },
        None => {
            assert(r == token);
        },
    }
}

/// A space before a text changes nothing of it once trimmed.
proof fn lemma_space_before_trim(t: Seq<char>)
    ensures
        trimmed(seq![' '] + t) == trimmed(t),
{
    let u = seq![' '] + t;
    lemma_skip_space_shift(t, 0);
    assert(skip_space(u, 0) == skip_space(u, 1));
    lemma_skip_space_bounds(t, 0);
    let lo = skip_space(t, 0);
    lemma_drop_trailing_shift(t, lo, t.len() as int);
    lemma_drop_trailing_bounds(t, lo, t.len() as int);
    let hi = drop_trailing_space(t, lo, t.len() as int);
    assert(u.subrange(lo + 1, hi + 1) =~= t.subrange(lo, hi));
}

proof fn lemma_skip_space_shift(t: Seq<char>, i: int)
    requires
        0 <= i <= t.len(),
    ensures
        skip_space(seq![' '] + t, i + 1) == skip_space(t, i) + 1,
    decreases t.len() - i,
{
    let u = seq![' '] + t;
    if i < t.len() {
        assert(u[i + 1] == t[i]);
        if is_space(t[i]) {
            lemma_skip_space_shift(t, i + 1);
        }
    }
}

proof fn lemma_drop_trailing_shift(t: Seq<char>, lo: int, j: int)
    requires
        0 <= lo <= j <= t.len(),
    ensures
        drop_trailing_space(seq![' '] + t, lo + 1, j + 1) == drop_trailing_space(t, lo, j) + 1,
    decreases j - lo,
{
    let u = seq![' '] + t;
    if lo < j {
        assert(u[j] == t[j - 1]);
        if is_space(t[j - 1]) {
            lemma_drop_trailing_shift(t, lo, j - 1);
        }
    }
}

/// The labels whose lower-case form starts with `token`, in their order.
pub open spec fn labels_starting_with(labels: Seq<Seq<char>>, token: Seq<char>) -> Seq<Seq<char>>
    decreases labels.len(),
{
    if labels.len() == 0 {
        seq![]
    } else {
        let rest = labels_starting_with(labels.drop_last(), token);
        if starts_with(lowercase(labels.last()), token) {
            rest.push(labels.last())
        } else {
            rest
        }
    }
}

pub open spec fn strings_view(v: Seq<String>) -> Seq<Seq<char>> {
    v.map_values(|s: String| s@)
}

pub proof fn lemma_strings_view_push(v: Seq<String>, x: String)
    ensures
        strings_view(v.push(x)) == strings_view(v).push(x@),
{
    assert(strings_view(v.push(x)) =~= strings_view(v).push(x@));
}

/// The labels of `available` that start with `token` (compared in lower case).
pub fn matching_labels(available: &Vec<String>, token: &str) -> (r: Vec<String>)
    ensures
        strings_view(r@) == labels_starting_with(strings_view(available@), token@),
{
    let tv = chars_of(token);
    let mut out: Vec<String> = Vec::new();
    let mut i: usize = 0;
    while i < available.len()
        invariant
            i <= available@.len(),
            tv@ == token@,
            strings_view(out@) == labels_starting_with(strings_view(available@).take(i as int), token@),
        decreases available@.len() - i,
    {
        let lower = to_lowercase(available[i].as_str());
        let lv = chars_of(lower.as_str());
        let ghost before = out@;
        assert(strings_view(available@).take(i + 1).drop_last() =~= strings_view(available@).take(i as int));
        assert(strings_view(available@).take(i + 1).last() == available@[i as int]@);
        if starts_with_exec(&lv, &tv) {
            out.push(available[i].clone());
            assert(strings_view(out@) =~= strings_view(before).push(available@[i as int]@));
        }
        i = i + 1;
    }
    assert(strings_view(available@).take(available@.len() as int) =~= strings_view(available@));
    out
}

/// Rebuild the label autocomplete list based on the current label input.
pub fn update_label_ac(app: &mut AppState)
    ensures
        ({
            let input = if old(app).mode == AppMode::IssueCreate {
                old(app).issue_create_labels_input@
            } else {
                old(app).issue_edit_labels_input@
            };
            let token = lowercase(trimmed(after_last_comma(input)));
            if old(app).mode != AppMode::IssueCreate && old(app).mode != AppMode::IssueEdit {
                *final(app) == *old(app)
            } else if token.len() == 0 {
                &&& *final(app) == (AppState { label_ac_list: final(app).label_ac_list, label_ac_idx: 0, ..*old(app) })
                &&& final(app).label_ac_list@.len() == 0
            } else {
                &&& *final(app) == (AppState { label_ac_list: final(app).label_ac_list, label_ac_idx: 0, ..*old(app) })
                &&& strings_view(final(app).label_ac_list@) == labels_starting_with(strings_view(old(app).available_labels@), token)
            }
        }),
{
    let is_create = match app.mode {
        AppMode::IssueCreate => true,
        _ => false,
    };
    let is_edit = match app.mode {
        AppMode::IssueEdit => true,
        _ => false,
    };
    if !is_create && !is_edit {
        return;
    }
    let raw = if is_create {
        get_label_current_token(app.issue_create_labels_input.as_str())
    } else {
        get_label_current_token(app.issue_edit_labels_input.as_str())
    };
    let token = to_lowercase(raw.as_str());
    if token.as_str().unicode_len() == 0 {
        app.label_ac_list = Vec::new();
        app.label_ac_idx = 0;
        return;
    }
    let matches = matching_labels(&app.available_labels, token.as_str());
    app.label_ac_list = matches;
    app.label_ac_idx = 0;
}

// ── Image links ─────────────────────────────────────────────────────────────

/// A character that ends a URL in running text.
pub open spec fn url_stop(c: char) -> bool {
    is_space(c) || c == ')' || c == '>' || c == '"' || c == '<'
}

/// The end of the URL that runs on from index `k`.
pub open spec fn url_end_from(s: Seq<char>, k: int) -> int
    decreases s.len() - k,
{
    if 0 <= k < s.len() && !url_stop(s[k]) {
        url_end_from(s, k + 1)
    } else {
        k
    }
}

pub open spec fn ext_hit(lower: Seq<char>, dot_ext: Seq<char>, dot_ext_query: Seq<char>) -> bool {
    ends_with(lower, dot_ext) || contains(lower, dot_ext_query)
}

/// A URL that looks like an image: in lower case it ends with an image file
/// extension or has one before a query, or it is a GitHub attachment.
pub open spec fn image_like(url: Seq<char>) -> bool {
    let l = lowercase(url);
    ||| ext_hit(l, ".png"@, ".png?"@)
    ||| ext_hit(l, ".jpg"@, ".jpg?"@)
    ||| ext_hit(l, ".jpeg"@, ".jpeg?"@)
    ||| ext_hit(l, ".gif"@, ".gif?"@)
    ||| ext_hit(l, ".svg"@, ".svg?"@)
    ||| ext_hit(l, ".webp"@, ".webp?"@)
    ||| ext_hit(l, ".bmp"@, ".bmp?"@)
    ||| ext_hit(l, ".ico"@, ".ico?"@)
    ||| contains(l, "github.com/user-attachments/assets/"@)
    ||| contains(l, "githubusercontent.com"@)
}

pub open spec fn trailing_punct(c: char) -> bool {
    c == '.' || c == ',' || c == ';' || c == ':' || c == '!' || c == '?'
}

/// The end of `s[..hi]` once trailing punctuation is dropped.
pub open spec fn punct_end(s: Seq<char>, hi: int) -> int
    decreases hi,
{
    if 0 < hi <= s.len() && trailing_punct(s[hi - 1]) {
        punct_end(s, hi - 1)
    } else {
        hi
    }
}

/// The image URLs of `s` from index `pos` on: each `http` starts a URL that runs
/// to the next stop character; image-like ones are kept, trailing punctuation
/// removed.
pub open spec fn image_urls_from(s: Seq<char>, pos: int) -> Seq<Seq<char>>
    decreases s.len() - pos,
{
    match find_from(s, "http"@, pos) {
        None => seq![],
        Some(st) => {
            let e = url_end_from(s, st + 1);
            let url = s.subrange(st, e);
            let here: Seq<Seq<char>> = if image_like(url) {
                seq![url.take(punct_end(url, url.len() as int))]
            } else {
                seq![]
            };
            if pos < e <= s.len() {
                here + image_urls_from(s, e)
            } else {
                here
            }
        },
    }
}

proof fn lemma_url_end(s: Seq<char>, k: int)
    requires
        0 <= k <= s.len(),
    ensures
        k <= url_end_from(s, k) <= s.len(),
    decreases s.len() - k,
{
    if k < s.len() && !url_stop(s[k]) {
        lemma_url_end(s, k + 1);
    }
}

proof fn lemma_url_end_past(s: Seq<char>, k: int, j: int)
    requires
        0 <= k <= j <= s.len(),
        forall|m: int| k <= m < j ==> !url_stop(#[trigger] s[m]),
    ensures
        j <= url_end_from(s, k),
        forall|m: int| k <= m < url_end_from(s, k) ==> !url_stop(#[trigger] s[m]),
    decreases s.len() - k,
{
    if k < s.len() && !url_stop(s[k]) {
        lemma_url_end_past(s, k + 1, if j > k { j } else { k + 1 });
    }
}

proof fn lemma_punct_end_keeps(s: Seq<char>, hi: int, j: int)
    requires
        0 < j <= hi <= s.len(),
        !trailing_punct(s[j - 1]),
    ensures
        j <= punct_end(s, hi) <= hi,
    decreases hi,
{
    if hi > j && trailing_punct(s[hi - 1]) {
        lemma_punct_end_keeps(s, hi - 1, j);
    }
}

/// What an image link is: the found links each start with `http`, hold no
/// character that ends a link (white space, `)`, `>`, `"`, `<`), and stand in
/// the text.
pub proof fn law_image_links_shape(s: Seq<char>, pos: int)
    requires
        0 <= pos,
    ensures
        forall|k: int| 0 <= k < image_urls_from(s, pos).len() ==> {
            let u = #[trigger] image_urls_from(s, pos)[k];
            &&& u.len() >= 4 && u.take(4) == "http"@
            &&& forall|m: int| 0 <= m < u.len() ==> !url_stop(#[trigger] u[m])
            &&& exists|st: int| 0 <= st && st + u.len() <= s.len() && #[trigger] s.subrange(st, st + u.len()) == u
        },
    decreases s.len() - pos,
{
    crate::text::lemma_find_from(s, "http"@, pos);
    match find_from(s, "http"@, pos) {
        None => {},
        Some(st) => {
            reveal_strlit("http");
            let h = "http"@;
            assert(s.subrange(st, st + 4) == h);
            assert forall|m: int| st + 1 <= m < st + 4 implies !url_stop(#[trigger] s[m]) by {
                assert(s[m] == s.subrange(st, st + 4)[m - st]);
            }
            lemma_url_end_past(s, st + 1, st + 4);
            lemma_url_end(s, st + 1);
            let e = url_end_from(s, st + 1);
            let url = s.subrange(st, e);
            assert(s[st] == h[0]);
            assert forall|m: int| 0 <= m < url.len() implies !url_stop(#[trigger] url[m]) by {
                if m > 0 {
                    assert(url[m] == s[st + m]);
                } else {
                    assert(h[0] == 'h');
                    assert(url[0] == s[st]);
                }
            }
            assert(url[3] == s[st + 3]);
            assert(s[st + 3] == s.subrange(st, st + 4)[3]);
            lemma_punct_end_keeps(url, url.len() as int, 4);
            let pe = punct_end(url, url.len() as int);
            let kept = url.take(pe);
            assert(kept.take(4) =~= h) by {
                assert forall|m: int| 0 <= m < 4 implies kept[m] == h[m] by {
                    assert(kept[m] == s[st + m]);
                    assert(s[st + m] == s.subrange(st, st + 4)[m]);
                }
            }
            assert(s.subrange(st, st + kept.len()) =~= kept);
            if pos < e <= s.len() {
                law_image_links_shape(s, e);
            }
            let here: Seq<Seq<char>> = if image_like(url) { seq![kept] } else { seq![] };
            let r = image_urls_from(s, pos);
            assert forall|k: int| 0 <= k < r.len() implies {
                let u = #[trigger] r[k];
                &&& u.len() >= 4 && u.take(4) == "http"@
                &&& forall|m: int| 0 <= m < u.len() ==> !url_stop(#[trigger] u[m])
                &&& exists|st2: int| 0 <= st2 && st2 + u.len() <= s.len() && #[trigger] s.subrange(st2, st2 + u.len()) == u
            } by {
                if k < here.len() {
                    assert(r[k] == kept);
                    assert forall|m: int| 0 <= m < kept.len() implies !url_stop(#[trigger] kept[m]) by {
                        assert(kept[m] == url[m]);
                    }
                } else {
                    assert(r[k] == image_urls_from(s, e)[k - here.len()]);
                }
            }
        },
    }
}

fn ext_hit_exec(lv: &Vec<char>, dot_ext: &str, dot_ext_query: &str) -> (r: bool)
    ensures
        r == ext_hit(lv@, dot_ext@, dot_ext_query@),
{
    let a = chars_of(dot_ext);
    if ends_with_exec(lv, &a) {
        return true;
    }
    let b = chars_of(dot_ext_query);
    find_exec(lv, &b, 0).is_some()
}

fn image_like_exec(url: &str) -> (r: bool)
    ensures
        r == image_like(url@),
{
    let lower = to_lowercase(url);
    let lv = chars_of(lower.as_str());
    ext_hit_exec(&lv, ".png", ".png?") || ext_hit_exec(&lv, ".jpg", ".jpg?") || ext_hit_exec(
        &lv,
        ".jpeg",
        ".jpeg?",
    ) || ext_hit_exec(&lv, ".gif", ".gif?") || ext_hit_exec(&lv, ".svg", ".svg?") || ext_hit_exec(
        &lv,
        ".webp",
        ".webp?",
    ) || ext_hit_exec(&lv, ".bmp", ".bmp?") || ext_hit_exec(&lv, ".ico", ".ico?") || str_contains(
        lower.as_str(),
        "github.com/user-attachments/assets/",
    ) || str_contains(lower.as_str(), "githubusercontent.com")
}

/// Extract image URLs from a line of text.
/// Matches URLs ending with common image extensions or GitHub user attachment URLs.
pub fn extract_image_urls(line: &str) -> (r: Vec<String>)
    ensures
        strings_view(r@) == image_urls_from(line@, 0),
{
    let v = chars_of(line);
    let n = v.len();
    let http = chars_of("http");
    proof {
        reveal_strlit("http");
    }
    let mut urls: Vec<String> = Vec::new();
    let mut pos: usize = 0;
    loop
        invariant_except_break
            pos <= n,
            n == v@.len(),
            http@ == "http"@,
            http@.len() == 4,
            strings_view(urls@) + image_urls_from(v@, pos as int) == image_urls_from(v@, 0),
        ensures
            strings_view(urls@) == image_urls_from(v@, 0),
        decreases n - pos,
    {
        match find_exec(&v, &http, pos) {
            None => {
                assert(strings_view(urls@) + Seq::<Seq<char>>::empty() =~= strings_view(urls@));
                break;
            },
            Some(st) => {
                proof {
                    crate::text::lemma_find_from(v@, http@, pos as int);
                }
                let mut e = st + 1;
                while e < n && !(char_is_space(v[e]) || v[e] == ')' || v[e] == '>' || v[e] == '"'
                    || v[e] == '<')
                    invariant
                        st < e <= n,
                        n == v@.len(),
                        url_end_from(v@, e as int) == url_end_from(v@, st + 1),
                    decreases n - e,
                {
                    e = e + 1;
                }
                let url = string_of(&v, st, e);
                let ghost before = strings_view(urls@);
                let ghost uv = v@.subrange(st as int, e as int);
                if image_like_exec(url.as_str()) {
                    let uc = chars_of(url.as_str());
                    let mut hi = uc.len();
                    while hi > 0 && (uc[hi - 1] == '.' || uc[hi - 1] == ',' || uc[hi - 1] == ';'
                        || uc[hi - 1] == ':' || uc[hi - 1] == '!' || uc[hi - 1] == '?')
                        invariant
                            hi <= uc@.len(),
                            punct_end(uc@, hi as int) == punct_end(uc@, uc@.len() as int),
                        decreases hi,
                    {
                        hi = hi - 1;
                    }
                    urls.push(string_of(&uc, 0, hi));
                    assert(uc@.subrange(0, hi as int) =~= uv.take(punct_end(uv, uv.len() as int)));
                    assert(strings_view(urls@) =~= before + seq![uv.take(punct_end(uv, uv.len() as int))]);
                }
                assert(image_urls_from(v@, pos as int) =~= (if image_like(uv) {
                    seq![uv.take(punct_end(uv, uv.len() as int))]
                } else {
                    Seq::<Seq<char>>::empty()
                }) + image_urls_from(v@, e as int));
                pos = e;
            },
        }
    }
    urls
}

// ── Filtering the issue list ────────────────────────────────────────────────

/// `[` + `name` + `]`, how labels and statuses are written on list lines.
pub open spec fn bracketed(name: Seq<char>) -> Seq<char> {
    seq!['['] + name + seq![']']
}

/// Whether line `i` of a list stays under the filters (all given in lower case):
/// the two header lines always stay; other lines must contain the text filter and
/// the bracketed label and status filters, each when it is not empty.
pub open spec fn line_kept(i: int, line: Seq<char>, f: Seq<char>, lf: Seq<char>, sf: Seq<char>) -> bool {
    let l = lowercase(line);
    i < 2 || ((f.len() == 0 || contains(l, f)) && (lf.len() == 0 || contains(l, bracketed(lf))) && (
    sf.len() == 0 || contains(l, bracketed(sf))))
}

/// The lines of `full[..k]` that stay under the filters, in order.
pub open spec fn kept_lines(full: Seq<Seq<char>>, k: int, f: Seq<char>, lf: Seq<char>, sf: Seq<char>) -> Seq<Seq<char>>
    decreases k,
{
    if k <= 0 {
        seq![]
    } else {
        let rest = kept_lines(full, k - 1, f, lf, sf);
        if line_kept(k - 1, full[k - 1], f, lf, sf) {
            rest.push(full[k - 1])
        } else {
            rest
        }
    }
}

#[verifier::spinoff_prover]
#[verifier::rlimit(40)]
proof fn lemma_kept_lines(full: Seq<Seq<char>>, k: int, f: Seq<char>, lf: Seq<char>, sf: Seq<char>)
    requires
        0 <= k <= full.len(),
    ensures
        kept_lines(full, k, f, lf, sf).len() <= k,
        kept_lines(full, k, f, lf, sf).len() >= (if k < 2 { k } else { 2 }),
        forall|m: int| 0 <= m < 2 && m < k ==> #[trigger] kept_lines(full, k, f, lf, sf)[m] == full[m],
        forall|i: int|
            0 <= i < k && line_kept(i, #[trigger] full[i], f, lf, sf) ==> kept_lines(full, k, f, lf, sf).contains(
                full[i],
            ),
        f.len() == 0 && lf.len() == 0 && sf.len() == 0 ==> kept_lines(full, k, f, lf, sf) == full.take(k),
    decreases k,
{
    if k > 0 {
        lemma_kept_lines(full, k - 1, f, lf, sf);
        let rest = kept_lines(full, k - 1, f, lf, sf);
        let t = kept_lines(full, k, f, lf, sf);
        assert forall|j: int| 0 <= j < rest.len() implies #[trigger] t[j] == rest[j] by {}
        assert forall|i: int| 0 <= i < k && line_kept(i, #[trigger] full[i], f, lf, sf) implies t.contains(full[i]) by {
            if i < k - 1 {
                assert(rest.contains(full[i]));
                let q = choose|q: int| 0 <= q < rest.len() && rest[q] == full[i];
                assert(t[q] == full[i]);
            } else {
                assert(t[t.len() - 1] == full[i]);
            }
        }
        if f.len() == 0 && lf.len() == 0 && sf.len() == 0 {
            assert(t =~= full.take(k));
        }
    }
}

/// Each kept line `j` is a line `i >= j` of the list that passes the filters.
proof fn lemma_kept_from(full: Seq<Seq<char>>, k: int, f: Seq<char>, lf: Seq<char>, sf: Seq<char>, j: int)
    requires
        0 <= k <= full.len(),
        0 <= j < kept_lines(full, k, f, lf, sf).len(),
    ensures
        exists|i: int| j <= i < k && kept_lines(full, k, f, lf, sf)[j] == #[trigger] full[i] && line_kept(i, full[i], f, lf, sf),
    decreases k,
{
    lemma_kept_lines(full, k, f, lf, sf);
    let rest = kept_lines(full, k - 1, f, lf, sf);
    let t = kept_lines(full, k, f, lf, sf);
    lemma_kept_lines(full, k - 1, f, lf, sf);
    if j < rest.len() {
        lemma_kept_from(full, k - 1, f, lf, sf, j);
        let i = choose|i: int| j <= i < k - 1 && rest[j] == #[trigger] full[i] && line_kept(i, full[i], f, lf, sf);
        assert(t[j] == rest[j]);
        assert(t[j] == full[i]);
    } else {
        assert(line_kept(k - 1, full[k - 1], f, lf, sf));
        assert(t[j] == full[k - 1]);
    }
}

/// Filtering a list keeps its two header lines, keeps only lines that pass the
/// filters (each one a line of the list, in order of the list), and with no
/// filter keeps the list as it is.
pub proof fn law_filter_keeps_headers(full: Seq<Seq<char>>, f: Seq<char>, lf: Seq<char>, sf: Seq<char>)
    ensures
        ({
            let kept = kept_lines(full, full.len() as int, f, lf, sf);
            &&& kept.len() <= full.len()
            &&& forall|m: int| 0 <= m < 2 && m < full.len() ==> #[trigger] kept[m] == full[m]
            &&& forall|j: int|
                #![trigger kept[j]]
                0 <= j < kept.len() ==> exists|i: int|
                    0 <= i < full.len() && kept[j] == #[trigger] full[i] && line_kept(i, full[i], f, lf, sf)
            &&& f.len() == 0 && lf.len() == 0 && sf.len() == 0 ==> kept == full
        }),
{
    let kept = kept_lines(full, full.len() as int, f, lf, sf);
    lemma_kept_lines(full, full.len() as int, f, lf, sf);
    assert(full.take(full.len() as int) =~= full);
    assert forall|m: int| 0 <= m < 2 && m < full.len() implies #[trigger] kept[m] == full[m] by {}
    assert forall|j: int| #![trigger kept[j]] 0 <= j < kept.len() implies exists|i: int|
        0 <= i < full.len() && kept[j] == #[trigger] full[i] && line_kept(i, full[i], f, lf, sf) by {
        lemma_kept_from(full, full.len() as int, f, lf, sf, j);
        let i = choose|i: int| j <= i < full.len() && kept[j] == #[trigger] full[i] && line_kept(i, full[i], f, lf, sf);
        assert(kept[j] == full[i]);
    }
}

/// Each filter of the issue list holds on its own, whatever the others: a line
/// below the two header lines stays only when, in lower case, it contains the
/// text filter, `[` label filter `]` and `[` status filter `]`, each one that
/// is set; and every line that contains them all stays.
pub proof fn law_each_issue_filter_holds(full: Seq<Seq<char>>, f: Seq<char>, lf: Seq<char>, sf: Seq<char>)
    ensures
        ({
            let kept = kept_lines(full, full.len() as int, f, lf, sf);
            &&& forall|j: int|
                2 <= j < kept.len() ==> {
                    let l = lowercase(#[trigger] kept[j]);
                    &&& f.len() > 0 ==> contains(l, f)
                    &&& lf.len() > 0 ==> contains(l, seq!['['] + lf + seq![']'])
                    &&& sf.len() > 0 ==> contains(l, seq!['['] + sf + seq![']'])
                }
            &&& forall|i: int|
                2 <= i < full.len() && (f.len() > 0 ==> contains(lowercase(#[trigger] full[i]), f)) && (lf.len() > 0
                    ==> contains(lowercase(full[i]), seq!['['] + lf + seq![']'])) && (sf.len() > 0 ==> contains(
                    lowercase(full[i]),
                    seq!['['] + sf + seq![']'],
                )) ==> kept.contains(full[i])
        }),
{
    let kept = kept_lines(full, full.len() as int, f, lf, sf);
    lemma_kept_lines(full, full.len() as int, f, lf, sf);
    assert forall|j: int| 2 <= j < kept.len() implies {
        let l = lowercase(#[trigger] kept[j]);
        &&& f.len() > 0 ==> contains(l, f)
        &&& lf.len() > 0 ==> contains(l, seq!['['] + lf + seq![']'])
        &&& sf.len() > 0 ==> contains(l, seq!['['] + sf + seq![']'])
    } by {
        lemma_kept_from(full, full.len() as int, f, lf, sf, j);
        let i = choose|i: int| j <= i < full.len() && kept[j] == #[trigger] full[i] && line_kept(i, full[i], f, lf, sf);
        assert(line_kept(i, full[i], f, lf, sf));
    }
    assert forall|i: int|
        2 <= i < full.len() && (f.len() > 0 ==> contains(lowercase(#[trigger] full[i]), f)) && (lf.len() > 0
            ==> contains(lowercase(full[i]), seq!['['] + lf + seq![']'])) && (sf.len() > 0 ==> contains(
            lowercase(full[i]),
            seq!['['] + sf + seq![']'],
        )) implies kept.contains(full[i]) by {
        assert(line_kept(i, full[i], f, lf, sf));
    }
}

fn bracket(name: &str) -> (r: String)
    ensures
        r@ == bracketed(name@),
{
    let mut s = String::new();
    push_char(&mut s, '[');
    crate::text::push_str(&mut s, name);
    push_char(&mut s, ']');
    assert(s@ =~= bracketed(name@));
    s
}

/// The lines of `full` that stay under the lower-case filters `f`, `lf`, `sf`.
pub fn filter_lines(full: &Vec<String>, f: &str, lf: &str, sf: &str) -> (r: Vec<String>)
    ensures
        strings_view(r@) == kept_lines(strings_view(full@), full@.len() as int, f@, lf@, sf@),
{
    let fv = chars_of(f);
    let lbv = chars_of(bracket(lf).as_str());
    let sbv = chars_of(bracket(sf).as_str());
    let f_on = fv.len() > 0;
    let l_on = lf.unicode_len() > 0;
    let s_on = sf.unicode_len() > 0;
    let ghost fullv = strings_view(full@);
    let mut out: Vec<String> = Vec::new();
    let mut i: usize = 0;
    while i < full.len()
        invariant
            i <= full@.len(),
            fullv == strings_view(full@),
            fv@ == f@,
            lbv@ == bracketed(lf@),
            sbv@ == bracketed(sf@),
            f_on == (f@.len() > 0),
            l_on == (lf@.len() > 0),
            s_on == (sf@.len() > 0),
            strings_view(out@) == kept_lines(fullv, i as int, f@, lf@, sf@),
        decreases full@.len() - i,
    {
        let keep = if i < 2 {
            true
        } else {
            let lower = to_lowercase(full[i].as_str());
            let lv = chars_of(lower.as_str());
            (!f_on || find_exec(&lv, &fv, 0).is_some()) && (!l_on || find_exec(&lv, &lbv, 0).is_some())
                && (!s_on || find_exec(&lv, &sbv, 0).is_some())
        };
        assert(keep == line_kept(i as int, fullv[i as int], f@, lf@, sf@));
        let ghost before = out@;
        if keep {
            out.push(full[i].clone());
            assert(strings_view(out@) =~= strings_view(before).push(fullv[i as int]));
        }
        i = i + 1;
    }
    out
}

/// The index clamped to the last line (0 for no lines), as the views keep their
/// cursor and scroll after filtering.
pub open spec fn clamped(x: usize, len: nat) -> usize {
    if x >= len {
        if len == 0 { 0 } else { (len - 1) as usize }
    } else {
        x
    }
}

fn clamp_index(x: usize, len: usize) -> (r: usize)
    ensures
        r == clamped(x, len as nat),
{
    if x >= len {
        if len == 0 { 0 } else { len - 1 }
    } else {
        x
    }
}

/// Filter the issues lines by the given filter text (case-insensitive match)
/// and by label filter.
/// The first two lines (header and separator) are always kept.
pub fn apply_issues_filter(app: &mut AppState)
    ensures
        ({
            let kept = kept_lines(
                strings_view(old(app).issues_lines_full@),
                old(app).issues_lines_full@.len() as int,
                lowercase(old(app).issues_filter_text@),
                lowercase(old(app).issues_label_filter@),
                lowercase(old(app).issues_project_status_filter@),
            );
            &&& *final(app) == (AppState {
                issues_lines: final(app).issues_lines,
                issues_cursor: clamped(old(app).issues_cursor, kept.len()),
                issues_scroll: clamped(old(app).issues_scroll, kept.len()),
                ..*old(app)
            })
            &&& strings_view(final(app).issues_lines@) == kept
        }),
{
    let f = to_lowercase(app.issues_filter_text.as_str());
    let lf = to_lowercase(app.issues_label_filter.as_str());
    let sf = to_lowercase(app.issues_project_status_filter.as_str());
    let filtered = filter_lines(&app.issues_lines_full, f.as_str(), lf.as_str(), sf.as_str());
    let n = filtered.len();
    assert(n == strings_view(filtered@).len());
    app.issues_lines = filtered;
    app.issues_cursor = clamp_index(app.issues_cursor, n);
    app.issues_scroll = clamp_index(app.issues_scroll, n);
}

} // verus!

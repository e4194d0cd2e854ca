//! The commit filter's regular expressions, matched without regard to the case
//! of ASCII letters (the filter puts the text in lower case first, and a letter
//! `A`-`Z` of a pattern also matches its lower-case form).
//!
//! The syntax is that of the common regex dialects: literal characters; `.`
//! (any character but a line break); classes `[...]` and `[^...]` with ranges
//! `a-z` and the escapes below; groups `(...)` and `(?:...)`; alternation `|`;
//! the anchors `^` and `$`; the repetitions `*`, `+`, `?`, `{n}`, `{n,}` and
//! `{n,m}` (counts up to 1000), each optionally followed by `?`; and the escapes
//! `\d`, `\w`, `\s` (ASCII digits, word characters and white space), `\D`, `\W`,
//! `\S`, `\n`, `\t`, `\r`, and `\` before any character that is not a letter or
//! a digit. A text that is not such a pattern is looked for as plain text.
//!
//! What a pattern matches is given as the set of positions of the text where a
//! match can end, from a set of positions where it can start: the positions are
//! `0..=t.len()`, and a set is a `Seq<bool>` of that length.
use vstd::prelude::*;

verus! {

// ── Characters ──────────────────────────────────────────────────────────────

/// The upper-case form of an ASCII letter; any other character as it is.
pub open spec fn upper(c: char) -> char {
    match c {
        'a' => 'A',
        'b' => 'B',
        'c' => 'C',
        'd' => 'D',
        'e' => 'E',
        'f' => 'F',
        'g' => 'G',
        'h' => 'H',
        'i' => 'I',
        'j' => 'J',
        'k' => 'K',
        'l' => 'L',
        'm' => 'M',
        'n' => 'N',
        'o' => 'O',
        'p' => 'P',
        'q' => 'Q',
        'r' => 'R',
        's' => 'S',
        't' => 'T',
        'u' => 'U',
        'v' => 'V',
        'w' => 'W',
        'x' => 'X',
        'y' => 'Y',
        'z' => 'Z',
        _ => c,
    }
}

/// Whether `c` lies in `lo..=hi`, its ASCII case not counted.
pub open spec fn in_range(lo: char, hi: char, c: char) -> bool {
    (lo <= c && c <= hi) || (lo <= upper(c) && upper(c) <= hi)
}

pub open spec fn is_alnum(c: char) -> bool {
    ('a' <= c && c <= 'z') || ('A' <= c && c <= 'Z') || ('0' <= c && c <= '9')
}

pub open spec fn is_word(c: char) -> bool {
    in_range('a', 'z', c) || ('0' <= c && c <= '9') || c == '_'
}

pub open spec fn is_white(c: char) -> bool {
    c == ' ' || ('\t' <= c && c <= '\r')
}

/// The escapes that a class can hold: `\d`, `\w`, `\s`, `\n`, `\t`, `\r` and a
/// non-alphanumeric character made literal.
pub open spec fn class_escape_ok(e: char) -> bool {
    e == 'd' || e == 'w' || e == 's' || e == 'n' || e == 't' || e == 'r' || !is_alnum(e)
}

/// The escapes that can stand alone: those of a class and `\D`, `\W`, `\S`.
pub open spec fn escape_ok(e: char) -> bool {
    class_escape_ok(e) || e == 'D' || e == 'W' || e == 'S'
}

/// Whether the escape `\e` matches `c`.
pub open spec fn escape_has(e: char, c: char) -> bool {
    if e == 'd' {
        '0' <= c && c <= '9'
    } else if e == 'D' {
        !('0' <= c && c <= '9')
    } else if e == 'w' {
        is_word(c)
    } else if e == 'W' {
        !is_word(c)
    } else if e == 's' {
        is_white(c)
    } else if e == 'S' {
        !is_white(c)
    } else if e == 'n' {
        c == '\n'
    } else if e == 't' {
        c == '\t'
    } else if e == 'r' {
        c == '\r'
    } else {
        in_range(e, e, c)
    }
}

pub open spec fn digit_value(c: char) -> int {
    match c {
        '0' => 0,
        '1' => 1,
        '2' => 2,
        '3' => 3,
        '4' => 4,
        '5' => 5,
        '6' => 6,
        '7' => 7,
        '8' => 8,
        '9' => 9,
        _ => 0,
    }
}

// ── Syntax ──────────────────────────────────────────────────────────────────

/// Where the class whose items start at `k` ends (just after its `]`); `first`
/// while no item was read, when a `]` is a literal.
pub open spec fn class_end(p: Seq<char>, k: int, first: bool) -> Option<int>
    decreases p.len() - k,
{
    if k < 0 || k >= p.len() {
        None
    } else if p[k] == ']' && !first {
        Some(k + 1)
    } else if p[k] == '\\' {
        if k + 1 < p.len() && class_escape_ok(p[k + 1]) {
            class_end(p, k + 2, false)
        } else {
            None
        }
    } else if k + 2 < p.len() && p[k + 1] == '-' && p[k + 2] != ']' {
        if p[k + 2] != '\\' && p[k] <= p[k + 2] {
            class_end(p, k + 3, false)
        } else {
            None
        }
    } else {
        class_end(p, k + 1, false)
    }
}

/// Whether one of the class items from `k` on matches `c`.
pub open spec fn class_has(p: Seq<char>, k: int, first: bool, c: char) -> bool
    decreases p.len() - k,
{
    if k < 0 || k >= p.len() {
        false
    } else if p[k] == ']' && !first {
        false
    } else if p[k] == '\\' {
        k + 1 < p.len() && (escape_has(p[k + 1], c) || class_has(p, k + 2, false, c))
    } else if k + 2 < p.len() && p[k + 1] == '-' && p[k + 2] != ']' {
        in_range(p[k], p[k + 2], c) || class_has(p, k + 3, false, c)
    } else {
        in_range(p[k], p[k], c) || class_has(p, k + 1, false, c)
    }
}

/// Whether the one-character atom at `i` (`.`, a class, an escape or a literal)
/// matches `c`.
pub open spec fn atom_char(p: Seq<char>, i: int, c: char) -> bool {
    if p[i] == '.' {
        c != '\n'
    } else if p[i] == '[' {
        let neg = i + 1 < p.len() && p[i + 1] == '^';
        class_has(p, if neg { i + 2 } else { i + 1 }, true, c) != neg
    } else if p[i] == '\\' {
        i + 1 < p.len() && escape_has(p[i + 1], c)
    } else {
        in_range(p[i], p[i], c)
    }
}

/// The decimal number at `k` (kept at 1001 once above 1000) and where it ends.
pub open spec fn digits(p: Seq<char>, k: int, acc: int) -> (int, int)
    decreases p.len() - k,
{
    if 0 <= k < p.len() && '0' <= p[k] && p[k] <= '9' {
        let v = acc * 10 + digit_value(p[k]);
        digits(p, k + 1, if v > 1001 { 1001 } else { v })
    } else {
        (acc, k)
    }
}

/// Past the `?` that makes a repetition lazy, if there is one.
pub open spec fn lazy_end(p: Seq<char>, k: int) -> int {
    if 0 <= k < p.len() && p[k] == '?' {
        k + 1
    } else {
        k
    }
}

/// The repetition after an atom that ends at `a`: least and greatest count (none
/// for no bound) and where it ends; once, for none.
pub open spec fn quant(p: Seq<char>, a: int) -> Option<(int, Option<int>, int)> {
    if a < 0 || a >= p.len() {
        Some((1, Some(1), a))
    } else if p[a] == '*' {
        Some((0, None, lazy_end(p, a + 1)))
    } else if p[a] == '+' {
        Some((1, None, lazy_end(p, a + 1)))
    } else if p[a] == '?' {
        Some((0, Some(1), lazy_end(p, a + 1)))
    } else if p[a] == '{' {
        let (n, e1) = digits(p, a + 1, 0);
        if e1 == a + 1 || e1 >= p.len() || n > 1000 {
            None
        } else if p[e1] == '}' {
            Some((n, Some(n), lazy_end(p, e1 + 1)))
        } else if p[e1] == ',' {
            if e1 + 1 < p.len() && p[e1 + 1] == '}' {
                Some((n, None, lazy_end(p, e1 + 2)))
            } else {
                let (m, e2) = digits(p, e1 + 1, 0);
                if e2 == e1 + 1 || e2 >= p.len() || p[e2] != '}' || m > 1000 || n > m {
                    None
                } else {
                    Some((n, Some(m), lazy_end(p, e2 + 1)))
                }
            }
        } else {
            None
        }
    } else {
        Some((1, Some(1), a))
    }
}

/// Where the inside of a group that opens at `i` starts.
pub open spec fn group_start(p: Seq<char>, i: int) -> int {
    if i + 1 < p.len() && p[i + 1] == '?' {
        i + 3
    } else {
        i + 1
    }
}

/// Where the atom at `i` ends; none when no atom starts there.
pub open spec fn atom_end(p: Seq<char>, i: int) -> Option<int>
    decreases p.len() - i, 0int,
{
    if i < 0 || i >= p.len() {
        None
    } else if p[i] == '(' {
        let s = group_start(p, i);
        if s > p.len() || (s == i + 3 && p[i + 2] != ':') {
            None
        } else {
            match alt_end(p, s) {
                Some(e) => if 0 <= e < p.len() && p[e] == ')' {
                    Some(e + 1)
                } else {
                    None
                },
                None => None,
            }
        }
    } else if p[i] == '[' {
        let neg = i + 1 < p.len() && p[i + 1] == '^';
        class_end(p, if neg { i + 2 } else { i + 1 }, true)
    } else if p[i] == '\\' {
        if i + 1 < p.len() && escape_ok(p[i + 1]) {
            Some(i + 2)
        } else {
            None
        }
    } else if p[i] == ')' || p[i] == '|' || p[i] == '*' || p[i] == '+' || p[i] == '?' || p[i] == '{' {
        None
    } else {
        Some(i + 1)
    }
}

/// Where the atom at `i` and its repetition end.
pub open spec fn piece_end(p: Seq<char>, i: int) -> Option<int>
    decreases p.len() - i, 1int,
{
    match atom_end(p, i) {
        Some(a) => match quant(p, a) {
            Some(q) => Some(q.2),
            None => None,
        },
        None => None,
    }
}

/// Where the run of pieces from `i` ends (at the end, a `|` or a `)`).
pub open spec fn cat_end(p: Seq<char>, i: int) -> Option<int>
    decreases p.len() - i, 2int,
{
    if i < 0 || i >= p.len() || p[i] == '|' || p[i] == ')' {
        Some(i)
    } else {
        match piece_end(p, i) {
            Some(k) => if i < k <= p.len() {
                cat_end(p, k)
            } else {
                None
            },
            None => None,
        }
    }
}

/// Where the alternatives from `i` end.
pub open spec fn alt_end(p: Seq<char>, i: int) -> Option<int>
    decreases p.len() - i, 3int,
{
    match cat_end(p, i) {
        Some(j) => if i <= j < p.len() && p[j] == '|' {
            alt_end(p, j + 1)
        } else {
            Some(j)
        },
        None => None,
    }
}

/// Whether `p` is a pattern of the dialect above.
pub open spec fn regex_ok(p: Seq<char>) -> bool {
    alt_end(p, 0) == Some(p.len() as int)
}

// ── Matching ────────────────────────────────────────────────────────────────

pub open spec fn set_or(a: Seq<bool>, b: Seq<bool>) -> Seq<bool> {
    Seq::new(a.len(), |j: int| a[j] || b[j])
}

/// Where the atom at `i` can end in `t`, from the start positions `s`.
pub open spec fn eval_atom(p: Seq<char>, i: int, t: Seq<char>, s: Seq<bool>) -> Seq<bool>
    decreases p.len() - i, 0int, 0int,
{
    if i < 0 || i >= p.len() {
        s
    } else if p[i] == '(' {
        let g = group_start(p, i);
        if g <= p.len() {
            eval_alt(p, g, t, s)
        } else {
            s
        }
    } else if p[i] == '^' {
        Seq::new(s.len(), |j: int| s[j] && j == 0)
    } else if p[i] == '$' {
        Seq::new(s.len(), |j: int| s[j] && j == t.len())
    } else {
        Seq::new(s.len(), |j: int| 1 <= j && j - 1 < t.len() && s[j - 1] && atom_char(p, i, t[j - 1]))
    }
}

/// The atom at `i` exactly `c` times.
pub open spec fn eval_times(p: Seq<char>, i: int, t: Seq<char>, s: Seq<bool>, c: int) -> Seq<bool>
    decreases p.len() - i, 1int, c,
{
    if c <= 0 {
        s
    } else {
        eval_times(p, i, t, eval_atom(p, i, t, s), c - 1)
    }
}

/// The atom at `i` at most `c` times.
pub open spec fn eval_upto(p: Seq<char>, i: int, t: Seq<char>, u: Seq<bool>, c: int) -> Seq<bool>
    decreases p.len() - i, 1int, c,
{
    if c <= 0 {
        u
    } else {
        eval_upto(p, i, t, set_or(u, eval_atom(p, i, t, u)), c - 1)
    }
}

/// The atom at `i` with its repetition. Without an upper bound, `t.len() + 1`
/// rounds suffice (`law_enough_rounds`): a round that adds nothing leaves the
/// set as it is, and there are only that many positions to add.
pub open spec fn eval_piece(p: Seq<char>, i: int, t: Seq<char>, s: Seq<bool>) -> Seq<bool>
    decreases p.len() - i, 2int, 0int,
{
    match atom_end(p, i) {
        Some(a) => match quant(p, a) {
            Some(q) => {
                let u = eval_times(p, i, t, s, q.0);
                match q.1 {
                    Some(m) => eval_upto(p, i, t, u, m - q.0),
                    None => eval_upto(p, i, t, u, t.len() + 1int),
                }
            },
            None => s,
        },
        None => s,
    }
}

/// The run of pieces from `i`.
pub open spec fn eval_cat(p: Seq<char>, i: int, t: Seq<char>, s: Seq<bool>) -> Seq<bool>
    decreases p.len() - i, 3int, 0int,
{
    if i < 0 || i >= p.len() || p[i] == '|' || p[i] == ')' {
        s
    } else {
        match piece_end(p, i) {
            Some(k) => if i < k <= p.len() {
                eval_cat(p, k, t, eval_piece(p, i, t, s))
            } else {
                s
            },
            None => s,
        }
    }
}

/// The alternatives from `i`.
pub open spec fn eval_alt(p: Seq<char>, i: int, t: Seq<char>, s: Seq<bool>) -> Seq<bool>
    decreases p.len() - i, 4int, 0int,
{
    let a = eval_cat(p, i, t, s);
    match cat_end(p, i) {
        Some(j) => if i <= j < p.len() && p[j] == '|' {
            set_or(a, eval_alt(p, j + 1, t, s))
        } else {
            a
        },
        None => a,
    }
}

/// Where a match of pattern `p` can end in `t`, starting anywhere.
pub open spec fn match_ends(p: Seq<char>, t: Seq<char>) -> Seq<bool> {
    eval_alt(p, 0, t, Seq::new(t.len() + 1, |x: int| true))
}

/// `p`, taken as plain text, stands at `k` in `t`.
pub open spec fn text_at(p: Seq<char>, t: Seq<char>, k: int) -> bool {
    0 <= k && k + p.len() <= t.len() && forall|m: int| 0 <= m < p.len() ==> #[trigger] in_range(p[m], p[m], t[k + m])
}

/// Whether `p` matches some part of `t`: as a pattern when it is one, else as
/// plain text.
pub open spec fn regex_matches(p: Seq<char>, t: Seq<char>) -> bool {
    if regex_ok(p) {
        exists|j: int| 0 <= j <= t.len() && #[trigger] match_ends(p, t)[j]
    } else {
        exists|k: int| #[trigger] text_at(p, t, k)
    }
}

// ── Enough rounds ───────────────────────────────────────────────────────────

/// How many positions of `u[..k]` a set holds.
pub open spec fn held(u: Seq<bool>, k: int) -> int
    decreases k,
{
    if k <= 0 {
        0
    } else {
        held(u, k - 1) + if u[k - 1] { 1int } else { 0int }
    }
}

proof fn lemma_held_grows(u: Seq<bool>, v: Seq<bool>, k: int)
    requires
        0 <= k <= u.len() == v.len(),
        forall|j: int| 0 <= j < u.len() && u[j] ==> v[j],
    ensures
        0 <= held(u, k) <= held(v, k) <= k,
        (exists|j: int| 0 <= j < k && v[j] && !u[j]) ==> held(u, k) < held(v, k),
    decreases k,
{
    if k > 0 {
        lemma_held_grows(u, v, k - 1);
        if exists|j: int| 0 <= j < k && v[j] && !u[j] {
            let j = choose|j: int| 0 <= j < k && v[j] && !u[j];
            if j < k - 1 {
                assert(exists|j2: int| 0 <= j2 < k - 1 && v[j2] && !u[j2]);
            }
        }
    }
}

proof fn lemma_upto_fixed(p: Seq<char>, i: int, t: Seq<char>, u: Seq<bool>, c: int)
    requires
        set_or(u, eval_atom(p, i, t, u)) == u,
    ensures
        eval_upto(p, i, t, u, c) == u,
    decreases c,
{
    if c > 0 {
        lemma_upto_fixed(p, i, t, u, c - 1);
    }
}

proof fn lemma_upto_stable(p: Seq<char>, i: int, t: Seq<char>, u: Seq<bool>, c: int)
    requires
        c >= u.len() - held(u, u.len() as int),
    ensures
        eval_upto(p, i, t, u, c + 1) == eval_upto(p, i, t, u, c),
    decreases c,
{
    let u1 = set_or(u, eval_atom(p, i, t, u));
    lemma_held_grows(u, u1, u.len() as int);
    if u1 =~= u {
        lemma_upto_fixed(p, i, t, u, c);
        lemma_upto_fixed(p, i, t, u, c + 1);
    } else {
        let j = choose|j: int| 0 <= j < u.len() && u1[j] != u[j];
        assert(u1[j] && !u[j]);
        assert(c >= 1);
        lemma_upto_stable(p, i, t, u1, c - 1);
    }
}

/// Repeating an atom without bound reaches all it can in `t.len() + 1` rounds:
/// any number of rounds beyond that gives the same positions.
pub proof fn law_enough_rounds(p: Seq<char>, i: int, t: Seq<char>, u: Seq<bool>, c: int)
    requires
        u.len() == t.len() + 1,
        c >= t.len() + 1,
    ensures
        eval_upto(p, i, t, u, c) == eval_upto(p, i, t, u, t.len() + 1int),
    decreases c,
{
    if c > t.len() + 1 {
        law_enough_rounds(p, i, t, u, c - 1);
        lemma_held_grows(u, u, u.len() as int);
        lemma_upto_stable(p, i, t, u, c - 1);
    }
}

// ── Plain text ──────────────────────────────────────────────────────────────

/// Whether `c` has a meaning of its own in a pattern.
pub open spec fn is_meta(c: char) -> bool {
    c == '.' || c == '*' || c == '+' || c == '?' || c == '^' || c == '$' || c == '\\' || c == '|' || c == '('
        || c == ')' || c == '[' || c == '{'
}

pub open spec fn plain(p: Seq<char>) -> bool {
    forall|m: int| 0 <= m < p.len() ==> !is_meta(#[trigger] p[m])
}

proof fn lemma_plain_syntax(p: Seq<char>, i: int)
    requires
        plain(p),
        0 <= i <= p.len(),
    ensures
        cat_end(p, i) == Some(p.len() as int),
        i < p.len() ==> piece_end(p, i) == Some(i + 1) && atom_end(p, i) == Some(i + 1) && quant(p, i + 1) == Some(
            (1int, Some(1int), i + 1),
        ),
    decreases p.len() - i,
{
    if i < p.len() {
        assert(!is_meta(p[i]));
        if i + 1 < p.len() {
            assert(!is_meta(p[i + 1]));
        }
        lemma_plain_syntax(p, i + 1);
    }
}

/// The positions where the plain text `p[i..]` ends, read from `s`.
pub open spec fn plain_ends_at(p: Seq<char>, i: int, t: Seq<char>, s: Seq<bool>, j: int) -> bool {
    let l = p.len() - i;
    &&& j - l >= 0
    &&& s[j - l]
    &&& forall|m: int| 0 <= m < l ==> #[trigger] in_range(p[i + m], p[i + m], t[j - l + m])
}

proof fn lemma_plain_eval(p: Seq<char>, i: int, t: Seq<char>, s: Seq<bool>)
    requires
        plain(p),
        0 <= i <= p.len(),
        s.len() == t.len() + 1,
    ensures
        eval_cat(p, i, t, s).len() == s.len(),
        forall|j: int| 0 <= j <= t.len() ==> (#[trigger] eval_cat(p, i, t, s)[j] <==> plain_ends_at(p, i, t, s, j)),
    decreases p.len() - i,
{
    lemma_plain_syntax(p, i);
    if i == p.len() {
        assert forall|j: int| 0 <= j <= t.len() implies (#[trigger] eval_cat(p, i, t, s)[j] <==> plain_ends_at(
            p,
            i,
            t,
            s,
            j,
        )) by {}
    } else {
        assert(!is_meta(p[i]));
        let a = eval_atom(p, i, t, s);
        assert(eval_times(p, i, t, s, 1) == eval_times(p, i, t, a, 0));
        assert(eval_piece(p, i, t, s) == a);
        lemma_plain_eval(p, i + 1, t, a);
        assert(eval_cat(p, i, t, s) == eval_cat(p, i + 1, t, a));
        let l = p.len() - i;
        assert forall|j: int| 0 <= j <= t.len() implies (#[trigger] eval_cat(p, i, t, s)[j] <==> plain_ends_at(
            p,
            i,
            t,
            s,
            j,
        )) by {
            let e = eval_cat(p, i + 1, t, a);
            if e[j] {
                assert(plain_ends_at(p, i + 1, t, a, j));
                let k = j - (l - 1);
                assert(a[k]);
                assert forall|m: int| 0 <= m < l implies #[trigger] in_range(p[i + m], p[i + m], t[j - l + m]) by {
                    if m > 0 {
                        assert(in_range(p[i + 1 + (m - 1)], p[i + 1 + (m - 1)], t[j - (l - 1) + (m - 1)]));
                    }
                }
            }
            if plain_ends_at(p, i, t, s, j) {
                let k = j - (l - 1);
                assert(in_range(p[i + 0], p[i + 0], t[j - l + 0]));
                assert(a[k]);
                assert forall|m: int| 0 <= m < l - 1 implies #[trigger] in_range(
                    p[i + 1 + m],
                    p[i + 1 + m],
                    t[j - (l - 1) + m],
                ) by {
                    assert(in_range(p[i + (m + 1)], p[i + (m + 1)], t[j - l + (m + 1)]));
                }
                assert(plain_ends_at(p, i + 1, t, a, j));
            }
        }
    }
}

/// A pattern without any character of its own meaning (`.`, `*`, `+`, `?`, `^`,
/// `$`, `\`, `|`, `(`, `)`, `[`, `{`) matches exactly the texts in which it
/// stands as plain text, ASCII case not counted: the filter of plain words
/// looks for them as text.
pub proof fn law_plain_pattern_finds_text(p: Seq<char>, t: Seq<char>)
    requires
        plain(p),
    ensures
        regex_matches(p, t) <==> exists|k: int| #[trigger] text_at(p, t, k),
{
    lemma_plain_syntax(p, 0);
    assert(alt_end(p, 0) == Some(p.len() as int));
    let all = Seq::new(t.len() + 1, |x: int| true);
    lemma_plain_eval(p, 0, t, all);
    assert(match_ends(p, t) == eval_cat(p, 0, t, all));
    if regex_matches(p, t) {
        let j = choose|j: int| 0 <= j <= t.len() && #[trigger] match_ends(p, t)[j];
        assert(plain_ends_at(p, 0, t, all, j));
        let k = j - p.len();
        assert forall|m: int| 0 <= m < p.len() implies #[trigger] in_range(p[m], p[m], t[k + m]) by {
            assert(in_range(p[0 + m], p[0 + m], t[j - p.len() + m]));
        }
        assert(text_at(p, t, k));
    }
    if exists|k: int| #[trigger] text_at(p, t, k) {
        let k = choose|k: int| #[trigger] text_at(p, t, k);
        let j = k + p.len();
        assert forall|m: int| 0 <= m < p.len() implies #[trigger] in_range(p[0 + m], p[0 + m], t[j - p.len() + m]) by {
            assert(in_range(p[m], p[m], t[k + m]));
        }
        assert(plain_ends_at(p, 0, t, all, j));
        assert(match_ends(p, t)[j]);
    }
}

// ── Executable ─────────────────────────────────────────────────────────────

pub open spec fn opt_int(o: Option<usize>) -> Option<int> {
    match o {
        Some(x) => Some(x as int),
        None => None,
    }
}

fn upper_exec(c: char) -> (r: char)
    ensures
        r == upper(c),
{
    match c {
        'a' => 'A',
        'b' => 'B',
        'c' => 'C',
        'd' => 'D',
        'e' => 'E',
        'f' => 'F',
        'g' => 'G',
        'h' => 'H',
        'i' => 'I',
        'j' => 'J',
        'k' => 'K',
        'l' => 'L',
        'm' => 'M',
        'n' => 'N',
        'o' => 'O',
        'p' => 'P',
        'q' => 'Q',
        'r' => 'R',
        's' => 'S',
        't' => 'T',
        'u' => 'U',
        'v' => 'V',
        'w' => 'W',
        'x' => 'X',
        'y' => 'Y',
        'z' => 'Z',
        _ => c,
    }
}

fn in_range_exec(lo: char, hi: char, c: char) -> (r: bool)
    ensures
        r == in_range(lo, hi, c),
{
    let u = upper_exec(c);
    (lo <= c && c <= hi) || (lo <= u && u <= hi)
}

fn is_alnum_exec(c: char) -> (r: bool)
    ensures
        r == is_alnum(c),
{
    ('a' <= c && c <= 'z') || ('A' <= c && c <= 'Z') || ('0' <= c && c <= '9')
}

fn class_escape_ok_exec(e: char) -> (r: bool)
    ensures
        r == class_escape_ok(e),
{
    e == 'd' || e == 'w' || e == 's' || e == 'n' || e == 't' || e == 'r' || !is_alnum_exec(e)
}

fn escape_ok_exec(e: char) -> (r: bool)
    ensures
        r == escape_ok(e),
{
    class_escape_ok_exec(e) || e == 'D' || e == 'W' || e == 'S'
}

fn escape_has_exec(e: char, c: char) -> (r: bool)
    ensures
        r == escape_has(e, c),
{
    let digit = '0' <= c && c <= '9';
    let word = in_range_exec('a', 'z', c) || digit || c == '_';
    let white = c == ' ' || ('\t' <= c && c <= '\r');
    if e == 'd' {
        digit
    } else if e == 'D' {
        !digit
    } else if e == 'w' {
        word
    } else if e == 'W' {
        !word
    } else if e == 's' {
        white
    } else if e == 'S' {
        !white
    } else if e == 'n' {
        c == '\n'
    } else if e == 't' {
        c == '\t'
    } else if e == 'r' {
        c == '\r'
    } else {
        in_range_exec(e, e, c)
    }
}

fn digit_value_exec(c: char) -> (r: usize)
    ensures
        r == digit_value(c),
        r <= 9,
{
    match c {
        '0' => 0,
        '1' => 1,
        '2' => 2,
        '3' => 3,
        '4' => 4,
        '5' => 5,
        '6' => 6,
        '7' => 7,
        '8' => 8,
        '9' => 9,
        _ => 0,
    }
}

fn class_end_exec(p: &Vec<char>, k: usize, first: bool) -> (r: Option<usize>)
    requires
        k <= p@.len(),
    ensures
        opt_int(r) == class_end(p@, k as int, first),
        r matches Some(e) ==> k < e <= p@.len(),
    decreases p@.len() - k,
{
    if k >= p.len() {
        None
    } else if p[k] == ']' && !first {
        Some(k + 1)
    } else if p[k] == '\\' {
        if p.len() - k > 1 && class_escape_ok_exec(p[k + 1]) {
            class_end_exec(p, k + 2, false)
        } else {
            None
        }
    } else if p.len() - k > 2 && p[k + 1] == '-' && p[k + 2] != ']' {
        if p[k + 2] != '\\' && p[k] <= p[k + 2] {
            class_end_exec(p, k + 3, false)
        } else {
            None
        }
    } else {
        class_end_exec(p, k + 1, false)
    }
}

fn class_has_exec(p: &Vec<char>, k: usize, first: bool, c: char) -> (r: bool)
    requires
        k <= p@.len(),
    ensures
        r == class_has(p@, k as int, first, c),
    decreases p@.len() - k,
{
    if k >= p.len() {
        false
    } else if p[k] == ']' && !first {
        false
    } else if p[k] == '\\' {
        p.len() - k > 1 && (escape_has_exec(p[k + 1], c) || class_has_exec(p, k + 2, false, c))
    } else if p.len() - k > 2 && p[k + 1] == '-' && p[k + 2] != ']' {
        in_range_exec(p[k], p[k + 2], c) || class_has_exec(p, k + 3, false, c)
    } else {
        in_range_exec(p[k], p[k], c) || class_has_exec(p, k + 1, false, c)
    }
}

fn atom_char_exec(p: &Vec<char>, i: usize, c: char) -> (r: bool)
    requires
        i < p@.len(),
    ensures
        r == atom_char(p@, i as int, c),
{
    if p[i] == '.' {
        c != '\n'
    } else if p[i] == '[' {
        let neg = p.len() - i > 1 && p[i + 1] == '^';
        class_has_exec(p, if neg { i + 2 } else { i + 1 }, true, c) != neg
    } else if p[i] == '\\' {
        p.len() - i > 1 && escape_has_exec(p[i + 1], c)
    } else {
        in_range_exec(p[i], p[i], c)
    }
}

fn digits_exec(p: &Vec<char>, k: usize, acc: usize) -> (r: (usize, usize))
    requires
        k <= p@.len(),
        acc <= 1001,
    ensures
        (r.0 as int, r.1 as int) == digits(p@, k as int, acc as int),
        r.0 <= 1001,
        k <= r.1 <= p@.len(),
    decreases p@.len() - k,
{
    if k < p.len() && '0' <= p[k] && p[k] <= '9' {
        let v = acc * 10 + digit_value_exec(p[k]);
        digits_exec(p, k + 1, if v > 1001 { 1001 } else { v })
    } else {
        (acc, k)
    }
}

fn lazy_end_exec(p: &Vec<char>, k: usize) -> (r: usize)
    requires
        k <= p@.len(),
    ensures
        r == lazy_end(p@, k as int),
        r <= p@.len(),
{
    if k < p.len() && p[k] == '?' {
        k + 1
    } else {
        k
    }
}

/// A repetition as the executable code reads it.
pub open spec fn quant_view(q: (usize, Option<usize>, usize)) -> (int, Option<int>, int) {
    (q.0 as int, opt_int(q.1), q.2 as int)
}

fn quant_exec(p: &Vec<char>, a: usize) -> (r: Option<(usize, Option<usize>, usize)>)
    requires
        a <= p@.len(),
    ensures
        match r {
            Some(q) => quant(p@, a as int) == Some(quant_view(q)) && q.2 <= p@.len() && q.0 <= 1000 && (q.1 matches Some(
                m,
            ) ==> q.0 <= m),
            None => quant(p@, a as int) is None,
        },
{
    if a >= p.len() {
        Some((1, Some(1), a))
    } else if p[a] == '*' {
        Some((0, None, lazy_end_exec(p, a + 1)))
    } else if p[a] == '+' {
        Some((1, None, lazy_end_exec(p, a + 1)))
    } else if p[a] == '?' {
        Some((0, Some(1), lazy_end_exec(p, a + 1)))
    } else if p[a] == '{' {
        let (n, e1) = digits_exec(p, a + 1, 0);
        if e1 == a + 1 || e1 >= p.len() || n > 1000 {
            None
        } else if p[e1] == '}' {
            Some((n, Some(n), lazy_end_exec(p, e1 + 1)))
        } else if p[e1] == ',' {
            if p.len() - e1 > 1 && p[e1 + 1] == '}' {
                Some((n, None, lazy_end_exec(p, e1 + 2)))
            } else {
                let (m, e2) = digits_exec(p, e1 + 1, 0);
                if e2 == e1 + 1 || e2 >= p.len() || p[e2] != '}' || m > 1000 || n > m {
                    None
                } else {
                    Some((n, Some(m), lazy_end_exec(p, e2 + 1)))
                }
            }
        } else {
            None
        }
    } else {
        Some((1, Some(1), a))
    }
}

fn atom_end_exec(p: &Vec<char>, i: usize) -> (r: Option<usize>)
    requires
        i <= p@.len(),
    ensures
        opt_int(r) == atom_end(p@, i as int),
        r matches Some(e) ==> i < e <= p@.len(),
    decreases p@.len() - i, 0int,
{
    if i >= p.len() {
        None
    } else if p[i] == '(' {
        let q = p.len() - i > 1 && p[i + 1] == '?';
        if q && !(p.len() - i > 2 && p[i + 2] == ':') {
            None
        } else {
            let s = if q { i + 3 } else { i + 1 };
            match alt_end_exec(p, s) {
                Some(e) => if e < p.len() && p[e] == ')' {
                    Some(e + 1)
                } else {
                    None
                },
                None => None,
            }
        }
    } else if p[i] == '[' {
        let neg = p.len() - i > 1 && p[i + 1] == '^';
        class_end_exec(p, if neg { i + 2 } else { i + 1 }, true)
    } else if p[i] == '\\' {
        if p.len() - i > 1 && escape_ok_exec(p[i + 1]) {
            Some(i + 2)
        } else {
            None
        }
    } else if p[i] == ')' || p[i] == '|' || p[i] == '*' || p[i] == '+' || p[i] == '?' || p[i] == '{' {
        None
    } else {
        Some(i + 1)
    }
}

fn piece_end_exec(p: &Vec<char>, i: usize) -> (r: Option<usize>)
    requires
        i <= p@.len(),
    ensures
        opt_int(r) == piece_end(p@, i as int),
        r matches Some(e) ==> e <= p@.len(),
    decreases p@.len() - i, 1int,
{
    match atom_end_exec(p, i) {
        Some(a) => match quant_exec(p, a) {
            Some(q) => Some(q.2),
            None => None,
        },
        None => None,
    }
}

fn cat_end_exec(p: &Vec<char>, i: usize) -> (r: Option<usize>)
    requires
        i <= p@.len(),
    ensures
        opt_int(r) == cat_end(p@, i as int),
        r matches Some(e) ==> i <= e <= p@.len(),
    decreases p@.len() - i, 2int,
{
    if i >= p.len() || p[i] == '|' || p[i] == ')' {
        Some(i)
    } else {
        match piece_end_exec(p, i) {
            Some(k) => if i < k && k <= p.len() {
                cat_end_exec(p, k)
            } else {
                None
            },
            None => None,
        }
    }
}

fn alt_end_exec(p: &Vec<char>, i: usize) -> (r: Option<usize>)
    requires
        i <= p@.len(),
    ensures
        opt_int(r) == alt_end(p@, i as int),
        r matches Some(e) ==> i <= e <= p@.len(),
    decreases p@.len() - i, 3int,
{
    match cat_end_exec(p, i) {
        Some(j) => if i <= j && j < p.len() && p[j] == '|' {
            alt_end_exec(p, j + 1)
        } else {
            Some(j)
        },
        None => None,
    }
}

fn copy_set(s: &Vec<bool>) -> (r: Vec<bool>)
    ensures
        r@ == s@,
{
    let mut out: Vec<bool> = Vec::new();
    let mut j: usize = 0;
    while j < s.len()
        invariant
            j <= s@.len(),
            out@ == s@.take(j as int),
        decreases s@.len() - j,
    {
        out.push(s[j]);
        assert(s@.take(j + 1) =~= s@.take(j as int).push(s@[j as int]));
        j = j + 1;
    }
    assert(s@.take(s@.len() as int) =~= s@);
    out
}

fn set_or_exec(a: &Vec<bool>, b: &Vec<bool>) -> (r: Vec<bool>)
    requires
        a@.len() == b@.len(),
    ensures
        r@ == set_or(a@, b@),
{
    let mut out: Vec<bool> = Vec::new();
    let mut j: usize = 0;
    while j < a.len()
        invariant
            j <= a@.len(),
            a@.len() == b@.len(),
            out@.len() == j,
            forall|x: int| 0 <= x < j ==> out@[x] == (a@[x] || b@[x]),
        decreases a@.len() - j,
    {
        out.push(a[j] || b[j]);
        j = j + 1;
    }
    assert(out@ =~= set_or(a@, b@));
    out
}

/// The positions reached by the one-character atom at `i`, or by an anchor.
fn step_exec(p: &Vec<char>, i: usize, t: &Vec<char>, s: &Vec<bool>) -> (r: Vec<bool>)
    requires
        i < p@.len(),
        p@[i as int] != '(',
        s@.len() == t@.len() + 1,
    ensures
        r@ == eval_atom(p@, i as int, t@, s@),
{
    let n = t.len();
    let mut out: Vec<bool> = Vec::new();
    let mut j: usize = 0;
    let ghost e = eval_atom(p@, i as int, t@, s@);
    loop
        invariant_except_break
            j <= n,
            out@.len() == j,
            forall|x: int| 0 <= x < j ==> out@[x] == e[x],
        invariant
            n == t@.len(),
            s@.len() == n + 1,
            i < p@.len(),
            p@[i as int] != '(',
            e == eval_atom(p@, i as int, t@, s@),
        ensures
            out@.len() == n + 1,
            forall|x: int| 0 <= x <= n ==> out@[x] == e[x],
        decreases n - j,
    {
        let v = if p[i] == '^' {
            s[j] && j == 0
        } else if p[i] == '$' {
            s[j] && j == n
        } else {
            j >= 1 && s[j - 1] && atom_char_exec(p, i, t[j - 1])
        };
        out.push(v);
        if j == n {
            break;
        }
        j = j + 1;
    }
    assert(out@ =~= e);
    out
}

fn eval_atom_exec(p: &Vec<char>, i: usize, t: &Vec<char>, s: &Vec<bool>) -> (r: Vec<bool>)
    requires
        i <= p@.len(),
        s@.len() == t@.len() + 1,
    ensures
        r@ == eval_atom(p@, i as int, t@, s@),
        r@.len() == s@.len(),
    decreases p@.len() - i, 0int, 0int,
{
    if i >= p.len() {
        copy_set(s)
    } else if p[i] == '(' {
        let q = p.len() - i > 1 && p[i + 1] == '?';
        if q && !(p.len() - i > 2) {
            copy_set(s)
        } else {
            let g = if q { i + 3 } else { i + 1 };
            eval_alt_exec(p, g, t, s)
        }
    } else {
        step_exec(p, i, t, s)
    }
}

fn eval_times_exec(p: &Vec<char>, i: usize, t: &Vec<char>, s: &Vec<bool>, c: usize) -> (r: Vec<bool>)
    requires
        i <= p@.len(),
        s@.len() == t@.len() + 1,
    ensures
        r@ == eval_times(p@, i as int, t@, s@, c as int),
        r@.len() == s@.len(),
    decreases p@.len() - i, 1int, c,
{
    if c == 0 {
        copy_set(s)
    } else {
        let a = eval_atom_exec(p, i, t, s);
        eval_times_exec(p, i, t, &a, c - 1)
    }
}

fn eval_upto_exec(p: &Vec<char>, i: usize, t: &Vec<char>, u: &Vec<bool>, c: usize) -> (r: Vec<bool>)
    requires
        i <= p@.len(),
        u@.len() == t@.len() + 1,
    ensures
        r@ == eval_upto(p@, i as int, t@, u@, c as int),
        r@.len() == u@.len(),
    decreases p@.len() - i, 1int, c,
{
    if c == 0 {
        copy_set(u)
    } else {
        let a = eval_atom_exec(p, i, t, u);
        let u1 = set_or_exec(u, &a);
        eval_upto_exec(p, i, t, &u1, c - 1)
    }
}

fn eval_piece_exec(p: &Vec<char>, i: usize, t: &Vec<char>, s: &Vec<bool>) -> (r: Vec<bool>)
    requires
        i <= p@.len(),
        s@.len() == t@.len() + 1,
    ensures
        r@ == eval_piece(p@, i as int, t@, s@),
        r@.len() == s@.len(),
    decreases p@.len() - i, 2int, 0int,
{
    match atom_end_exec(p, i) {
        Some(a) => match quant_exec(p, a) {
            Some(q) => {
                let u = eval_times_exec(p, i, t, s, q.0);
                match q.1 {
                    Some(m) => eval_upto_exec(p, i, t, &u, m - q.0),
                    None => {
                        let a1 = eval_atom_exec(p, i, t, &u);
                        let u1 = set_or_exec(&u, &a1);
                        eval_upto_exec(p, i, t, &u1, t.len())
                    },
                }
            },
            None => copy_set(s),
        },
        None => copy_set(s),
    }
}

fn eval_cat_exec(p: &Vec<char>, i: usize, t: &Vec<char>, s: &Vec<bool>) -> (r: Vec<bool>)
    requires
        i <= p@.len(),
        s@.len() == t@.len() + 1,
    ensures
        r@ == eval_cat(p@, i as int, t@, s@),
        r@.len() == s@.len(),
    decreases p@.len() - i, 3int, 0int,
{
    if i >= p.len() || p[i] == '|' || p[i] == ')' {
        copy_set(s)
    } else {
        match piece_end_exec(p, i) {
            Some(k) => if i < k && k <= p.len() {
                let a = eval_piece_exec(p, i, t, s);
                eval_cat_exec(p, k, t, &a)
            } else {
                copy_set(s)
            },
            None => copy_set(s),
        }
    }
}

fn eval_alt_exec(p: &Vec<char>, i: usize, t: &Vec<char>, s: &Vec<bool>) -> (r: Vec<bool>)
    requires
        i <= p@.len(),
        s@.len() == t@.len() + 1,
    ensures
        r@ == eval_alt(p@, i as int, t@, s@),
        r@.len() == s@.len(),
    decreases p@.len() - i, 4int, 0int,
{
    let a = eval_cat_exec(p, i, t, s);
    match cat_end_exec(p, i) {
        Some(j) => if i <= j && j < p.len() && p[j] == '|' {
            let b = eval_alt_exec(p, j + 1, t, s);
            set_or_exec(&a, &b)
        } else {
            a
        },
        None => a,
    }
}

/// Whether `p` matches some part of `t` (see `regex_matches`).
pub fn regex_matches_exec(p: &Vec<char>, t: &Vec<char>) -> (r: bool)
    ensures
        r == regex_matches(p@, t@),
{
    let ok = match alt_end_exec(p, 0) {
        Some(e) => e == p.len(),
        None => false,
    };
    let n = t.len();
    proof {
        if ok {
            assert(regex_ok(p@));
        } else {
            assert(!regex_ok(p@));
        }
    }
    if ok {
        let mut all: Vec<bool> = Vec::new();
        let mut j: usize = 0;
        loop
            invariant_except_break
                j <= n,
                all@.len() == j,
            invariant
                n == t@.len(),
                forall|x: int| 0 <= x < all@.len() ==> all@[x],
            ensures
                all@.len() == n + 1,
            decreases n - j,
        {
            all.push(true);
            if j == n {
                break;
            }
            j = j + 1;
        }
        assert(all@ =~= Seq::new(t@.len() + 1, |x: int| true));
        let ends = eval_alt_exec(p, 0, t, &all);
        let mut k: usize = 0;
        while k < ends.len()
            invariant
                k <= ends@.len(),
                ends@.len() == n + 1,
                n == t@.len(),
                ends@ == match_ends(p@, t@),
                regex_ok(p@),
                forall|x: int| 0 <= x < k ==> !ends@[x],
            decreases ends@.len() - k,
        {
            if ends[k] {
                assert(match_ends(p@, t@)[k as int]);
                assert(regex_ok(p@));
                assert(regex_matches(p@, t@));
                return true;
            }
            k = k + 1;
        }
        false
    } else {
        let m = p.len();
        if m > n {
            assert forall|k: int| !text_at(p@, t@, k) by {}
            return false;
        }
        let mut k: usize = 0;
        while k <= n - m
            invariant
                m == p@.len(),
                n == t@.len(),
                m <= n,
                !regex_ok(p@),
                forall|x: int| 0 <= x < k ==> !text_at(p@, t@, x),
            decreases n - m + 1 - k,
        {
            let mut q: usize = 0;
            let mut same = true;
            while q < m && same
                invariant
                    q <= m,
                    k + m <= n,
                    m == p@.len(),
                    n == t@.len(),
                    same ==> forall|y: int| 0 <= y < q ==> in_range(p@[y], p@[y], t@[k + y]),
                    !same ==> !text_at(p@, t@, k as int),
                decreases m - q + (if same { 1int } else { 0int }),
            {
                if !in_range_exec(p[q], p[q], t[k + q]) {
                    same = false;
                    assert(!in_range(p@[q as int], p@[q as int], t@[k + q]));
                } else {
                    q = q + 1;
                }
            }
            if same {
                assert(text_at(p@, t@, k as int));
                assert(!regex_ok(p@));
                assert(regex_matches(p@, t@));
                return true;
            }
            k = k + 1;
        }
        assert forall|x: int| !text_at(p@, t@, x) by {
            if 0 <= x && x < k {
            }
        }
        false
    }
}



} // verus!

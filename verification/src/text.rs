//! Small character and string helpers shared by the formatting code.
use vstd::prelude::*;

verus! {

/// `char::is_ascii_alphabetic`: `A..=Z` or `a..=z`.
pub open spec fn is_alpha(c: char) -> bool {
    ('a' <= c && c <= 'z') || ('A' <= c && c <= 'Z')
}

/// `char::is_ascii_digit`: `0..=9`.
pub open spec fn is_digit(c: char) -> bool {
    '0' <= c && c <= '9'
}

/// `char::is_whitespace`: the Unicode `White_Space` property.
pub open spec fn is_space(c: char) -> bool {
    ||| ('\t' <= c && c <= '\r')
    ||| c == ' '
    ||| c == '\u{85}'
    ||| c == '\u{a0}'
    ||| c == '\u{1680}'
    ||| ('\u{2000}' <= c && c <= '\u{200a}')
    ||| c == '\u{2028}'
    ||| c == '\u{2029}'
    ||| c == '\u{202f}'
    ||| c == '\u{205f}'
    ||| c == '\u{3000}'
}

pub fn char_is_alpha(c: char) -> (r: bool)
    ensures
        r == is_alpha(c),
{
    ('a' <= c && c <= 'z') || ('A' <= c && c <= 'Z')
}

pub fn char_is_digit(c: char) -> (r: bool)
    ensures
        r == is_digit(c),
{
    '0' <= c && c <= '9'
}

pub fn char_is_space(c: char) -> (r: bool)
    ensures
        r == is_space(c),
{
    ('\t' <= c && c <= '\r') || c == ' ' || c == '\u{85}' || c == '\u{a0}' || c == '\u{1680}'
        || ('\u{2000}' <= c && c <= '\u{200a}') || c == '\u{2028}' || c == '\u{2029}'
        || c == '\u{202f}' || c == '\u{205f}' || c == '\u{3000}'
}

/// Appends one character: `String::push`.
#[verifier::external_body]
pub(crate) fn push_char(s: &mut String, c: char)
    ensures
        final(s)@ == old(s)@.push(c),
{
    s.push(c);
}

/// The characters of a string slice, in order.
pub fn chars_of(s: &str) -> (v: Vec<char>)
    ensures
        v@ == s@,
{
    let mut v: Vec<char> = Vec::new();
    for c in it: s.chars()
        invariant
            it.seq() == s@,
            v@ == s@.take(it.index() as int),
    {
        assert(s@.take(it.index() + 1) =~= s@.take(it.index() as int).push(c));
        v.push(c);
    }
    assert(s@.take(s@.len() as int) =~= s@);
    v
}

/// The string made of the characters `v[lo..hi]`.
pub fn string_of(v: &Vec<char>, lo: usize, hi: usize) -> (s: String)
    requires
        lo <= hi <= v@.len(),
    ensures
        s@ == v@.subrange(lo as int, hi as int),
{
    let mut s = String::new();
    let mut i = lo;
    while i < hi
        invariant
            lo <= i <= hi <= v@.len(),
            s@ == v@.subrange(lo as int, i as int),
        decreases hi - i,
    {
        push_char(&mut s, v[i]);
        assert(v@.subrange(lo as int, i + 1) =~= v@.subrange(lo as int, i as int).push(v@[i as int]));
        i = i + 1;
    }
    s
}

/// Appends a whole string slice.
pub fn push_str(s: &mut String, t: &str)
    ensures
        final(s)@ == old(s)@ + t@,
{
    s.append(t);
}

/// Decimal digits of a natural number, most significant first, no leading zeros
/// (a single `0` for zero).
pub open spec fn decimal(n: nat) -> Seq<char>
    decreases n,
{
    if n < 10 {
        seq![digit_char(n)]
    } else {
        decimal(n / 10).push(digit_char(n % 10))
    }
}

pub open spec fn digit_char(d: nat) -> char {
    (('0' as u32) + d) as char
}

/// The digit characters are the ASCII digits.
pub proof fn lemma_digit_char(d: nat)
    requires
        d < 10,
    ensures
        digit_char(d) as u32 == 48 + d,
        is_digit(digit_char(d)),
        !is_space(digit_char(d)),
{
    vstd::utf8::char_u32_cast(digit_char(d), digit_char(d) as u32);
    assert(digit_char(d) as u32 == 48 + d);
}

/// The decimal digits of `n`: at least one, all digits, worth `n`.
pub proof fn lemma_decimal_digits(n: nat)
    ensures
        decimal(n).len() > 0,
        all_digits(decimal(n)),
        digits_value(decimal(n)) == n,
        forall|i: int| 0 <= i < decimal(n).len() ==> !is_space(#[trigger] decimal(n)[i]) && decimal(n)[i] != '#'
            && decimal(n)[i] != '+',
    decreases n,
{
    assert(('0' as u32) == 48);
    if n < 10 {
        lemma_digit_char(n);
        assert(decimal(n).drop_last() =~= Seq::<char>::empty());
        assert(digits_value(decimal(n)) == digits_value(Seq::<char>::empty()) * 10 + n);
    } else {
        lemma_decimal_digits(n / 10);
        lemma_digit_char(n % 10);
        let d = decimal(n);
        assert(d.drop_last() =~= decimal(n / 10));
        assert(d.last() == digit_char(n % 10));
        assert(digits_value(d) == digits_value(decimal(n / 10)) * 10 + n % 10);
        assert((n / 10) * 10 + n % 10 == n);
        assert forall|i: int| 0 <= i < d.len() implies is_digit(#[trigger] d[i]) by {
            if i < d.len() - 1 {
                assert(d[i] == decimal(n / 10)[i]);
            }
        }
        assert forall|i: int| 0 <= i < d.len() implies !is_space(#[trigger] d[i]) && d[i] != '#' && d[i] != '+' by {
            if i < d.len() - 1 {
                assert(d[i] == decimal(n / 10)[i]);
            }
        }
    }
}

/// `n` written in decimal is read back as `n`.
pub proof fn lemma_decimal_parses(n: u64)
    ensures
        parsed_u64(decimal(n as nat)) == Some(n),
{
    lemma_decimal_digits(n as nat);
    assert(decimal(n as nat)[0] != '+');
}

/// `find_from` from `j` finds `k` when `p` occurs at `k` and nowhere in
/// `[j, k)`.
pub proof fn lemma_find_from_first(s: Seq<char>, p: Seq<char>, j: int, k: int)
    requires
        0 <= j <= k,
        matches_at(s, p, k),
        forall|m: int| j <= m < k ==> !matches_at(s, p, m),
    ensures
        find_from(s, p, j) == Some(k),
    decreases k - j,
{
    if j < k {
        lemma_find_from_first(s, p, j + 1, k);
    }
}

/// `find_char_from` finds the first `c` at or after `k`.
pub proof fn lemma_find_char_from(s: Seq<char>, c: char, k: int)
    requires
        0 <= k,
    ensures
        find_char_from(s, c, k) matches Some(j) ==> k <= j < s.len() && s[j] == c && forall|m: int|
            k <= m < j ==> s[m] != c,
        find_char_from(s, c, k) is None ==> forall|m: int| k <= m < s.len() ==> s[m] != c,
    decreases s.len() - k,
{
    if k < s.len() && s[k] != c {
        lemma_find_char_from(s, c, k + 1);
    }
}

/// A word of `s` from `k` ends at the first whitespace or at the end.
pub proof fn lemma_token_end_at(s: Seq<char>, k: int, m: int)
    requires
        0 <= k <= m <= s.len(),
        forall|i: int| k <= i < m ==> !is_space(#[trigger] s[i]),
        m == s.len() || is_space(s[m]),
    ensures
        token_end(s, k) == m,
    decreases m - k,
{
    if k < m {
        lemma_token_end_at(s, k + 1, m);
    }
}

/// `n` in decimal, left-padded with zeros to at least `width` characters
/// (the `{:0width$}` format of a non-negative number).
pub open spec fn zero_padded(n: nat, width: nat) -> Seq<char> {
    let d = decimal(n);
    if d.len() >= width {
        d
    } else {
        Seq::new((width - d.len()) as nat, |i: int| '0') + d
    }
}

/// `n` in decimal, left-padded with spaces to at least `width` characters
/// (the `{:width$}` format of a non-negative number).
pub open spec fn space_padded(n: nat, width: nat) -> Seq<char> {
    let d = decimal(n);
    if d.len() >= width {
        d
    } else {
        Seq::new((width - d.len()) as nat, |i: int| ' ') + d
    }
}

pub proof fn lemma_decimal_len_pos(n: nat)
    ensures
        decimal(n).len() >= 1,
    decreases n,
{
    if n >= 10 {
        lemma_decimal_len_pos(n / 10);
    }
}

/// Decimal text of a `u64` (its `Display`).
pub fn u64_to_decimal(n: u64) -> (s: String)
    ensures
        s@ == decimal(n as nat),
    decreases n,
{
    if n < 10 {
        let mut s = String::new();
        push_char(&mut s, ((48u8 + (n as u8)) as char));
        assert(s@ =~= seq![digit_char(n as nat)]) by {
            assert(((48u8 + (n as u8)) as char) == digit_char(n as nat));
        }
        s
    } else {
        let mut s = u64_to_decimal(n / 10);
        let d = (n % 10) as u8;
        push_char(&mut s, ((48u8 + d) as char));
        assert(((48u8 + d) as char) == digit_char((n % 10) as nat));
        s
    }
}

/// Appends `n` zero-padded to `width` characters.
pub fn push_zero_padded(s: &mut String, n: u64, width: usize)
    ensures
        final(s)@ == old(s)@ + zero_padded(n as nat, width as nat),
{
    let d = u64_to_decimal(n);
    let dl = d.as_str().unicode_len();
    if dl < width {
        let mut k: usize = 0;
        let ghost start = s@;
        while k < width - dl
            invariant
                k <= width - dl,
                dl < width,
                s@ == start + Seq::new(k as nat, |i: int| '0'),
            decreases width - dl - k,
        {
            push_char(s, '0');
            assert(Seq::new((k + 1) as nat, |i: int| '0') =~= Seq::new(k as nat, |i: int| '0').push('0'));
            k = k + 1;
        }
    }
    push_str(s, d.as_str());
    assert(s@ =~= old(s)@ + zero_padded(n as nat, width as nat));
}

/// Appends `n` space-padded to `width` characters.
pub fn push_space_padded(s: &mut String, n: u64, width: usize)
    ensures
        final(s)@ == old(s)@ + space_padded(n as nat, width as nat),
{
    let d = u64_to_decimal(n);
    let dl = d.as_str().unicode_len();
    if dl < width {
        let mut k: usize = 0;
        let ghost start = s@;
        while k < width - dl
            invariant
                k <= width - dl,
                dl < width,
                s@ == start + Seq::new(k as nat, |i: int| ' '),
            decreases width - dl - k,
        {
            push_char(s, ' ');
            assert(Seq::new((k + 1) as nat, |i: int| ' ') =~= Seq::new(k as nat, |i: int| ' ').push(' '));
            k = k + 1;
        }
    }
    push_str(s, d.as_str());
    assert(s@ =~= old(s)@ + space_padded(n as nat, width as nat));
}

/// Whether two string slices hold the same characters.
pub fn eq_str(a: &str, b: &str) -> (r: bool)
    ensures
        r == (a@ == b@),
{
    let va = chars_of(a);
    let vb = chars_of(b);
    eq_chars(&va, &vb)
}

/// Whether two character vectors are equal.
pub fn eq_chars(va: &Vec<char>, vb: &Vec<char>) -> (r: bool)
    ensures
        r == (va@ == vb@),
{
    if va.len() != vb.len() {
        return false;
    }
    let mut i: usize = 0;
    while i < va.len()
        invariant
            va@.len() == vb@.len(),
            i <= va@.len(),
            forall|j: int| 0 <= j < i ==> va@[j] == vb@[j],
        decreases va@.len() - i,
    {
        if va[i] != vb[i] {
            return false;
        }
        i = i + 1;
    }
    assert(va@ =~= vb@);
    true
}

/// `p` occurs in `s` at index `i`.
pub open spec fn matches_at(s: Seq<char>, p: Seq<char>, i: int) -> bool {
    0 <= i && i + p.len() <= s.len() && s.subrange(i, i + p.len()) == p
}

/// The last occurrence of `p` in `s` that starts at or before `k`.
pub open spec fn rfind_from(s: Seq<char>, p: Seq<char>, k: int) -> Option<int>
    decreases k + 1,
{
    if k < 0 {
        None
    } else if matches_at(s, p, k) {
        Some(k)
    } else {
        rfind_from(s, p, k - 1)
    }
}

/// The start of the last occurrence of `p` in `s` (`str::rfind`).
pub open spec fn rfind(s: Seq<char>, p: Seq<char>) -> Option<int> {
    rfind_from(s, p, s.len() - p.len())
}

/// The first occurrence of `p` in `s` at or after `k`.
pub open spec fn find_from(s: Seq<char>, p: Seq<char>, k: int) -> Option<int>
    decreases s.len() + 1 - k,
{
    if k < 0 || k + p.len() > s.len() {
        None
    } else if matches_at(s, p, k) {
        Some(k)
    } else {
        find_from(s, p, k + 1)
    }
}

/// The start of the first occurrence of `p` in `s` (`str::find`).
pub open spec fn find(s: Seq<char>, p: Seq<char>) -> Option<int> {
    find_from(s, p, 0)
}

/// `s` contains `p` (`str::contains`).
pub open spec fn contains(s: Seq<char>, p: Seq<char>) -> bool {
    find(s, p) is Some
}

pub fn matches_at_exec(s: &Vec<char>, p: &Vec<char>, i: usize) -> (r: bool)
    ensures
        r == matches_at(s@, p@, i as int),
{
    if i > s.len() || p.len() > s.len() - i {
        return false;
    }
    let mut j: usize = 0;
    let n = s.len();
    while j < p.len()
        invariant
            n == s@.len(),
            i + p@.len() <= s@.len(),
            j <= p@.len(),
            forall|k: int| 0 <= k < j ==> s@[i + k] == p@[k],
        decreases p@.len() - j,
    {
        if s[i + j] != p[j] {
            assert(s@.subrange(i as int, i + p@.len())[j as int] != p@[j as int]);
            return false;
        }
        j = j + 1;
    }
    assert(s@.subrange(i as int, i + p@.len()) =~= p@);
    true
}

/// The last occurrence of `p` in `s`.
pub fn rfind_exec(s: &Vec<char>, p: &Vec<char>) -> (r: Option<usize>)
    ensures
        r matches Some(i) ==> rfind(s@, p@) == Some(i as int) && matches_at(s@, p@, i as int),
        r is None ==> rfind(s@, p@) is None,
{
    if p.len() > s.len() {
        return None;
    }
    let mut k: usize = s.len() - p.len();
    while !matches_at_exec(s, p, k)
        invariant
            k <= s@.len() - p@.len(),
            p@.len() <= s@.len(),
            rfind(s@, p@) == rfind_from(s@, p@, k as int),
        decreases k,
    {
        if k == 0 {
            assert(rfind_from(s@, p@, -1) is None);
            return None;
        }
        k = k - 1;
    }
    Some(k)
}

/// The first occurrence of `p` in `s` at or after `from`.
pub fn find_exec(s: &Vec<char>, p: &Vec<char>, from: usize) -> (r: Option<usize>)
    ensures
        r matches Some(i) ==> find_from(s@, p@, from as int) == Some(i as int),
        r is None ==> find_from(s@, p@, from as int) is None,
{
    let mut k = from;
    while k <= s.len() && p.len() <= s.len() - k
        invariant
            find_from(s@, p@, k as int) == find_from(s@, p@, from as int),
            from <= k,
        decreases s@.len() + 1 - k,
    {
        if matches_at_exec(s, p, k) {
            return Some(k);
        }
        if k >= s.len() {
            assert(find_from(s@, p@, k + 1) is None);
            return None;
        }
        k = k + 1;
    }
    None
}

/// The first index at or after `k` that holds `c`.
pub open spec fn find_char_from(s: Seq<char>, c: char, k: int) -> Option<int>
    decreases s.len() - k,
{
    if k < 0 || k >= s.len() {
        None
    } else if s[k] == c {
        Some(k)
    } else {
        find_char_from(s, c, k + 1)
    }
}

pub fn find_char(s: &Vec<char>, c: char, from: usize) -> (r: Option<usize>)
    ensures
        r matches Some(i) ==> find_char_from(s@, c, from as int) == Some(i as int) && i < s@.len(),
        r is None ==> find_char_from(s@, c, from as int) is None,
{
    let mut k = from;
    while k < s.len()
        invariant
            find_char_from(s@, c, k as int) == find_char_from(s@, c, from as int),
            from <= k,
        decreases s@.len() - k,
    {
        if s[k] == c {
            return Some(k);
        }
        k = k + 1;
    }
    None
}

/// The index of the first non-whitespace character at or after `i`
/// (`s.len()` when there is none).
pub open spec fn skip_space(s: Seq<char>, i: int) -> int
    decreases s.len() - i,
{
    if 0 <= i < s.len() && is_space(s[i]) {
        skip_space(s, i + 1)
    } else {
        i
    }
}

/// The end of `s[lo..j]` once its trailing whitespace is dropped.
pub open spec fn drop_trailing_space(s: Seq<char>, lo: int, j: int) -> int
    decreases j - lo,
{
    if lo < j && j <= s.len() && is_space(s[j - 1]) {
        drop_trailing_space(s, lo, j - 1)
    } else {
        j
    }
}

/// `s` with leading and trailing whitespace removed (`str::trim`).
pub open spec fn trimmed(s: Seq<char>) -> Seq<char> {
    let lo = skip_space(s, 0);
    s.subrange(lo, drop_trailing_space(s, lo, s.len() as int))
}

pub proof fn lemma_skip_space_bounds(s: Seq<char>, i: int)
    requires
        0 <= i <= s.len(),
    ensures
        i <= skip_space(s, i) <= s.len(),
    decreases s.len() - i,
{
    if i < s.len() && is_space(s[i]) {
        lemma_skip_space_bounds(s, i + 1);
    }
}

pub proof fn lemma_drop_trailing_bounds(s: Seq<char>, lo: int, j: int)
    requires
        0 <= lo <= j <= s.len(),
    ensures
        lo <= drop_trailing_space(s, lo, j) <= j,
    decreases j - lo,
{
    if lo < j && is_space(s[j - 1]) {
        lemma_drop_trailing_bounds(s, lo, j - 1);
    }
}

/// The bounds of `trimmed(s)` within `s`.
pub fn trim_bounds(s: &Vec<char>) -> (r: (usize, usize))
    ensures
        r.0 <= r.1 <= s@.len(),
        s@.subrange(r.0 as int, r.1 as int) == trimmed(s@),
{
    let mut lo: usize = 0;
    while lo < s.len() && char_is_space(s[lo])
        invariant
            lo <= s@.len(),
            skip_space(s@, lo as int) == skip_space(s@, 0),
        decreases s@.len() - lo,
    {
        lo = lo + 1;
    }
    let mut hi: usize = s.len();
    while hi > lo && char_is_space(s[hi - 1])
        invariant
            lo <= hi <= s@.len(),
            lo == skip_space(s@, 0),
            drop_trailing_space(s@, lo as int, hi as int) == drop_trailing_space(s@, lo as int, s@.len() as int),
        decreases hi,
    {
        hi = hi - 1;
    }
    (lo, hi)
}

/// A copy of `v[lo..hi]`.
pub fn slice_chars(v: &Vec<char>, lo: usize, hi: usize) -> (r: Vec<char>)
    requires
        lo <= hi <= v@.len(),
    ensures
        r@ == v@.subrange(lo as int, hi as int),
{
    let mut r: Vec<char> = Vec::new();
    let mut i = lo;
    while i < hi
        invariant
            lo <= i <= hi <= v@.len(),
            r@ == v@.subrange(lo as int, i as int),
        decreases hi - i,
    {
        r.push(v[i]);
        assert(v@.subrange(lo as int, i + 1) =~= v@.subrange(lo as int, i as int).push(v@[i as int]));
        i = i + 1;
    }
    r
}

/// The lower-case form of a string as `str::to_lowercase` gives it (Unicode case
/// mapping, which depends on the characters alone).
pub uninterp spec fn lowercase(s: Seq<char>) -> Seq<char>;

/// `str::to_lowercase`: the lower-case equivalent of `s`, so nothing for an
/// empty `s`; the case mapping itself is left to the name.
#[verifier::external_body]
pub(crate) fn to_lowercase(s: &str) -> (r: String)
    ensures
        r@ == lowercase(s@),
        s@.len() == 0 ==> r@.len() == 0,
{
    s.to_lowercase()
}

/// `s` starts with `p`.
pub open spec fn starts_with(s: Seq<char>, p: Seq<char>) -> bool {
    p.len() <= s.len() && s.take(p.len() as int) == p
}

/// `s` ends with `p`.
pub open spec fn ends_with(s: Seq<char>, p: Seq<char>) -> bool {
    p.len() <= s.len() && s.skip(s.len() - p.len()) == p
}

pub fn starts_with_exec(s: &Vec<char>, p: &Vec<char>) -> (r: bool)
    ensures
        r == starts_with(s@, p@),
{
    let r = matches_at_exec(s, p, 0);
    assert(r == starts_with(s@, p@)) by {
        if p@.len() <= s@.len() {
            assert(s@.subrange(0, p@.len() as int) =~= s@.take(p@.len() as int));
        }
    }
    r
}

pub fn ends_with_exec(s: &Vec<char>, p: &Vec<char>) -> (r: bool)
    ensures
        r == ends_with(s@, p@),
{
    if p.len() > s.len() {
        return false;
    }
    let r = matches_at_exec(s, p, s.len() - p.len());
    assert(r == ends_with(s@, p@)) by {
        assert(s@.subrange(s@.len() - p@.len(), s@.len() as int) =~= s@.skip(s@.len() - p@.len()));
    }
    r
}

/// `s` contains `p`, on string slices.
pub fn str_contains(s: &str, p: &str) -> (r: bool)
    ensures
        r == contains(s@, p@),
{
    let vs = chars_of(s);
    let vp = chars_of(p);
    find_exec(&vs, &vp, 0).is_some()
}

/// `s` starts with `p`, on string slices.
pub fn str_starts_with(s: &str, p: &str) -> (r: bool)
    ensures
        r == starts_with(s@, p@),
{
    let vs = chars_of(s);
    let vp = chars_of(p);
    starts_with_exec(&vs, &vp)
}

/// The string `a` followed by `b`.
pub fn concat2(a: &str, b: &str) -> (r: String)
    ensures
        r@ == a@ + b@,
{
    let mut s = String::from_str(a);
    push_str(&mut s, b);
    s
}

/// The string `a`, `b`, `c` in a row.
pub fn concat3(a: &str, b: &str, c: &str) -> (r: String)
    ensures
        r@ == a@ + b@ + c@,
{
    let mut s = String::from_str(a);
    push_str(&mut s, b);
    push_str(&mut s, c);
    s
}

/// The end of the run of non-whitespace characters that starts at `k`.
pub open spec fn token_end(s: Seq<char>, k: int) -> int
    decreases s.len() - k,
{
    if 0 <= k < s.len() && !is_space(s[k]) {
        token_end(s, k + 1)
    } else {
        k
    }
}

/// The first whitespace-separated word of `s` (`split_whitespace().next()`).
pub open spec fn first_word(s: Seq<char>) -> Option<Seq<char>> {
    let st = skip_space(s, 0);
    if st >= s.len() {
        None
    } else {
        Some(s.subrange(st, token_end(s, st)))
    }
}

proof fn lemma_token_end_bounds(s: Seq<char>, k: int)
    requires
        0 <= k <= s.len(),
    ensures
        k <= token_end(s, k) <= s.len(),
    decreases s.len() - k,
{
    if k < s.len() && !is_space(s[k]) {
        lemma_token_end_bounds(s, k + 1);
    }
}

/// The first whitespace-separated word of `v`, as bounds.
pub fn first_word_bounds(v: &Vec<char>) -> (r: Option<(usize, usize)>)
    ensures
        r matches Some((a, b)) ==> a <= b <= v@.len() && first_word(v@) == Some(v@.subrange(
            a as int,
            b as int,
        )),
        r is None ==> first_word(v@) is None,
{
    let mut st: usize = 0;
    while st < v.len() && char_is_space(v[st])
        invariant
            st <= v@.len(),
            skip_space(v@, st as int) == skip_space(v@, 0),
        decreases v@.len() - st,
    {
        st = st + 1;
    }
    if st >= v.len() {
        return None;
    }
    let mut e = st;
    while e < v.len() && !char_is_space(v[e])
        invariant
            st <= e <= v@.len(),
            st == skip_space(v@, 0),
            token_end(v@, e as int) == token_end(v@, st as int),
        decreases v@.len() - e,
    {
        e = e + 1;
    }
    Some((st, e))
}

pub open spec fn digits_value(s: Seq<char>) -> nat
    decreases s.len(),
{
    if s.len() == 0 {
        0
    } else {
        digits_value(s.drop_last()) * 10 + ((s.last() as u32) - ('0' as u32)) as nat
    }
}

pub open spec fn all_digits(s: Seq<char>) -> bool {
    forall|i: int| 0 <= i < s.len() ==> is_digit(s[i])
}

/// The digits of an unsigned number: `s` without a leading `+`.
pub open spec fn unsigned_digits(s: Seq<char>) -> Seq<char> {
    if s.len() > 0 && s[0] == '+' { s.drop_first() } else { s }
}

/// `u8::from_str`: an optional `+`, then one or more decimal digits, at most 255.
pub open spec fn parsed_u8(s: Seq<char>) -> Option<u8> {
    let d = unsigned_digits(s);
    if d.len() > 0 && all_digits(d) && digits_value(d) <= 255 {
        Some(digits_value(d) as u8)
    } else {
        None
    }
}

/// Parses a decimal `u8` as `str::parse::<u8>` does.
pub fn parse_u8(s: &Vec<char>) -> (r: Option<u8>)
    ensures
        r == parsed_u8(s@),
{
    let start: usize = if s.len() > 0 && s[0] == '+' { 1 } else { 0 };
    let ghost d = unsigned_digits(s@);
    assert(d =~= s@.subrange(start as int, s@.len() as int));
    if start >= s.len() {
        return None;
    }
    let mut v: u32 = 0;
    let mut i = start;
    while i < s.len()
        invariant
            start <= i <= s@.len(),
            d =~= s@.subrange(start as int, s@.len() as int),
            d == unsigned_digits(s@),
            all_digits(s@.subrange(start as int, i as int)),
            v == digits_value(s@.subrange(start as int, i as int)),
            v <= 255,
        decreases s@.len() - i,
    {
        let c = s[i];
        let ghost k = (i - start) as int;
        assert(s@.subrange(start as int, i + 1).drop_last() =~= s@.subrange(start as int, i as int));
        assert(d.take(k + 1) =~= s@.subrange(start as int, i + 1));
        assert(d[k] == c);
        if !char_is_digit(c) {
            assert(!all_digits(d));
            assert(unsigned_digits(s@) == d);
            assert(!(d.len() > 0 && all_digits(d) && digits_value(d) <= 255));
            assert(parsed_u8(s@) is None);
            return None;
        }
        assert(all_digits(s@.subrange(start as int, i + 1))) by {
            assert forall|j: int| 0 <= j < (i + 1 - start) implies is_digit(
                #[trigger] s@.subrange(start as int, i + 1)[j],
            ) by {
                if j < i - start {
                    assert(s@.subrange(start as int, i + 1)[j] == s@.subrange(start as int, i as int)[j]);
                }
            }
        }
        let dv = (c as u32) - 48;
        if v * 10 + dv > 255 {
            assert(digits_value(s@.subrange(start as int, i + 1)) > 255);
            proof {
                lemma_digits_value_mono(d, k + 1);
            }
            assert(all_digits(d) ==> digits_value(d) > 255);
            assert(parsed_u8(s@) is None);
            return None;
        }
        v = v * 10 + dv;
        i = i + 1;
    }
    assert(s@.subrange(start as int, s@.len() as int) =~= d);
    Some(v as u8)
}

proof fn lemma_digits_value_mono(d: Seq<char>, k: int)
    requires
        0 <= k <= d.len(),
        all_digits(d.take(k)),
    ensures
        all_digits(d) ==> digits_value(d.take(k)) <= digits_value(d),
    decreases d.len() - k,
{
    if k < d.len() && all_digits(d) {
        assert(all_digits(d.take(k + 1)));
        lemma_digits_value_mono(d, k + 1);
        assert(d.take(k + 1).drop_last() =~= d.take(k));
    } else if k == d.len() {
        assert(d.take(k) =~= d);
    }
}




/// `u64::from_str`: an optional `+`, then one or more decimal digits, at most `u64::MAX`.
pub open spec fn parsed_u64(s: Seq<char>) -> Option<u64> {
    let d = unsigned_digits(s);
    if d.len() > 0 && all_digits(d) && digits_value(d) <= u64::MAX {
        Some(digits_value(d) as u64)
    } else {
        None
    }
}

/// Parses a decimal `u64` as `str::parse::<u64>` does.
pub fn parse_u64(s: &Vec<char>) -> (r: Option<u64>)
    ensures
        r == parsed_u64(s@),
{
    let start: usize = if s.len() > 0 && s[0] == '+' { 1 } else { 0 };
    let ghost d = unsigned_digits(s@);
    assert(d =~= s@.subrange(start as int, s@.len() as int));
    if start >= s.len() {
        return None;
    }
    let mut v: u64 = 0;
    let mut i = start;
    while i < s.len()
        invariant
            start <= i <= s@.len(),
            d =~= s@.subrange(start as int, s@.len() as int),
            d == unsigned_digits(s@),
            all_digits(s@.subrange(start as int, i as int)),
            v == digits_value(s@.subrange(start as int, i as int)),
            v <= u64::MAX,
        decreases s@.len() - i,
    {
        let c = s[i];
        let ghost k = (i - start) as int;
        assert(s@.subrange(start as int, i + 1).drop_last() =~= s@.subrange(start as int, i as int));
        assert(d.take(k + 1) =~= s@.subrange(start as int, i + 1));
        assert(d[k] == c);
        if !char_is_digit(c) {
            assert(!all_digits(d));
            assert(unsigned_digits(s@) == d);
            assert(!(d.len() > 0 && all_digits(d) && digits_value(d) <= u64::MAX));
            assert(parsed_u64(s@) is None);
            return None;
        }
        assert(all_digits(s@.subrange(start as int, i + 1))) by {
            assert forall|j: int| 0 <= j < (i + 1 - start) implies is_digit(
                #[trigger] s@.subrange(start as int, i + 1)[j],
            ) by {
                if j < i - start {
                    assert(s@.subrange(start as int, i + 1)[j] == s@.subrange(start as int, i as int)[j]);
                }
            }
        }
        let dv = (c as u64) - 48;
        if v > (u64::MAX - dv) / 10 {
            assert(digits_value(s@.subrange(start as int, i + 1)) >  u64::MAX);
            proof {
                lemma_digits_value_mono(d, k + 1);
            }
            assert(all_digits(d) ==> digits_value(d) >  u64::MAX);
            assert(parsed_u64(s@) is None);
            return None;
        }
        v = v * 10 + dv;
        i = i + 1;
    }
    assert(s@.subrange(start as int, s@.len() as int) =~= d);
    Some(v)
}


/// `p` is found from `j` on exactly when it stands somewhere at or after `j`.
pub proof fn lemma_find_from_iff(s: Seq<char>, p: Seq<char>, j: int)
    requires
        0 <= j,
    ensures
        (find_from(s, p, j) is Some) <==> exists|k: int| j <= k && #[trigger] matches_at(s, p, k),
    decreases s.len() + 1 - j,
{
    if j + p.len() > s.len() {
        assert forall|k: int| j <= k implies !#[trigger] matches_at(s, p, k) by {}
    } else if !matches_at(s, p, j) {
        lemma_find_from_iff(s, p, j + 1);
        if exists|k: int| j <= k && #[trigger] matches_at(s, p, k) {
            let k = choose|k: int| j <= k && #[trigger] matches_at(s, p, k);
            assert(k != j);
            assert(j + 1 <= k);
        }
    }
}

/// `s` contains `p` exactly when `p` stands at some index of `s`.
pub proof fn lemma_contains_iff(s: Seq<char>, p: Seq<char>)
    ensures
        contains(s, p) <==> exists|k: int| 0 <= k && k + p.len() <= s.len() && #[trigger] s.subrange(k, k + p.len()) == p,
{
    lemma_find_from_iff(s, p, 0);
    if contains(s, p) {
        let k = choose|k: int| 0 <= k && #[trigger] matches_at(s, p, k);
        assert(s.subrange(k, k + p.len()) == p);
    }
    if exists|k: int| 0 <= k && k + p.len() <= s.len() && #[trigger] s.subrange(k, k + p.len()) == p {
        let k = choose|k: int| 0 <= k && k + p.len() <= s.len() && #[trigger] s.subrange(k, k + p.len()) == p;
        assert(matches_at(s, p, k));
    }
}

/// Text put around `p` still contains it.
pub proof fn lemma_contains_middle(a: Seq<char>, p: Seq<char>, b: Seq<char>)
    ensures
        contains(a + p + b, p),
{
    let s = a + p + b;
    assert(s.subrange(a.len() as int, (a.len() + p.len()) as int) =~= p);
    lemma_contains_iff(s, p);
}

pub proof fn lemma_find_from(s: Seq<char>, p: Seq<char>, k: int)
    ensures
        find_from(s, p, k) matches Some(i) ==> k <= i && i + p.len() <= s.len() && matches_at(s, p, i),
    decreases s.len() + 1 - k,
{
    if !(k < 0 || k + p.len() > s.len()) && !matches_at(s, p, k) {
        lemma_find_from(s, p, k + 1);
    }
}

// ── UTF-8 lengths ───────────────────────────────────────────────────────────

/// The number of bytes of `c` in UTF-8 (`char::len_utf8`).
pub open spec fn utf8_width(c: char) -> nat {
    if (c as u32) < 0x80 {
        1
    } else if (c as u32) < 0x800 {
        2
    } else if (c as u32) < 0x10000 {
        3
    } else {
        4
    }
}

/// The number of bytes of `s` in UTF-8 (`str::len`).
pub open spec fn byte_len(s: Seq<char>) -> nat
    decreases s.len(),
{
    if s.len() == 0 {
        0
    } else {
        byte_len(s.drop_last()) + utf8_width(s.last())
    }
}

/// The characters that make up the first `b` bytes of `s` (`&s[..b]`), when `b`
/// falls on a character boundary.
pub open spec fn byte_prefix(s: Seq<char>, b: nat) -> Option<Seq<char>> {
    if exists|k: int| 0 <= k <= s.len() && byte_len(#[trigger] s.take(k)) == b {
        Some(s.take(choose|k: int| 0 <= k <= s.len() && byte_len(#[trigger] s.take(k)) == b))
    } else {
        None
    }
}

pub fn char_width(c: char) -> (r: usize)
    ensures
        r == utf8_width(c),
{
    let v = c as u32;
    if v < 0x80 {
        1
    } else if v < 0x800 {
        2
    } else if v < 0x10000 {
        3
    } else {
        4
    }
}

pub proof fn lemma_byte_len_mono(s: Seq<char>, j: int, k: int)
    requires
        0 <= j <= k <= s.len(),
    ensures
        byte_len(s.take(j)) <= byte_len(s.take(k)),
        j < k ==> byte_len(s.take(j)) < byte_len(s.take(k)),
    decreases k - j,
{
    if j < k {
        lemma_byte_len_mono(s, j, k - 1);
        assert(s.take(k).drop_last() =~= s.take(k - 1));
    }
}

/// The number of bytes of a character vector in UTF-8.
pub fn chars_byte_len(v: &Vec<char>) -> (r: usize)
    requires
        byte_len(v@) <= usize::MAX,
    ensures
        r == byte_len(v@),
{
    let mut acc: usize = 0;
    let mut k: usize = 0;
    proof {
        assert(v@.take(0) =~= Seq::<char>::empty());
        lemma_byte_len_mono(v@, 0, v@.len() as int);
        assert(v@.take(v@.len() as int) =~= v@);
    }
    while k < v.len()
        invariant
            k <= v@.len(),
            acc == byte_len(v@.take(k as int)),
            byte_len(v@) <= usize::MAX,
            byte_len(v@.take(v@.len() as int)) == byte_len(v@),
        decreases v@.len() - k,
    {
        proof {
            lemma_byte_len_mono(v@, k as int + 1, v@.len() as int);
            assert(v@.take(k + 1).drop_last() =~= v@.take(k as int));
        }
        acc = acc + char_width(v[k]);
        k = k + 1;
    }
    proof {
        assert(v@.take(v@.len() as int) =~= v@);
    }
    acc
}

/// The characters of the first `b` bytes of `v`.
pub fn byte_prefix_chars(v: &Vec<char>, b: usize) -> (r: Vec<char>)
    requires
        byte_prefix(v@, b as nat) is Some,
    ensures
        byte_prefix(v@, b as nat) == Some(r@),
{
    let ghost k0 = choose|k: int| 0 <= k <= v@.len() && byte_len(#[trigger] v@.take(k)) == b;
    let n = v.len();
    let mut k: usize = 0;
    let mut acc: usize = 0;
    proof {
        assert(v@.take(0) =~= Seq::<char>::empty());
    }
    while acc < b
        invariant
            0 <= k0 <= v@.len(),
            byte_len(v@.take(k0)) == b,
            k <= v@.len(),
            n == v@.len(),
            acc == byte_len(v@.take(k as int)),
            acc <= b,
            k <= k0,
        decreases b - acc,
    {
        proof {
            if k == k0 {
                assert(false);
            }
            lemma_byte_len_mono(v@, k as int + 1, k0);
            assert(v@.take(k + 1).drop_last() =~= v@.take(k as int));
        }
        acc = acc + char_width(v[k]);
        k = k + 1;
        proof {
            if k > k0 {
                lemma_byte_len_mono(v@, k0, k as int);
            }
        }
    }
    proof {
        if (k as int) < k0 {
            lemma_byte_len_mono(v@, k as int, k0);
        }
        let kk = choose|kk: int| 0 <= kk <= v@.len() && byte_len(#[trigger] v@.take(kk)) == b;
        if kk < k {
            lemma_byte_len_mono(v@, kk, k as int);
        } else if kk > k {
            lemma_byte_len_mono(v@, k as int, kk);
        }
    }
    slice_chars(v, 0, k)
}

/// `a` comes before `b` in lexicographic order of code points (which is the
/// byte order of their UTF-8 forms, `str`'s `<`).
pub open spec fn lex_less(a: Seq<char>, b: Seq<char>) -> bool
    decreases a.len(),
{
    if b.len() == 0 {
        false
    } else if a.len() == 0 {
        true
    } else if a[0] != b[0] {
        (a[0] as u32) < (b[0] as u32)
    } else {
        lex_less(a.drop_first(), b.drop_first())
    }
}

/// `lex_less` is a strict order: nothing comes before itself.
pub proof fn lemma_lex_irreflexive(a: Seq<char>)
    ensures
        !lex_less(a, a),
    decreases a.len(),
{
    if a.len() > 0 {
        lemma_lex_irreflexive(a.drop_first());
    }
}

/// `lex_less` is a strict order: it is transitive.
pub proof fn lemma_lex_transitive(a: Seq<char>, b: Seq<char>, c: Seq<char>)
    requires
        lex_less(a, b),
        lex_less(b, c),
    ensures
        lex_less(a, c),
    decreases a.len(),
{
    if a.len() > 0 && a[0] == b[0] && b[0] == c[0] {
        lemma_lex_transitive(a.drop_first(), b.drop_first(), c.drop_first());
    }
}

/// `lex_less` is total: of two different texts one comes first.
pub proof fn lemma_lex_total(a: Seq<char>, b: Seq<char>)
    requires
        a != b,
    ensures
        lex_less(a, b) || lex_less(b, a),
    decreases a.len(),
{
    if a.len() > 0 && b.len() > 0 && a[0] == b[0] {
        if a.drop_first() == b.drop_first() {
            assert(a =~= seq![a[0]] + a.drop_first());
            assert(b =~= seq![b[0]] + b.drop_first());
        }
        lemma_lex_total(a.drop_first(), b.drop_first());
    } else if a.len() > 0 && b.len() > 0 {
        let (x, y) = (a[0], b[0]);
        vstd::utf8::char_u32_cast(x, x as u32);
        vstd::utf8::char_u32_cast(y, y as u32);
        assert((x as u32) != (y as u32));
    } else if a.len() == 0 && b.len() == 0 {
        assert(a =~= b);
    }
}

pub fn lex_less_exec(a: &Vec<char>, b: &Vec<char>) -> (r: bool)
    ensures
        r == lex_less(a@, b@),
{
    let mut i: usize = 0;
    assert(a@.skip(0) =~= a@);
    assert(b@.skip(0) =~= b@);
    while i < a.len() && i < b.len() && a[i] == b[i]
        invariant
            i <= a@.len(),
            i <= b@.len(),
            lex_less(a@.skip(i as int), b@.skip(i as int)) == lex_less(a@, b@),
        decreases a@.len() - i,
    {
        assert(a@.skip(i as int).drop_first() =~= a@.skip(i + 1));
        assert(b@.skip(i as int).drop_first() =~= b@.skip(i + 1));
        i = i + 1;
    }
    if i >= b.len() {
        assert(b@.skip(i as int).len() == 0);
        false
    } else if i >= a.len() {
        assert(a@.skip(i as int).len() == 0);
        true
    } else {
        assert(a@.skip(i as int)[0] == a@[i as int]);
        assert(b@.skip(i as int)[0] == b@[i as int]);
        (a[i] as u32) < (b[i] as u32)
    }
}

pub proof fn lemma_byte_prefix_at(s: Seq<char>, k: int)
    requires
        0 <= k <= s.len(),
    ensures
        byte_prefix(s, byte_len(s.take(k))) == Some(s.take(k)),
{
    let b = byte_len(s.take(k));
    assert(byte_len(s.take(k)) == b);
    let kk = choose|kk: int| 0 <= kk <= s.len() && byte_len(#[trigger] s.take(kk)) == b;
    if kk < k {
        lemma_byte_len_mono(s, kk, k);
    } else if kk > k {
        lemma_byte_len_mono(s, k, kk);
    }
}

pub proof fn lemma_byte_prefix_none(s: Seq<char>, k: int, b: nat)
    requires
        0 < k <= s.len(),
        byte_len(s.take(k - 1)) < b < byte_len(s.take(k)),
    ensures
        byte_prefix(s, b) is None,
{
    assert forall|kk: int| 0 <= kk <= s.len() implies byte_len(#[trigger] s.take(kk)) != b by {
        if kk < k {
            lemma_byte_len_mono(s, kk, k - 1);
        } else if kk > k {
            lemma_byte_len_mono(s, k, kk);
        }
    }
}

/// Walks `v` until `cap` bytes are reached or passed, or the end: returns the
/// bytes walked and the characters taken.
pub fn bytes_upto(v: &Vec<char>, cap: usize) -> (r: (usize, usize))
    requires
        cap < usize::MAX - 4,
    ensures
        r.1 <= v@.len(),
        r.0 == byte_len(v@.take(r.1 as int)),
        r.0 >= cap || r.1 == v@.len(),
        r.1 > 0 ==> byte_len(v@.take(r.1 - 1)) < cap,
        r.0 < cap + 4,
{
    let n = v.len();
    let mut acc: usize = 0;
    let mut k: usize = 0;
    proof {
        assert(v@.take(0) =~= Seq::<char>::empty());
    }
    while acc < cap && k < n
        invariant
            n == v@.len(),
            k <= n,
            acc == byte_len(v@.take(k as int)),
            k > 0 ==> byte_len(v@.take(k - 1)) < cap,
            acc < cap + 4,
            cap < usize::MAX - 4,
        decreases n - k,
    {
        assert(v@.take(k + 1).drop_last() =~= v@.take(k as int));
        let w = char_width(v[k]);
        acc = acc + w;
        k = k + 1;
    }
    (acc, k)
}

/// The characters of the first `min(cap, byte length)` bytes of `v`, when that
/// falls on a character boundary.
pub fn byte_head(v: &Vec<char>, cap: usize) -> (r: Option<Vec<char>>)
    requires
        cap < usize::MAX - 4,
    ensures
        ({
            let b = if byte_len(v@) < cap { byte_len(v@) } else { cap as nat };
            &&& r matches Some(x) ==> byte_prefix(v@, b) == Some(x@)
            &&& r is None ==> byte_prefix(v@, b) is None
        }),
{
    let (acc, k) = bytes_upto(v, cap);
    proof {
        lemma_byte_len_mono(v@, k as int, v@.len() as int);
        assert(v@.take(v@.len() as int) =~= v@);
        lemma_byte_prefix_at(v@, k as int);
    }
    if acc > cap {
        proof {
            lemma_byte_prefix_none(v@, k as int, cap as nat);
        }
        None
    } else {
        Some(slice_chars(v, 0, k))
    }
}

/// The byte length of `v`, or `None` when it does not fit in a `usize`.
pub fn byte_len_checked(v: &Vec<char>) -> (r: Option<usize>)
    ensures
        r matches Some(n) ==> n == byte_len(v@),
        r is None ==> byte_len(v@) > usize::MAX,
{
    let n = v.len();
    let mut acc: usize = 0;
    let mut k: usize = 0;
    proof {
        assert(v@.take(0) =~= Seq::<char>::empty());
    }
    while k < n
        invariant
            n == v@.len(),
            k <= n,
            acc == byte_len(v@.take(k as int)),
        decreases n - k,
    {
        assert(v@.take(k + 1).drop_last() =~= v@.take(k as int));
        let w = char_width(v[k]);
        if acc > usize::MAX - w {
            proof {
                lemma_byte_len_mono(v@, k + 1, n as int);
                assert(v@.take(n as int) =~= v@);
            }
            return None;
        }
        acc = acc + w;
        k = k + 1;
    }
    assert(v@.take(n as int) =~= v@);
    Some(acc)
}

/// The characters of the first `b` bytes of `v` (`&s[..b]`), or `None` when `b`
/// is past the end or inside a character.
pub fn prefix_at(v: &Vec<char>, b: usize) -> (r: Option<Vec<char>>)
    requires
        b < usize::MAX - 4,
    ensures
        r matches Some(x) ==> byte_prefix(v@, b as nat) == Some(x@),
        r is None ==> byte_prefix(v@, b as nat) is None,
{
    let (acc, k) = bytes_upto(v, b);
    if acc == b {
        proof {
            lemma_byte_prefix_at(v@, k as int);
        }
        let x = slice_chars(v, 0, k);
        assert(x@ =~= v@.take(k as int));
        Some(x)
    } else if acc > b {
        proof {
            if k == 0 {
                assert(v@.take(0) =~= Seq::<char>::empty());
            }
            lemma_byte_prefix_none(v@, k as int, b as nat);
        }
        None
    } else {
        proof {
            assert(v@.take(k as int) =~= v@);
            assert forall|kk: int| 0 <= kk <= v@.len() implies byte_len(#[trigger] v@.take(kk)) != b by {
                lemma_byte_len_mono(v@, kk, v@.len() as int);
            }
        }
        None
    }
}

/// Whether the byte length of `v` is more than `w`.
pub fn byte_len_exceeds(v: &Vec<char>, w: usize) -> (r: bool)
    requires
        w < usize::MAX - 5,
    ensures
        r == (byte_len(v@) > w),
{
    let (acc, k) = bytes_upto(v, w + 1);
    proof {
        lemma_byte_len_mono(v@, k as int, v@.len() as int);
        assert(v@.take(v@.len() as int) =~= v@);
    }
    acc > w
}

/// `s` without its last character, if it has one.
pub open spec fn popped(s: Seq<char>) -> Seq<char> {
    if s.len() > 0 { s.drop_last() } else { s }
}

/// Removes the last character (`String::pop`).
pub fn pop_char(s: &mut String)
    ensures
        final(s)@ == popped(old(s)@),
{
    let v = chars_of(s.as_str());
    let n = v.len();
    if n > 0 {
        let t = string_of(&v, 0, n - 1);
        assert(v@.subrange(0, n - 1) =~= v@.drop_last());
        *s = t;
    }
}

/// Empties a string.
pub fn clear_string(s: &mut String)
    ensures
        final(s)@ == Seq::<char>::empty(),
{
    *s = String::new();
}

// ── Lines ───────────────────────────────────────────────────────────────────

pub proof fn lemma_find_char_bounds(s: Seq<char>, c: char, k: int)
    ensures
        find_char_from(s, c, k) matches Some(i) ==> k <= i < s.len() && s[i] == c,
    decreases s.len() - k,
{
    if !(k < 0 || k >= s.len()) && s[k] != c {
        lemma_find_char_bounds(s, c, k + 1);
    }
}

/// A line without the `\r` of a `\r\n` ending.
pub open spec fn without_cr(l: Seq<char>) -> Seq<char> {
    if l.len() > 0 && l.last() == '\r' { l.drop_last() } else { l }
}

/// The lines of `s` from index `k` on (`str::lines`): split at `\n`, each line
/// without the `\r` before its `\n`, and no empty line after a final `\n`.
pub open spec fn lines_from(s: Seq<char>, k: int) -> Seq<Seq<char>>
    decreases s.len() - k,
{
    if k < 0 || k >= s.len() {
        seq![]
    } else {
        match find_char_from(s, '\n', k) {
            Some(i) => {
                proof {
                    lemma_find_char_bounds(s, '\n', k);
                }
                seq![without_cr(s.subrange(k, i))] + lines_from(s, i + 1)
            },
            None => seq![s.subrange(k, s.len() as int)],
        }
    }
}

/// The lines of `s` (`str::lines`).
pub open spec fn text_lines(s: Seq<char>) -> Seq<Seq<char>> {
    lines_from(s, 0)
}

/// The lines of a text, each as a string of its own.
pub fn split_lines(s: &str) -> (r: Vec<String>)
    ensures
        r@.map_values(|x: String| x@) == text_lines(s@),
{
    let v = chars_of(s);
    let n = v.len();
    let mut out: Vec<String> = Vec::new();
    let mut start: usize = 0;
    while start < n
        invariant
            n == v@.len(),
            v@ == s@,
            start <= n,
            out@.map_values(|x: String| x@) + lines_from(v@, start as int) == lines_from(v@, 0),
        decreases n - start,
    {
        let ghost before = out@;
        match find_char(&v, '\n', start) {
            Some(i) => {
                proof {
                    lemma_find_char_bounds(v@, '\n', start as int);
                }
                let hi = if i > start && v[i - 1] == '\r' { i - 1 } else { i };
                let line = string_of(&v, start, hi);
                assert(line@ == without_cr(v@.subrange(start as int, i as int)));
                out.push(line);
                proof {
                    assert(out@.map_values(|x: String| x@) =~= before.map_values(|x: String| x@).push(line@));
                    assert(lines_from(v@, start as int) == seq![line@] + lines_from(v@, i + 1));
                    assert(before.map_values(|x: String| x@) + lines_from(v@, start as int)
                        =~= out@.map_values(|x: String| x@) + lines_from(v@, i + 1));
                }
                start = i + 1;
            },
            None => {
                let line = string_of(&v, start, n);
                out.push(line);
                proof {
                    assert(out@.map_values(|x: String| x@) =~= before.map_values(|x: String| x@).push(line@));
                    assert(lines_from(v@, start as int) == seq![line@]);
                    assert(lines_from(v@, n as int) =~= Seq::<Seq<char>>::empty());
                    assert(before.map_values(|x: String| x@) + lines_from(v@, start as int)
                        =~= out@.map_values(|x: String| x@) + lines_from(v@, n as int));
                }
                start = n;
            },
        }
    }
    proof {
        assert(lines_from(v@, start as int) =~= Seq::<Seq<char>>::empty());
        assert(out@.map_values(|x: String| x@) =~= out@.map_values(|x: String| x@) + lines_from(v@, start as int));
    }
    out
}

/// `n` copies of `c` (`c.to_string().repeat(n)`).
pub fn repeated(c: char, n: usize) -> (r: String)
    ensures
        r@ == Seq::new(n as nat, |i: int| c),
{
    let mut s = String::new();
    let mut i: usize = 0;
    while i < n
        invariant
            i <= n,
            s@ == Seq::new(i as nat, |j: int| c),
        decreases n - i,
    {
        push_char(&mut s, c);
        assert(s@ =~= Seq::new((i + 1) as nat, |j: int| c));
        i = i + 1;
    }
    s
}

} // verus!

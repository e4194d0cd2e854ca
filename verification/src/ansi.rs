//! ANSI escape sequences: visible length, stripping and truncation.
//!
//! An escape starts with `ESC`. `ESC [` opens a control sequence that runs up to and
//! including the first ASCII letter.
use vstd::prelude::*;
use crate::text::{is_alpha, char_is_alpha, push_char};

verus! {

pub const ESC: char = '\x1b';

pub const RST: &'static str = "\x1b[0m";
pub const BLD: &'static str = "\x1b[1m";
pub const DIM: &'static str = "\x1b[2m";
pub const UND: &'static str = "\x1b[4m";
pub const RED: &'static str = "\x1b[31m";
pub const GRN: &'static str = "\x1b[32m";
pub const YEL: &'static str = "\x1b[33m";
pub const BLU: &'static str = "\x1b[34m";
pub const MAG: &'static str = "\x1b[35m";
pub const CYN: &'static str = "\x1b[36m";
pub const WHT: &'static str = "\x1b[37m";
pub const GRY: &'static str = "\x1b[90m";
pub const LRE: &'static str = "\x1b[91m";
pub const LGR: &'static str = "\x1b[92m";
pub const LYL: &'static str = "\x1b[93m";
pub const LBL: &'static str = "\x1b[94m";
pub const LMA: &'static str = "\x1b[95m";
pub const LCY: &'static str = "\x1b[96m";

/// Where a left-to-right scan stands with respect to escape sequences.
#[derive(Clone, Copy, PartialEq, Eq, Structural)]
pub enum Scan {
    /// Ordinary text.
    Text,
    /// Just after an `ESC`.
    Escape,
    /// Inside `ESC [ ...`, before its final letter.
    Sequence,
}

/// How `strip_ansi` and `vis_len` read `ESC`: the character after it is always
/// consumed; if it is `[`, everything up to the next letter is consumed too.
pub open spec fn next_scan(st: Scan, c: char) -> Scan {
    match st {
        Scan::Text => if c == ESC { Scan::Escape } else { Scan::Text },
        Scan::Escape => if c == '[' { Scan::Sequence } else { Scan::Text },
        Scan::Sequence => if is_alpha(c) { Scan::Text } else { Scan::Sequence },
    }
}

/// Whether `c`, read in state `st`, is visible text.
pub open spec fn shows(st: Scan, c: char) -> bool {
    st == Scan::Text && c != ESC
}

/// The visible characters of `s`, read from state `st`.
pub open spec fn stripped_from(st: Scan, s: Seq<char>) -> Seq<char>
    decreases s.len(),
{
    if s.len() == 0 {
        seq![]
    } else {
        let rest = stripped_from(next_scan(st, s[0]), s.drop_first());
        if shows(st, s[0]) {
            seq![s[0]] + rest
        } else {
            rest
        }
    }
}

/// `s` with every escape sequence removed.
pub open spec fn stripped(s: Seq<char>) -> Seq<char> {
    stripped_from(Scan::Text, s)
}

pub open spec fn is_line_break(c: char) -> bool {
    c == '\n' || c == '\r'
}

/// The number of characters of `s` that are not line breaks.
pub open spec fn count_non_breaks(s: Seq<char>) -> nat
    decreases s.len(),
{
    if s.len() == 0 {
        0
    } else {
        (if is_line_break(s[0]) { 0nat } else { 1nat }) + count_non_breaks(s.drop_first())
    }
}

/// The visible length: the characters left after stripping, line breaks not counted.
pub open spec fn visible_len(s: Seq<char>) -> nat {
    count_non_breaks(stripped(s))
}

proof fn lemma_count_non_breaks_cons(c: char, r: Seq<char>)
    ensures
        count_non_breaks(seq![c] + r) == (if is_line_break(c) { 0nat } else { 1nat })
            + count_non_breaks(r),
{
    assert((seq![c] + r).drop_first() =~= r);
}

proof fn lemma_count_non_breaks_le(s: Seq<char>)
    ensures
        count_non_breaks(s) <= s.len(),
    decreases s.len(),
{
    if s.len() > 0 {
        lemma_count_non_breaks_le(s.drop_first());
    }
}

proof fn lemma_stripped_len(st: Scan, s: Seq<char>)
    ensures
        stripped_from(st, s).len() <= s.len(),
    decreases s.len(),
{
    if s.len() > 0 {
        lemma_stripped_len(next_scan(st, s[0]), s.drop_first());
    }
}

fn step_scan(st: Scan, c: char) -> (r: Scan)
    ensures
        r == next_scan(st, c),
{
    match st {
        Scan::Text => if c == ESC { Scan::Escape } else { Scan::Text },
        Scan::Escape => if c == '[' { Scan::Sequence } else { Scan::Text },
        Scan::Sequence => if char_is_alpha(c) { Scan::Text } else { Scan::Sequence },
    }
}

/// Returns the visible length of a string that may contain ANSI escape codes.
pub fn vis_len(s: &str) -> (n: usize)
    ensures
        n == visible_len(s@),
{
    let total = s.unicode_len();
    let ghost full = s@;
    let mut n: usize = 0;
    let mut st = Scan::Text;
    proof {
        assert(full.skip(0) =~= full);
        lemma_stripped_len(Scan::Text, full);
        lemma_count_non_breaks_le(stripped(full));
    }
    for c in it: s.chars()
        invariant
            it.seq() == full,
            total == full.len(),
            n + count_non_breaks(stripped_from(st, full.skip(it.index() as int)))
                == visible_len(full),
            visible_len(full) <= total,
    {
        let ghost rest = full.skip(it.index() as int);
        proof {
            assert(rest.drop_first() =~= full.skip(it.index() + 1));
            assert(rest[0] == c);
            if shows(st, c) {
                lemma_count_non_breaks_cons(c, stripped_from(next_scan(st, c), rest.drop_first()));
            }
        }
        if shows_exec(st, c) && c != '\n' && c != '\r' {
            n = n + 1;
        }
        st = step_scan(st, c);
    }
    n
}

fn shows_exec(st: Scan, c: char) -> (r: bool)
    ensures
        r == shows(st, c),
{
    match st {
        Scan::Text => c != ESC,
        _ => false,
    }
}

/// Remove all ANSI escape codes from a string.
pub fn strip_ansi(s: &str) -> (r: String)
    ensures
        r@ == stripped(s@),
{
    let ghost full = s@;
    let mut out = String::new();
    let mut st = Scan::Text;
    proof {
        assert(full.skip(0) =~= full);
    }
    for c in it: s.chars()
        invariant
            it.seq() == full,
            out@ + stripped_from(st, full.skip(it.index() as int)) == stripped(full),
    {
        let ghost rest = full.skip(it.index() as int);
        proof {
            assert(rest.drop_first() =~= full.skip(it.index() + 1));
            assert(rest[0] == c);
        }
        let ghost before = out@;
        if shows_exec(st, c) {
            push_char(&mut out, c);
            assert(out@ + stripped_from(next_scan(st, c), rest.drop_first()) =~= before
                + stripped_from(st, rest));
        }
        st = step_scan(st, c);
    }
    proof {
        assert(full.skip(full.len() as int) =~= Seq::<char>::empty());
        assert(out@ =~= out@ + Seq::<char>::empty());
    }
    out
}

/// Where a truncating scan stands: like `Scan`, but a lone `ESC` only drops itself,
/// and the character after it is read as ordinary text.
#[derive(Clone, Copy, PartialEq, Eq, Structural)]
pub enum Cut {
    Text,
    /// An `ESC` was seen and is not yet known to open a sequence.
    Pending,
    /// Inside `ESC [ ...`: these characters are copied, not counted.
    Sequence,
}

/// What `truncate_vis` keeps of `s`, read from state `st` with `len` visible
/// characters already kept and at most `max` allowed.
pub open spec fn truncated_from(st: Cut, len: nat, max: nat, s: Seq<char>) -> Seq<char>
    decreases s.len(),
{
    if s.len() == 0 {
        seq![]
    } else {
        let c = s[0];
        let rest = s.drop_first();
        if st == Cut::Sequence {
            seq![c] + truncated_from(
                if is_alpha(c) { Cut::Text } else { Cut::Sequence },
                len,
                max,
                rest,
            )
        } else if st == Cut::Pending && c == '[' {
            seq![ESC, '['] + truncated_from(Cut::Sequence, len, max, rest)
        } else if c == ESC {
            truncated_from(Cut::Pending, len, max, rest)
        } else if len >= max {
            seq![]
        } else {
            seq![c] + truncated_from(Cut::Text, len + 1, max, rest)
        }
    }
}

/// `s` cut after `max` visible characters, escape sequences kept.
pub open spec fn truncated(s: Seq<char>, max: nat) -> Seq<char> {
    truncated_from(Cut::Text, 0, max, s)
}

/// Truncates a string that may contain ANSI escape codes to a maximum visible length.
pub fn truncate_vis(s: &str, max_len: usize) -> (r: String)
    ensures
        r@ == truncated(s@, max_len as nat),
{
    let ghost full = s@;
    let mut out = String::new();
    let mut st = Cut::Text;
    let mut len: usize = 0;
    let mut done = false;
    proof {
        assert(full.skip(0) =~= full);
        assert(out@ + truncated_from(st, len as nat, max_len as nat, full.skip(0))
            =~= truncated(full, max_len as nat));
    }
    for c in it: s.chars()
        invariant
            it.seq() == full,
            len <= max_len,
            !done ==> out@ + truncated_from(st, len as nat, max_len as nat, full.skip(it.index() as int))
                == truncated(full, max_len as nat),
            done ==> out@ == truncated(full, max_len as nat),
    {
        let ghost rest = full.skip(it.index() as int);
        let ghost before = out@;
        let ghost st0 = st;
        let ghost len0 = len;
        proof {
            assert(rest.drop_first() =~= full.skip(it.index() + 1));
            assert(rest[0] == c);
        }
        if !done {
            match st {
                Cut::Sequence => {
                    push_char(&mut out, c);
                    if char_is_alpha(c) {
                        st = Cut::Text;
                    }
                    assert(out@ + truncated_from(st, len as nat, max_len as nat, rest.drop_first())
                        =~= before + truncated_from(st0, len0 as nat, max_len as nat, rest));
                },
                _ => {
                    let pending = match st {
                        Cut::Pending => true,
                        _ => false,
                    };
                    if pending && c == '[' {
                        push_char(&mut out, ESC);
                        push_char(&mut out, '[');
                        st = Cut::Sequence;
                        assert(out@ + truncated_from(st, len as nat, max_len as nat, rest.drop_first())
                            =~= before + truncated_from(st0, len0 as nat, max_len as nat, rest));
                    } else if c == ESC {
                        st = Cut::Pending;
                    } else if len >= max_len {
                        done = true;
                        assert(out@ =~= before + Seq::<char>::empty());
                    } else {
                        push_char(&mut out, c);
                        len = len + 1;
                        st = Cut::Text;
                        assert(out@ + truncated_from(st, len as nat, max_len as nat, rest.drop_first())
                            =~= before + truncated_from(st0, len0 as nat, max_len as nat, rest));
                    }
                },
            }
        }
    }
    proof {
        if !done {
            assert(full.skip(full.len() as int) =~= Seq::<char>::empty());
            assert(out@ =~= out@ + Seq::<char>::empty());
        }
    }
    out
}

/// A string slice holds no `ESC` character.
pub open spec fn plain(s: Seq<char>) -> bool {
    forall|i: int| 0 <= i < s.len() ==> s[i] != ESC
}

proof fn lemma_stripped_cons(st: Scan, c: char, r: Seq<char>)
    ensures
        stripped_from(st, seq![c] + r) == (if shows(st, c) {
            seq![c] + stripped_from(next_scan(st, c), r)
        } else {
            stripped_from(next_scan(st, c), r)
        }),
{
    assert((seq![c] + r)[0] == c);
    assert((seq![c] + r).drop_first() =~= r);
}

proof fn lemma_stripped_plain(s: Seq<char>)
    requires
        plain(s),
    ensures
        stripped_from(Scan::Text, s) == s,
    decreases s.len(),
{
    if s.len() > 0 {
        lemma_stripped_plain(s.drop_first());
        assert(seq![s[0]] + s.drop_first() =~= s);
    }
}

/// Plain text before a reset code is all that is left of both.
pub proof fn lemma_stripped_plain_then_reset(a: Seq<char>)
    requires
        plain(a),
    ensures
        stripped(a + RST@) == a,
    decreases a.len(),
{
    reveal_strlit("\x1b[0m");
    if a.len() > 0 {
        lemma_stripped_plain_then_reset(a.drop_first());
        assert(a + RST@ =~= seq![a[0]] + (a.drop_first() + RST@));
        lemma_stripped_cons(Scan::Text, a[0], a.drop_first() + RST@);
        assert(seq![a[0]] + a.drop_first() =~= a);
    } else {
        let r = RST@;
        assert(a + r =~= r);
        assert(r =~= seq![ESC] + seq!['[', '0', 'm']);
        lemma_stripped_cons(Scan::Text, ESC, seq!['[', '0', 'm']);
        assert(seq!['[', '0', 'm'] =~= seq!['['] + seq!['0', 'm']);
        lemma_stripped_cons(Scan::Escape, '[', seq!['0', 'm']);
        assert(seq!['0', 'm'] =~= seq!['0'] + seq!['m']);
        lemma_stripped_cons(Scan::Sequence, '0', seq!['m']);
        assert(seq!['m'] =~= seq!['m'] + Seq::<char>::empty());
        lemma_stripped_cons(Scan::Sequence, 'm', Seq::<char>::empty());
        assert(is_alpha('m'));
        assert(a =~= Seq::<char>::empty());
    }
}

proof fn lemma_stripped_is_plain(st: Scan, s: Seq<char>)
    ensures
        plain(stripped_from(st, s)),
    decreases s.len(),
{
    if s.len() > 0 {
        lemma_stripped_is_plain(next_scan(st, s[0]), s.drop_first());
        let r = stripped_from(next_scan(st, s[0]), s.drop_first());
        if shows(st, s[0]) {
            assert forall|i: int| 0 <= i < (seq![s[0]] + r).len() implies (seq![s[0]] + r)[i]
                != ESC by {
                if i > 0 {
                    assert((seq![s[0]] + r)[i] == r[i - 1]);
                }
            }
        }
    }
}

/// Stripping is idempotent: what `strip_ansi` returns holds no escape codes,
/// so stripping it again changes nothing.
pub proof fn law_strip_idempotent(s: Seq<char>)
    ensures
        stripped(stripped(s)) == stripped(s),
        plain(stripped(s)),
{
    lemma_stripped_is_plain(Scan::Text, s);
    lemma_stripped_plain(stripped(s));
}

/// Text without escape codes is left as it is by `strip_ansi`, and its visible
/// length is its number of characters other than line breaks.
pub proof fn law_plain_text_unchanged(s: Seq<char>)
    requires
        plain(s),
    ensures
        stripped(s) == s,
        visible_len(s) == count_non_breaks(s),
{
    lemma_stripped_plain(s);
}

pub open spec fn scan_of(st: Cut) -> Scan {
    match st {
        Cut::Sequence => Scan::Sequence,
        _ => Scan::Text,
    }
}

proof fn lemma_truncated_visible(st: Cut, len: nat, max: nat, s: Seq<char>)
    requires
        len <= max,
    ensures
        stripped_from(scan_of(st), truncated_from(st, len, max, s)).len() + len <= max,
    decreases s.len(),
{
    if s.len() > 0 {
        let c = s[0];
        let rest = s.drop_first();
        if st == Cut::Sequence {
            let nst = if is_alpha(c) { Cut::Text } else { Cut::Sequence };
            lemma_truncated_visible(nst, len, max, rest);
            lemma_stripped_cons(Scan::Sequence, c, truncated_from(nst, len, max, rest));
        } else if st == Cut::Pending && c == '[' {
            let t = truncated_from(Cut::Sequence, len, max, rest);
            lemma_truncated_visible(Cut::Sequence, len, max, rest);
            assert(seq![ESC, '['] + t =~= seq![ESC] + (seq!['['] + t));
            lemma_stripped_cons(Scan::Text, ESC, seq!['['] + t);
            lemma_stripped_cons(Scan::Escape, '[', t);
        } else if c == ESC {
            lemma_truncated_visible(Cut::Pending, len, max, rest);
        } else if len >= max {
        } else {
            let t = truncated_from(Cut::Text, len + 1, max, rest);
            lemma_truncated_visible(Cut::Text, len + 1, max, rest);
            lemma_stripped_cons(Scan::Text, c, t);
        }
    }
}

/// What `truncate_vis` keeps shows at most `max` characters once its escape
/// codes are stripped.
pub proof fn law_truncate_bounds_visible(s: Seq<char>, max: nat)
    ensures
        stripped(truncated(s, max)).len() <= max,
        visible_len(truncated(s, max)) <= max,
{
    lemma_truncated_visible(Cut::Text, 0, max, s);
    lemma_stripped_len(Scan::Text, truncated(s, max));
    lemma_count_non_breaks_le(stripped(truncated(s, max)));
}

proof fn lemma_truncated_plain(len: nat, max: nat, s: Seq<char>)
    requires
        plain(s),
        len <= max,
    ensures
        truncated_from(Cut::Text, len, max, s) == s.take(
            if s.len() <= max - len { s.len() as int } else { max - len },
        ),
    decreases s.len(),
{
    if s.len() > 0 {
        if len < max {
            lemma_truncated_plain(len + 1, max, s.drop_first());
            assert(seq![s[0]] + s.drop_first().take(
                if s.drop_first().len() <= max - (len + 1) { s.drop_first().len() as int } else { max - (len + 1) },
            ) =~= s.take(if s.len() <= max - len { s.len() as int } else { max - len }));
        } else {
            assert(s.take(0) =~= Seq::<char>::empty());
        }
    } else {
        assert(s.take(0) =~= s);
    }
}

/// The state a second truncating scan is in, over the output of a first one in
/// state `st`: an `ESC` that the first scan held back was not written out.
pub open spec fn rescan_state(st: Cut) -> Cut {
    if st == Cut::Sequence {
        Cut::Sequence
    } else {
        Cut::Text
    }
}

proof fn lemma_truncated_again(st: Cut, len: nat, max: nat, s: Seq<char>, len2: nat, max2: nat)
    requires
        len <= max,
        len2 <= max2,
        max - len <= max2 - len2,
    ensures
        truncated_from(rescan_state(st), len2, max2, truncated_from(st, len, max, s)) == truncated_from(
            st,
            len,
            max,
            s,
        ),
    decreases s.len(),
{
    if s.len() > 0 {
        let c = s[0];
        let rest = s.drop_first();
        if st == Cut::Sequence {
            let nst = if is_alpha(c) { Cut::Text } else { Cut::Sequence };
            let t = truncated_from(nst, len, max, rest);
            lemma_truncated_again(nst, len, max, rest, len2, max2);
            assert((seq![c] + t)[0] == c);
            assert((seq![c] + t).drop_first() =~= t);
        } else if st == Cut::Pending && c == '[' {
            let t = truncated_from(Cut::Sequence, len, max, rest);
            lemma_truncated_again(Cut::Sequence, len, max, rest, len2, max2);
            let u = seq![ESC, '['] + t;
            assert(u[0] == ESC);
            assert(u.drop_first() =~= seq!['['] + t);
            assert((seq!['['] + t)[0] == '[');
            assert((seq!['['] + t).drop_first() =~= t);
            assert(truncated_from(Cut::Pending, len2, max2, seq!['['] + t) == seq![ESC, '['] + truncated_from(
                Cut::Sequence,
                len2,
                max2,
                t,
            ));
            assert(truncated_from(Cut::Text, len2, max2, u) == truncated_from(Cut::Pending, len2, max2, seq!['['] + t));
        } else if c == ESC {
            lemma_truncated_again(Cut::Pending, len, max, rest, len2, max2);
        } else if len >= max {
        } else {
            let t = truncated_from(Cut::Text, len + 1, max, rest);
            lemma_truncated_again(Cut::Text, len + 1, max, rest, len2 + 1, max2);
            assert((seq![c] + t)[0] == c);
            assert((seq![c] + t).drop_first() =~= t);
        }
    }
}

/// Truncating again, to the same or a larger number of visible characters,
/// changes nothing.
pub proof fn law_truncate_again_unchanged(s: Seq<char>, n: nat, m: nat)
    requires
        n <= m,
    ensures
        truncated(truncated(s, n), m) == truncated(s, n),
{
    lemma_truncated_again(Cut::Text, 0, n, s, 0, m);
}

/// Every `ESC` of `s` opens a control sequence: a `[` follows it.
pub open spec fn escapes_open_sequences(s: Seq<char>) -> bool {
    forall|i: int| 0 <= i < s.len() && #[trigger] s[i] == ESC ==> i + 1 < s.len() && s[i + 1] == '['
}

/// At most the first `n` characters of `x`.
pub open spec fn first_at_most(x: Seq<char>, n: int) -> Seq<char> {
    if x.len() <= n {
        x
    } else {
        x.take(n)
    }
}

proof fn lemma_truncated_prefix(st: Cut, len: nat, max: nat, s: Seq<char>)
    requires
        st != Cut::Pending,
        len <= max,
        escapes_open_sequences(s),
    ensures
        truncated_from(st, len, max, s).len() <= s.len(),
        truncated_from(st, len, max, s) == s.take(truncated_from(st, len, max, s).len() as int),
        stripped_from(scan_of(st), truncated_from(st, len, max, s)) == first_at_most(
            stripped_from(scan_of(st), s),
            max - len,
        ),
    decreases s.len(),
{
    let r = truncated_from(st, len, max, s);
    if s.len() == 0 {
        assert(s.take(0) =~= s);
    } else {
        let c = s[0];
        let rest = s.drop_first();
        assert(escapes_open_sequences(rest)) by {
            assert forall|i: int| 0 <= i < rest.len() && #[trigger] rest[i] == ESC implies i + 1 < rest.len()
                && rest[i + 1] == '[' by {
                assert(s[i + 1] == rest[i]);
            }
        }
        if st == Cut::Sequence {
            let nst = if is_alpha(c) { Cut::Text } else { Cut::Sequence };
            let t = truncated_from(nst, len, max, rest);
            lemma_truncated_prefix(nst, len, max, rest);
            lemma_stripped_cons(Scan::Sequence, c, t);
            assert(scan_of(nst) == next_scan(Scan::Sequence, c));
            assert(r =~= s.take(r.len() as int));
        } else if c == ESC {
            assert(s[1] == '[');
            let rest2 = rest.drop_first();
            assert(rest[0] == '[');
            assert(escapes_open_sequences(rest2)) by {
                assert forall|i: int| 0 <= i < rest2.len() && #[trigger] rest2[i] == ESC implies i + 1
                    < rest2.len() && rest2[i + 1] == '[' by {
                    assert(rest[i + 1] == rest2[i]);
                }
            }
            let t = truncated_from(Cut::Sequence, len, max, rest2);
            lemma_truncated_prefix(Cut::Sequence, len, max, rest2);
            assert(truncated_from(Cut::Pending, len, max, rest) == seq![ESC, '['] + t);
            assert(r == seq![ESC, '['] + t);
            assert(seq![ESC, '['] + t =~= seq![ESC] + (seq!['['] + t));
            lemma_stripped_cons(Scan::Text, ESC, seq!['['] + t);
            lemma_stripped_cons(Scan::Escape, '[', t);
            assert(stripped_from(Scan::Text, s) == stripped_from(Scan::Escape, rest));
            assert(stripped_from(Scan::Escape, rest) == stripped_from(Scan::Sequence, rest2));
            assert(r =~= s.take(r.len() as int));
        } else if len >= max {
            assert(s.take(0) =~= r);
            assert(stripped_from(Scan::Text, s) =~= seq![c] + stripped_from(Scan::Text, rest));
            assert(first_at_most(stripped_from(Scan::Text, s), 0) =~= Seq::<char>::empty());
        } else {
            let t = truncated_from(Cut::Text, len + 1, max, rest);
            lemma_truncated_prefix(Cut::Text, len + 1, max, rest);
            lemma_stripped_cons(Scan::Text, c, t);
            let x = stripped_from(Scan::Text, rest);
            assert(stripped_from(Scan::Text, s) =~= seq![c] + x);
            assert(first_at_most(seq![c] + x, max - len) =~= seq![c] + first_at_most(x, max - (len + 1)));
            assert(r =~= s.take(r.len() as int));
        }
    }
}

/// On a line whose escapes all open control sequences, `truncate_vis` keeps a
/// prefix of it that shows exactly its first `max` visible characters (all of
/// them when there are fewer).
pub proof fn law_truncate_keeps_visible_prefix(s: Seq<char>, max: nat)
    requires
        escapes_open_sequences(s),
    ensures
        truncated(s, max).len() <= s.len(),
        truncated(s, max) == s.take(truncated(s, max).len() as int),
        stripped(truncated(s, max)) == first_at_most(stripped(s), max as int),
{
    lemma_truncated_prefix(Cut::Text, 0, max, s);
}

/// On text without escape codes, `truncate_vis` keeps exactly the first `max`
/// characters (all of them when there are fewer).
pub proof fn law_truncate_plain_is_prefix(s: Seq<char>, max: nat)
    requires
        plain(s),
    ensures
        truncated(s, max) == s.take(if s.len() <= max { s.len() as int } else { max as int }),
{
    lemma_truncated_plain(0, max, s);
}

} // verus!

//! Turning ANSI-coded text into styled runs for the terminal renderer.
use vstd::prelude::*;
use crate::ansi::{escapes_open_sequences, next_scan, shows, stripped, stripped_from, Scan, ESC};
use crate::text::{is_alpha, char_is_alpha, push_char, parsed_u8, parse_u8};

verus! {

/// The terminal colours that the views use, by their SGR foreground codes.
#[derive(Clone, Copy, PartialEq, Eq, Debug, Structural)]
pub enum TermColor {
    Red,
    Green,
    Yellow,
    Blue,
    Magenta,
    Cyan,
    White,
    DarkGray,
    LightRed,
    LightGreen,
    LightYellow,
    LightBlue,
    LightMagenta,
    LightCyan,
}

pub open spec fn color_of_code(n: u8) -> TermColor {
    if n == 31 { TermColor::Red }
    else if n == 32 { TermColor::Green }
    else if n == 33 { TermColor::Yellow }
    else if n == 34 { TermColor::Blue }
    else if n == 35 { TermColor::Magenta }
    else if n == 36 { TermColor::Cyan }
    else if n == 90 { TermColor::DarkGray }
    else if n == 91 { TermColor::LightRed }
    else if n == 92 { TermColor::LightGreen }
    else if n == 93 { TermColor::LightYellow }
    else if n == 94 { TermColor::LightBlue }
    else if n == 95 { TermColor::LightMagenta }
    else if n == 96 { TermColor::LightCyan }
    else { TermColor::White }
}

pub open spec fn code_of_color(c: TermColor) -> u8 {
    match c {
        TermColor::Red => 31,
        TermColor::Green => 32,
        TermColor::Yellow => 33,
        TermColor::Blue => 34,
        TermColor::Magenta => 35,
        TermColor::Cyan => 36,
        TermColor::White => 37,
        TermColor::DarkGray => 90,
        TermColor::LightRed => 91,
        TermColor::LightGreen => 92,
        TermColor::LightYellow => 93,
        TermColor::LightBlue => 94,
        TermColor::LightMagenta => 95,
        TermColor::LightCyan => 96,
    }
}

/// The colour of an SGR foreground code; unknown codes give white.
pub fn ansi_num_to_color(n: u8) -> (c: TermColor)
    ensures
        c == color_of_code(n),
{
    match n {
        31 => TermColor::Red,
        32 => TermColor::Green,
        33 => TermColor::Yellow,
        34 => TermColor::Blue,
        35 => TermColor::Magenta,
        36 => TermColor::Cyan,
        37 => TermColor::White,
        90 => TermColor::DarkGray,
        91 => TermColor::LightRed,
        92 => TermColor::LightGreen,
        93 => TermColor::LightYellow,
        94 => TermColor::LightBlue,
        95 => TermColor::LightMagenta,
        96 => TermColor::LightCyan,
        _ => TermColor::White,
    }
}

/// The SGR foreground code of a colour.
pub fn color_to_ansi_num(c: TermColor) -> (n: u8)
    ensures
        n == code_of_color(c),
{
    match c {
        TermColor::Red => 31,
        TermColor::Green => 32,
        TermColor::Yellow => 33,
        TermColor::Blue => 34,
        TermColor::Magenta => 35,
        TermColor::Cyan => 36,
        TermColor::White => 37,
        TermColor::DarkGray => 90,
        TermColor::LightRed => 91,
        TermColor::LightGreen => 92,
        TermColor::LightYellow => 93,
        TermColor::LightBlue => 94,
        TermColor::LightMagenta => 95,
        TermColor::LightCyan => 96,
    }
}

/// Every colour survives a trip through its code, and every code that names a
/// colour survives a trip through the colour.
pub proof fn law_color_code_roundtrip(c: TermColor, n: u8)
    ensures
        color_of_code(code_of_color(c)) == c,
        (n == 31 || n == 32 || n == 33 || n == 34 || n == 35 || n == 36 || n == 37 || (90 <= n
            && n <= 96)) ==> code_of_color(color_of_code(n)) == n,
{
}

/// The style of a run of text: a foreground colour and the bold and dim modifiers.
#[derive(Clone, Copy, PartialEq, Eq, Debug, Structural)]
pub struct SpanStyle {
    pub fg: Option<TermColor>,
    pub bold: bool,
    pub dim: bool,
}

pub open spec fn plain_style() -> SpanStyle {
    SpanStyle { fg: None, bold: false, dim: false }
}

/// A run of text in one style.
pub struct StyledText {
    pub text: String,
    pub style: SpanStyle,
}

/// What one SGR parameter string does to the current style: `0` resets, `1`
/// adds bold, `2` adds dim, any other number sets the foreground colour, and
/// anything else changes nothing.
pub open spec fn apply_code(style: SpanStyle, code: Seq<char>) -> SpanStyle {
    if code == seq!['0'] {
        plain_style()
    } else if code == seq!['1'] {
        SpanStyle { bold: true, ..style }
    } else if code == seq!['2'] {
        SpanStyle { dim: true, ..style }
    } else {
        match parsed_u8(code) {
            Some(n) => SpanStyle { fg: Some(color_of_code(n)), ..style },
            None => style,
        }
    }
}

#[derive(Clone, Copy, PartialEq, Eq, Structural)]
pub enum ParseMode {
    Text,
    /// Just after an `ESC`.
    Pending,
    /// Reading the parameters of `ESC [`.
    Code,
}

/// The state of the run splitter after some prefix of the input.
pub struct SplitState {
    pub runs: Seq<(Seq<char>, SpanStyle)>,
    pub buf: Seq<char>,
    pub style: SpanStyle,
    pub mode: ParseMode,
    pub code: Seq<char>,
}

pub open spec fn flush(st: SplitState) -> Seq<(Seq<char>, SpanStyle)> {
    if st.buf.len() > 0 {
        st.runs.push((st.buf, st.style))
    } else {
        st.runs
    }
}

/// Reading one character.
pub open spec fn split_step(st: SplitState, c: char) -> SplitState {
    if st.mode == ParseMode::Code {
        if is_alpha(c) {
            SplitState { style: apply_code(st.style, st.code), mode: ParseMode::Text, code: seq![], ..st }
        } else {
            SplitState { code: st.code.push(c), ..st }
        }
    } else if st.mode == ParseMode::Pending && c == '[' {
        SplitState { runs: flush(st), buf: seq![], mode: ParseMode::Code, code: seq![], ..st }
    } else if c == ESC {
        SplitState { mode: ParseMode::Pending, ..st }
    } else {
        SplitState { buf: st.buf.push(c), mode: ParseMode::Text, ..st }
    }
}

pub open spec fn split_init() -> SplitState {
    SplitState { runs: seq![], buf: seq![], style: plain_style(), mode: ParseMode::Text, code: seq![] }
}

pub open spec fn split_run(s: Seq<char>) -> SplitState
    decreases s.len(),
{
    if s.len() == 0 {
        split_init()
    } else {
        split_step(split_run(s.drop_last()), s.last())
    }
}

/// The styled runs of `s`: text between escape sequences, each in the style
/// that the sequences before it set. Empty runs are left out.
pub open spec fn styled_runs(s: Seq<char>) -> Seq<(Seq<char>, SpanStyle)> {
    flush(split_run(s))
}

pub open spec fn runs_view(v: Seq<StyledText>) -> Seq<(Seq<char>, SpanStyle)> {
    v.map_values(|r: StyledText| (r.text@, r.style))
}

/// The texts of the runs, one after another.
pub open spec fn joined(runs: Seq<(Seq<char>, SpanStyle)>) -> Seq<char>
    decreases runs.len(),
{
    if runs.len() == 0 {
        seq![]
    } else {
        joined(runs.drop_last()) + runs.last().0
    }
}

/// Where the escape scan of `stripped` stands after reading `p` from `st`.
pub open spec fn scan_after(st: Scan, p: Seq<char>) -> Scan
    decreases p.len(),
{
    if p.len() == 0 {
        st
    } else {
        scan_after(next_scan(st, p[0]), p.drop_first())
    }
}

proof fn lemma_stripped_push(st: Scan, p: Seq<char>, c: char)
    ensures
        stripped_from(st, p.push(c)) == stripped_from(st, p) + (if shows(scan_after(st, p), c) {
            seq![c]
        } else {
            seq![]
        }),
        scan_after(st, p.push(c)) == next_scan(scan_after(st, p), c),
    decreases p.len(),
{
    let tail: Seq<char> = if shows(scan_after(st, p), c) { seq![c] } else { seq![] };
    if p.len() == 0 {
        assert(p.push(c) =~= seq![c]);
        assert(seq![c].drop_first() =~= Seq::<char>::empty());
        assert(seq![c][0] == c);
        assert(stripped_from(next_scan(st, c), Seq::<char>::empty()) =~= Seq::<char>::empty());
        assert(stripped_from(st, p) =~= Seq::<char>::empty());
        assert(scan_after(next_scan(st, c), Seq::<char>::empty()) == next_scan(st, c));
        assert(stripped_from(st, seq![c]) =~= Seq::<char>::empty() + tail);
    } else {
        let pd = p.drop_first();
        let st1 = next_scan(st, p[0]);
        assert(p.push(c).drop_first() =~= pd.push(c));
        assert(p.push(c)[0] == p[0]);
        lemma_stripped_push(st1, pd, c);
        let head: Seq<char> = if shows(st, p[0]) { seq![p[0]] } else { seq![] };
        assert(stripped_from(st, p) =~= head + stripped_from(st1, pd));
        assert(stripped_from(st, p.push(c)) =~= head + stripped_from(st1, pd.push(c)));
        assert(stripped_from(st, p.push(c)) =~= stripped_from(st, p) + tail);
    }
}

/// The scan modes of the run splitter and of `stripped` agree.
pub open spec fn modes_agree(m: ParseMode, sc: Scan) -> bool {
    &&& (m == ParseMode::Text <==> sc == Scan::Text)
    &&& (m == ParseMode::Pending <==> sc == Scan::Escape)
    &&& (m == ParseMode::Code <==> sc == Scan::Sequence)
}

proof fn lemma_split_prefix(s: Seq<char>, k: int)
    requires
        0 <= k <= s.len(),
        escapes_open_sequences(s),
    ensures
        ({
            let st = split_run(s.take(k));
            &&& modes_agree(st.mode, scan_after(Scan::Text, s.take(k)))
            &&& joined(st.runs) + st.buf == stripped(s.take(k))
            &&& forall|j: int| 0 <= j < st.runs.len() ==> (#[trigger] st.runs[j]).0.len() > 0
            &&& st.mode == ParseMode::Pending ==> k >= 1 && s[k - 1] == ESC
        }),
    decreases k,
{
    if k == 0 {
        assert(s.take(0) =~= Seq::<char>::empty());
        assert(joined(split_init().runs) + split_init().buf =~= Seq::<char>::empty());
    } else {
        lemma_split_prefix(s, k - 1);
        let p = s.take(k - 1);
        let c = s[k - 1];
        assert(s.take(k) =~= p.push(c));
        assert(s.take(k).drop_last() =~= p);
        let st0 = split_run(p);
        let st = split_run(s.take(k));
        assert(st == split_step(st0, c));
        lemma_stripped_push(Scan::Text, p, c);
        if st0.mode == ParseMode::Pending {
            assert(s[k - 2] == ESC);
            assert(c == '[');
            let fl = flush(st0);
            if st0.buf.len() > 0 {
                assert(fl.drop_last() =~= st0.runs);
                assert(joined(fl) == joined(st0.runs) + st0.buf);
                assert forall|j: int| 0 <= j < fl.len() implies (#[trigger] fl[j]).0.len() > 0 by {
                    if j < st0.runs.len() {
                        assert(fl[j] == st0.runs[j]);
                    }
                }
            }
            assert(joined(st.runs) + st.buf =~= joined(st0.runs) + st0.buf);
        } else if st0.mode == ParseMode::Text && c != ESC {
            assert(joined(st.runs) + st.buf =~= (joined(st0.runs) + st0.buf).push(c));
        } else {
            assert(joined(st.runs) + st.buf =~= joined(st0.runs) + st0.buf);
        }
    }
}

/// The runs of a line whose escapes all open control sequences hold its text
/// with the escape codes stripped, one run after another, and none is empty.
pub proof fn law_runs_join_to_stripped(s: Seq<char>)
    requires
        escapes_open_sequences(s),
    ensures
        joined(styled_runs(s)) == stripped(s),
        forall|j: int| 0 <= j < styled_runs(s).len() ==> (#[trigger] styled_runs(s)[j]).0.len() > 0,
{
    lemma_split_prefix(s, s.len() as int);
    assert(s.take(s.len() as int) =~= s);
    let st = split_run(s);
    if st.buf.len() > 0 {
        let fl = flush(st);
        assert(fl.drop_last() =~= st.runs);
        assert forall|j: int| 0 <= j < fl.len() implies (#[trigger] fl[j]).0.len() > 0 by {
            if j < st.runs.len() {
                assert(fl[j] == st.runs[j]);
            }
        }
    } else {
        assert(st.buf =~= Seq::<char>::empty());
        assert(joined(st.runs) + st.buf =~= joined(st.runs));
    }
}

fn code_style(style: SpanStyle, code: &Vec<char>) -> (r: SpanStyle)
    ensures
        r == apply_code(style, code@),
{
    if code.len() == 1 && code[0] == '0' {
        assert(code@ =~= seq!['0']);
        SpanStyle { fg: None, bold: false, dim: false }
    } else if code.len() == 1 && code[0] == '1' {
        assert(code@ =~= seq!['1']);
        SpanStyle { bold: true, ..style }
    } else if code.len() == 1 && code[0] == '2' {
        assert(code@ =~= seq!['2']);
        SpanStyle { dim: true, ..style }
    } else {
        assert(code@ != seq!['0'] && code@ != seq!['1'] && code@ != seq!['2']) by {
            if code@.len() == 1 {
                assert(code@[0] == code[0]);
            }
        }
        match parse_u8(code) {
            Some(n) => SpanStyle { fg: Some(ansi_num_to_color(n)), ..style },
            None => style,
        }
    }
}

/// Splits an ANSI-coded line into styled runs of text.
pub fn ansi_to_runs(s: &str) -> (runs: Vec<StyledText>)
    ensures
        runs_view(runs@) == styled_runs(s@),
{
    let ghost full = s@;
    let mut runs: Vec<StyledText> = Vec::new();
    let mut buf = String::new();
    let mut style = SpanStyle { fg: None, bold: false, dim: false };
    let mut mode = ParseMode::Text;
    let mut code: Vec<char> = Vec::new();
    proof {
        assert(full.take(0) =~= Seq::<char>::empty());
        assert(runs_view(runs@) =~= Seq::<(Seq<char>, SpanStyle)>::empty());
    }
    for c in it: s.chars()
        invariant
            it.seq() == full,
            ({
                let st = split_run(full.take(it.index() as int));
                &&& runs_view(runs@) == st.runs
                &&& buf@ == st.buf
                &&& style == st.style
                &&& mode == st.mode
                &&& code@ == st.code
            }),
    {
        let ghost i = it.index() as int;
        proof {
            assert(full.take(i + 1).drop_last() =~= full.take(i));
            assert(full.take(i + 1).last() == c);
        }
        match mode {
            ParseMode::Code => {
                if char_is_alpha(c) {
                    style = code_style(style, &code);
                    mode = ParseMode::Text;
                    code = Vec::new();
                    assert(code@ =~= Seq::<char>::empty());
                } else {
                    code.push(c);
                }
            },
            _ => {
                let pending = match mode {
                    ParseMode::Pending => true,
                    _ => false,
                };
                if pending && c == '[' {
                    if buf.as_str().unicode_len() > 0 {
                        let ghost before = runs@;
                        let ghost b = buf@;
                        runs.push(StyledText { text: buf, style });
                        assert(runs_view(runs@) =~= runs_view(before).push((b, style)));
                        buf = String::new();
                    }
                    mode = ParseMode::Code;
                    code = Vec::new();
                    assert(code@ =~= Seq::<char>::empty());
                } else if c == ESC {
                    mode = ParseMode::Pending;
                } else {
                    push_char(&mut buf, c);
                    mode = ParseMode::Text;
                }
            },
        }
    }
    proof {
        assert(full.take(full.len() as int) =~= full);
    }
    if buf.as_str().unicode_len() > 0 {
        let ghost before = runs@;
        let ghost b = buf@;
        let st = style;
        runs.push(StyledText { text: buf, style: st });
        assert(runs_view(runs@) =~= runs_view(before).push((b, st)));
    }
    runs
}

} // verus!

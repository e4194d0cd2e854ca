//! Cursor and scroll arithmetic of the list views.
use vstd::prelude::*;

verus! {

/// Rows of a list view: the terminal height (at least 1) less six rows of chrome.
pub open spec fn list_rows(term_h: u16) -> int {
    let h: int = if term_h >= 1 { term_h as int } else { 1 };
    if h >= 6 { h - 6 } else { 0 }
}

pub fn list_rows_exec(term_h: u16) -> (r: usize)
    ensures
        r == list_rows(term_h),
{
    let h: usize = if term_h >= 1 { term_h as usize } else { 1 };
    if h >= 6 { h - 6 } else { 0 }
}

/// Moving a list cursor `step` rows down: the cursor stops at the last row, and
/// the view scrolls so that the cursor stays within `rows` rows of the top.
pub open spec fn moved_down(cursor: usize, scroll: usize, len: nat, rows: int, step: int) -> (usize, usize) {
    let max: int = if len == 0 { 0 } else { len - 1 };
    let c: int = if cursor + step > max { max } else { cursor + step };
    let s: int = if c >= scroll + rows { (if c >= rows { c - rows } else { 0 }) + 1 } else { scroll as int };
    (c as usize, s as usize)
}

/// Moving a list cursor `step` rows up: the cursor stops at the first row, and
/// the view scrolls up to it when it leaves the top.
pub open spec fn moved_up(cursor: usize, scroll: usize, step: int) -> (usize, usize) {
    let c: int = if cursor >= step { cursor - step } else { 0 };
    (c as usize, if c < scroll { c as usize } else { scroll })
}

pub fn move_down(cursor: usize, scroll: usize, len: usize, rows: usize, step: usize) -> (r: (usize, usize))
    requires
        cursor + step <= usize::MAX,
        scroll + rows <= usize::MAX,
    ensures
        r == moved_down(cursor, scroll, len as nat, rows as int, step as int),
{
    let max = if len == 0 { 0 } else { len - 1 };
    let c = if cursor + step > max { max } else { cursor + step };
    let s = if c >= scroll + rows { (if c >= rows { c - rows } else { 0 }) + 1 } else { scroll };
    (c, s)
}

pub fn move_up(cursor: usize, scroll: usize, step: usize) -> (r: (usize, usize))
    ensures
        r == moved_up(cursor, scroll, step as int),
{
    let c = if cursor >= step { cursor - step } else { 0 };
    (c, if c < scroll { c } else { scroll })
}

/// After moving down within a non-empty list, the cursor is on a row of the list
/// and at most `rows` rows below the top of the view.
pub proof fn law_move_down_keeps_cursor_in_view(cursor: usize, scroll: usize, len: nat, rows: int, step: int)
    requires
        len > 0,
        rows >= 1,
        step >= 0,
        len <= usize::MAX,
        scroll <= cursor,
        cursor < len,
    ensures
        ({
            let (c, s) = moved_down(cursor, scroll, len, rows, step);
            &&& c < len
            &&& s <= c < s + rows
        }),
{
}

/// Moving up never leaves the cursor above the view.
pub proof fn law_move_up_keeps_cursor_in_view(cursor: usize, scroll: usize, step: int)
    requires
        step >= 0,
    ensures
        ({
            let (c, s) = moved_up(cursor, scroll, step);
            &&& c <= cursor
            &&& s <= c
        }),
{
}

/// The part of a list that a view of `vis` rows draws: the scroll position
/// (moved to show the cursor, if there is one, and kept within the list), the
/// rows drawn `[first, end)`, how many rows are above (shown as `↑ n more` when
/// not zero, taking a row), how many are below, and the number that the
/// `↓ n more` row shows (0 for no such row): the rows below less the row of the
/// upward marker, as the views count it.
pub struct Window {
    pub scroll: usize,
    pub first: usize,
    pub end: usize,
    pub above: usize,
    pub below: usize,
    pub more_below: usize,
}

pub open spec fn window_scroll(total: int, vis: int, cursor: Option<usize>, scroll: int) -> int {
    let max_scroll = if total >= vis { total - vis } else { 0 };
    let s1 = match cursor {
        Some(c) => {
            let a = if (c as int) < scroll { c as int } else { scroll };
            if c as int >= a + vis { (if c as int >= vis - 1 { c - (vis - 1) } else { 0 }) } else { a }
        },
        None => scroll,
    };
    if s1 < max_scroll { s1 } else { max_scroll }
}

/// The window of a list of `total` rows in `vis` rows (`vis` at least 1).
pub open spec fn window_of(total: int, vis: int, cursor: Option<usize>, scroll: int) -> (int, int, int, int) {
    let s = window_scroll(total, vis, cursor, scroll);
    let room = if s > 0 { vis - 1 } else { vis };
    let end = if s + room < total { s + room } else { total };
    (s, end, s, total - end)
}

/// The number on the `↓ n more` row of a window (0 for none): the rows after
/// the drawn ones, less one when the `↑` row was drawn.
pub open spec fn more_below_of(total: int, s: int, end: int) -> int {
    let marker: int = if s > 0 { 1 } else { 0 };
    if end + marker < total { total - end - marker } else { 0 }
}

pub fn list_window(total: usize, vis: usize, cursor: Option<usize>, scroll: usize) -> (w: Window)
    requires
        vis >= 1,
        scroll + vis <= usize::MAX,
        cursor matches Some(c) ==> c + vis <= usize::MAX,
    ensures
        ({
            let (s, end, above, below) = window_of(total as int, vis as int, cursor, scroll as int);
            &&& w.scroll == s && w.first == s && w.end == end && w.above == above && w.below == below
            &&& w.more_below == more_below_of(total as int, s, end)
        }),
{
    let max_scroll = if total >= vis { total - vis } else { 0 };
    let mut s = scroll;
    match cursor {
        Some(c) => {
            if c < s {
                s = c;
            }
            if c >= s + vis {
                s = if c >= vis - 1 { c - (vis - 1) } else { 0 };
            }
        },
        None => {},
    }
    if s > max_scroll {
        s = max_scroll;
    }
    let room = if s > 0 { vis - 1 } else { vis };
    let end = if s + room < total { s + room } else { total };
    let marker: usize = if s > 0 { 1 } else { 0 };
    let more_below = if end + marker < total { total - end - marker } else { 0 };
    Window { scroll: s, first: s, end, above: s, below: total - end, more_below }
}

/// The window of a list drawn under `head` header rows, in `vis` rows in all:
/// the scroll as `window_scroll` keeps it, the `↑` row when scrolled, as many
/// list rows as fit after the header and that row, and the number of the `↓`
/// row (0 for none) counted as the views count it: the rows after the drawn
/// ones, less the header rows and the `↑` row.
pub open spec fn headed_window_of(total: int, vis: int, cursor: Option<usize>, scroll: int, head: int) -> (int, int, int) {
    let s = window_scroll(total, vis, cursor, scroll);
    let marker: int = if s > 0 { 1 } else { 0 };
    let room = if vis >= head + marker { vis - head - marker } else { 0 };
    let end = if s + room < total { s + room } else { total };
    let more = if end + head + marker < total { total - end - head - marker } else { 0 };
    (s, end, more)
}

pub fn headed_window(total: usize, vis: usize, cursor: Option<usize>, scroll: usize, head: usize) -> (w: Window)
    requires
        vis >= 1,
        scroll + vis <= usize::MAX,
        cursor matches Some(c) ==> c + vis <= usize::MAX,
    ensures
        ({
            let (s, end, more) = headed_window_of(total as int, vis as int, cursor, scroll as int, head as int);
            &&& w.scroll == s && w.first == s && w.end == end && w.above == s && w.below == total - end
            &&& w.more_below == more
        }),
{
    let base = list_window(total, vis, cursor, scroll);
    let s = base.scroll;
    let marker: usize = if s > 0 { 1 } else { 0 };
    let room = if head <= vis && marker <= vis - head { vis - head - marker } else { 0 };
    let end = if room < total - s { s + room } else { total };
    let more = if head < total - end && marker < total - end - head { total - end - head - marker } else { 0 };
    Window { scroll: s, first: s, end, above: s, below: total - end, more_below: more }
}

/// The rows `[first, end)` that a view without markers draws of a list of
/// `total` rows in `vis` rows: the scroll kept within the list.
pub open spec fn plain_window_of(total: int, vis: int, scroll: int) -> (int, int) {
    let max_scroll = if total >= vis { total - vis } else { 0 };
    let s = if scroll < max_scroll { scroll } else { max_scroll };
    (s, if s + vis < total { s + vis } else { total })
}

pub fn plain_window(total: usize, vis: usize, scroll: usize) -> (r: (usize, usize))
    ensures
        r.0 == plain_window_of(total as int, vis as int, scroll as int).0,
        r.1 == plain_window_of(total as int, vis as int, scroll as int).1,
{
    let max_scroll = if total >= vis { total - vis } else { 0 };
    let s = if scroll < max_scroll { scroll } else { max_scroll };
    (s, if vis < total - s { s + vis } else { total })
}

/// A window never draws more rows than fit: the rows of the list, plus one row
/// for the upward marker when rows are hidden above, stay within `vis`; the
/// rows above, drawn and below add up to the list.
pub proof fn law_window_fits(total: int, vis: int, cursor: Option<usize>, scroll: int)
    requires
        vis >= 1,
        total >= 0,
        scroll >= 0,
    ensures
        ({
            let (s, end, above, below) = window_of(total, vis, cursor, scroll);
            &&& 0 <= s <= end <= total || (total == 0 && s == 0 && end == 0)
            &&& (end - s) + (if above > 0 { 1int } else { 0int }) <= vis
            &&& above + (end - s) + below == total
        }),
{
}

} // verus!

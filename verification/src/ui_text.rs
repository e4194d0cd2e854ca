//! The text of the screen around the views: the status bar, the key hints, the
//! input and message lines, the help box and the issue forms. Lines are strings
//! with ANSI colour codes, as the views draw them.
use vstd::prelude::*;
use crate::ansi::{BLD, CYN, DIM, GRY, LBL, LGR, LRE, LYL, RST};
use crate::issue_flow::{comma_labels, parse_comma_labels};
use crate::issues::strings_view;
use crate::render::{hash_head_ok, short_hash, spaces};
use crate::report::push_line;
use crate::gists::{join_strings, joined};
use crate::state::{AppMode, AppState};
use crate::text::{
    byte_head, chars_of, concat2, concat3, decimal, eq_str, push_str, repeated, split_lines, string_of,
    text_lines, u64_to_decimal,
};

verus! {

// ── Status bar ──────────────────────────────────────────────────────────────

/// How a piece of the status bar is drawn.
#[derive(Clone, Copy, PartialEq, Eq, Debug, Structural)]
pub enum Pill {
    Plain,
    Separator,
    Repo,
    Branch,
    Detached,
    Commits,
    Mode,
    Filter,
    Dates,
    Zoom,
    All,
    Meta,
    Compact,
}

/// The name of the view in the status bar.
pub open spec fn mode_label(mode: AppMode) -> Seq<char> {
    match mode {
        AppMode::Diff => " diff "@,
        AppMode::Files => " files "@,
        AppMode::Report | AppMode::ReportFilter => " report "@,
        AppMode::Help => " help "@,
        AppMode::TreeFilter => " filter "@,
        AppMode::SidebarFocus => " sidebar "@,
        AppMode::Issues => " issues "@,
        AppMode::IssueCreate => " issue create "@,
        AppMode::IssueDetail => " issue detail "@,
        AppMode::IssueEdit => " issue edit "@,
        AppMode::Gists | AppMode::GistsFilter => " gists "@,
        AppMode::GistContent => " gist content "@,
        AppMode::Repos | AppMode::ReposAdd => " repos "@,
        _ => " tree "@,
    }
}

fn mode_label_exec(mode: AppMode) -> (r: &'static str)
    ensures
        r@ == mode_label(mode),
{
    match mode {
        AppMode::Diff => " diff ",
        AppMode::Files => " files ",
        AppMode::Report | AppMode::ReportFilter => " report ",
        AppMode::Help => " help ",
        AppMode::TreeFilter => " filter ",
        AppMode::SidebarFocus => " sidebar ",
        AppMode::Issues => " issues ",
        AppMode::IssueCreate => " issue create ",
        AppMode::IssueDetail => " issue detail ",
        AppMode::IssueEdit => " issue edit ",
        AppMode::Gists | AppMode::GistsFilter => " gists ",
        AppMode::GistContent => " gist content ",
        AppMode::Repos | AppMode::ReposAdd => " repos ",
        _ => " tree ",
    }
}

/// A pill after a separator, when `on`.
pub open spec fn pill_if(on: bool, text: Seq<char>, p: Pill) -> Seq<(Seq<char>, Pill)> {
    if on { seq![(" │ "@, Pill::Separator), (text, p)] } else { seq![] }
}

/// The pieces of the status bar: the repository, the branch, the number of
/// commits, the view, then the filters and toggles that are on.
pub open spec fn status_bar(app: AppState) -> Seq<(Seq<char>, Pill)> {
    seq![
        (" "@, Pill::Plain),
        (" "@ + app.repo_name@ + " "@, Pill::Repo),
        (" │ "@, Pill::Separator),
        (" "@ + app.current_branch@ + " "@, if app.current_branch@ == "detached"@ { Pill::Detached } else { Pill::Branch }),
        (" │ "@, Pill::Separator),
        (" "@ + decimal(app.total as nat) + " commits "@, Pill::Commits),
        (" │ "@, Pill::Separator),
        (mode_label(app.mode), Pill::Mode),
    ] + pill_if(app.filter_text@.len() > 0, " /"@ + app.filter_text@ + " "@, Pill::Filter) + pill_if(
        app.date_from@.len() > 0 || app.date_to@.len() > 0,
        " 📅"@ + app.date_from@ + "→"@ + app.date_to@ + " "@,
        Pill::Dates,
    ) + pill_if(
        app.descendant_filter@.len() > 0,
        " ▼zoom:"@ + short_hash(app.descendant_filter@) + " "@,
        Pill::Zoom,
    ) + pill_if(app.show_all, " ALL "@, Pill::All) + pill_if(app.show_meta, " META "@, Pill::Meta) + pill_if(
        app.compact,
        " CMP "@,
        Pill::Compact,
    )
}

pub open spec fn pills_view(v: Seq<(String, Pill)>) -> Seq<(Seq<char>, Pill)> {
    v.map_values(|p: (String, Pill)| (p.0@, p.1))
}

fn push_pill(out: &mut Vec<(String, Pill)>, text: String, p: Pill)
    ensures
        pills_view(final(out)@) == pills_view(old(out)@).push((text@, p)),
{
    let ghost o = out@;
    out.push((text, p));
    assert(pills_view(out@) =~= pills_view(o).push((out@.last().0@, p)));
}

fn push_pill_if(out: &mut Vec<(String, Pill)>, on: bool, text: String, p: Pill)
    ensures
        pills_view(final(out)@) == pills_view(old(out)@) + pill_if(on, text@, p),
{
    let ghost o = pills_view(out@);
    if on {
        push_pill(out, String::from_str(" │ "), Pill::Separator);
        push_pill(out, text, p);
        assert(pills_view(out@) =~= o + pill_if(on, text@, p));
    } else {
        assert(pills_view(out@) =~= o + pill_if(on, text@, p));
    }
}

/// The status bar of the screen.
#[verifier::rlimit(60)]
pub fn status_bar_pills(app: &AppState) -> (r: Vec<(String, Pill)>)
    requires
        app.descendant_filter@.len() > 0 ==> hash_head_ok(app.descendant_filter@),
    ensures
        pills_view(r@) == status_bar(*app),
{
    let mut out: Vec<(String, Pill)> = Vec::new();
    push_pill(&mut out, String::from_str(" "), Pill::Plain);
    push_pill(&mut out, concat3(" ", app.repo_name.as_str(), " "), Pill::Repo);
    push_pill(&mut out, String::from_str(" │ "), Pill::Separator);
    let detached = eq_str(app.current_branch.as_str(), "detached");
    push_pill(
        &mut out,
        concat3(" ", app.current_branch.as_str(), " "),
        if detached { Pill::Detached } else { Pill::Branch },
    );
    push_pill(&mut out, String::from_str(" │ "), Pill::Separator);
    push_pill(&mut out, concat3(" ", u64_to_decimal(app.total as u64).as_str(), " commits "), Pill::Commits);
    push_pill(&mut out, String::from_str(" │ "), Pill::Separator);
    push_pill(&mut out, String::from_str(mode_label_exec(app.mode)), Pill::Mode);
    let ghost head = pills_view(out@);
    push_pill_if(
        &mut out,
        app.filter_text.as_str().unicode_len() > 0,
        concat3(" /", app.filter_text.as_str(), " "),
        Pill::Filter,
    );
    let has_dates = app.date_from.as_str().unicode_len() > 0 || app.date_to.as_str().unicode_len() > 0;
    let mut dates = concat3(" 📅", app.date_from.as_str(), "→");
    push_str(&mut dates, app.date_to.as_str());
    push_str(&mut dates, " ");
    push_pill_if(&mut out, has_dates, dates, Pill::Dates);
    let has_zoom = app.descendant_filter.as_str().unicode_len() > 0;
    let zoom = if has_zoom {
        let hv = chars_of(app.descendant_filter.as_str());
        let short = match byte_head(&hv, 7) {
            Some(x) => x,
            None => {
                assert(false);
                Vec::new()
            },
        };
        let ss = string_of(&short, 0, short.len());
        assert(ss@ =~= short@);
        concat3(" ▼zoom:", ss.as_str(), " ")
    } else {
        String::new()
    };
    push_pill_if(&mut out, has_zoom, zoom, Pill::Zoom);
    push_pill_if(&mut out, app.show_all, String::from_str(" ALL "), Pill::All);
    push_pill_if(&mut out, app.show_meta, String::from_str(" META "), Pill::Meta);
    push_pill_if(&mut out, app.compact, String::from_str(" CMP "), Pill::Compact);
    assert(pills_view(out@) =~= status_bar(*app));
    out
}

// ── Key hints ───────────────────────────────────────────────────────────────

/// The key hints at the bottom of the screen, for the view that has the keyboard.
pub open spec fn command_bar(mode: AppMode) -> Seq<char> {
    match mode {
        AppMode::SidebarFocus => "  "@ + DIM@ + "j/k"@ + RST@ + " ↕ select  "@ + DIM@ + "Enter"@ + RST@ + " confirm  "@ + DIM@ + "0"@ + RST@ + " reset  "@ + DIM@ + "Esc/b"@ + RST@ + " cancel"@ + RST@,
        AppMode::IssueDetail => "  "@ + DIM@ + "j/k"@ + RST@ + " ↕ scroll  "@ + DIM@ + "J/K"@ + RST@ + " page  "@ + DIM@ + "o"@ + RST@ + " open image  "@ + DIM@ + "Esc/q"@ + RST@ + " back"@ + RST@,
        AppMode::Issues => "  "@ + DIM@ + "j/k"@ + RST@ + " ↕  "@ + DIM@ + "Enter"@ + RST@ + " open  "@ + DIM@ + "x"@ + RST@ + " close  "@ + DIM@ + "e"@ + RST@ + " edit  "@ + DIM@ + "c"@ + RST@ + " create  "@ + DIM@ + "s"@ + RST@ + " state  "@ + DIM@ + "q"@ + RST@ + " quit"@ + RST@,
        AppMode::Repos => "  "@ + DIM@ + "j/k"@ + RST@ + " ↕  "@ + DIM@ + "Enter"@ + RST@ + " switch  "@ + DIM@ + "a"@ + RST@ + " add  "@ + DIM@ + "s"@ + RST@ + " scan  "@ + DIM@ + "x"@ + RST@ + " remove  "@ + DIM@ + "q"@ + RST@ + " quit"@ + RST@,
        _ => "  "@ + DIM@ + "j/k"@ + RST@ + " ↕  "@ + DIM@ + "d"@ + RST@ + " diff  "@ + DIM@ + "f"@ + RST@ + " files  "@ + DIM@ + "y"@ + RST@ + " copy  "@ + DIM@ + "D"@ + RST@ + " date  "@ + DIM@ + "R"@ + RST@ + " report  "@ + DIM@ + "/"@ + RST@ + " filter  "@ + DIM@ + "?"@ + RST@ + " help  "@ + DIM@ + "P"@ + RST@ + " repos  "@ + DIM@ + "\\\\'"@ + RST@ + " gists  "@ + DIM@ + "q"@ + RST@ + " quit"@ + RST@,
    }
}

fn hints_sidebar() -> (r: String)
    ensures
        r@ == "  "@ + DIM@ + "j/k"@ + RST@ + " ↕ select  "@ + DIM@ + "Enter"@ + RST@ + " confirm  "@ + DIM@ + "0"@ + RST@ + " reset  "@ + DIM@ + "Esc/b"@ + RST@ + " cancel"@ + RST@,
{
    let mut s = String::from_str("  ");
    push_str(&mut s, DIM);
    push_str(&mut s, "j/k");
    push_str(&mut s, RST);
    push_str(&mut s, " ↕ select  ");
    push_str(&mut s, DIM);
    push_str(&mut s, "Enter");
    push_str(&mut s, RST);
    push_str(&mut s, " confirm  ");
    push_str(&mut s, DIM);
    push_str(&mut s, "0");
    push_str(&mut s, RST);
    push_str(&mut s, " reset  ");
    push_str(&mut s, DIM);
    push_str(&mut s, "Esc/b");
    push_str(&mut s, RST);
    push_str(&mut s, " cancel");
    push_str(&mut s, RST);
    s
}

fn hints_detail() -> (r: String)
    ensures
        r@ == "  "@ + DIM@ + "j/k"@ + RST@ + " ↕ scroll  "@ + DIM@ + "J/K"@ + RST@ + " page  "@ + DIM@ + "o"@ + RST@ + " open image  "@ + DIM@ + "Esc/q"@ + RST@ + " back"@ + RST@,
{
    let mut s = String::from_str("  ");
    push_str(&mut s, DIM);
    push_str(&mut s, "j/k");
    push_str(&mut s, RST);
    push_str(&mut s, " ↕ scroll  ");
    push_str(&mut s, DIM);
    push_str(&mut s, "J/K");
    push_str(&mut s, RST);
    push_str(&mut s, " page  ");
    push_str(&mut s, DIM);
    push_str(&mut s, "o");
    push_str(&mut s, RST);
    push_str(&mut s, " open image  ");
    push_str(&mut s, DIM);
    push_str(&mut s, "Esc/q");
    push_str(&mut s, RST);
    push_str(&mut s, " back");
    push_str(&mut s, RST);
    s
}

fn hints_issues() -> (r: String)
    ensures
        r@ == "  "@ + DIM@ + "j/k"@ + RST@ + " ↕  "@ + DIM@ + "Enter"@ + RST@ + " open  "@ + DIM@ + "x"@ + RST@ + " close  "@ + DIM@ + "e"@ + RST@ + " edit  "@ + DIM@ + "c"@ + RST@ + " create  "@ + DIM@ + "s"@ + RST@ + " state  "@ + DIM@ + "q"@ + RST@ + " quit"@ + RST@,
{
    let mut s = String::from_str("  ");
    push_str(&mut s, DIM);
    push_str(&mut s, "j/k");
    push_str(&mut s, RST);
    push_str(&mut s, " ↕  ");
    push_str(&mut s, DIM);
    push_str(&mut s, "Enter");
    push_str(&mut s, RST);
    push_str(&mut s, " open  ");
    push_str(&mut s, DIM);
    push_str(&mut s, "x");
    push_str(&mut s, RST);
    push_str(&mut s, " close  ");
    push_str(&mut s, DIM);
    push_str(&mut s, "e");
    push_str(&mut s, RST);
    push_str(&mut s, " edit  ");
    push_str(&mut s, DIM);
    push_str(&mut s, "c");
    push_str(&mut s, RST);
    push_str(&mut s, " create  ");
    push_str(&mut s, DIM);
    push_str(&mut s, "s");
    push_str(&mut s, RST);
    push_str(&mut s, " state  ");
    push_str(&mut s, DIM);
    push_str(&mut s, "q");
    push_str(&mut s, RST);
    push_str(&mut s, " quit");
    push_str(&mut s, RST);
    s
}

fn hints_repos() -> (r: String)
    ensures
        r@ == "  "@ + DIM@ + "j/k"@ + RST@ + " ↕  "@ + DIM@ + "Enter"@ + RST@ + " switch  "@ + DIM@ + "a"@ + RST@ + " add  "@ + DIM@ + "s"@ + RST@ + " scan  "@ + DIM@ + "x"@ + RST@ + " remove  "@ + DIM@ + "q"@ + RST@ + " quit"@ + RST@,
{
    let mut s = String::from_str("  ");
    push_str(&mut s, DIM);
    push_str(&mut s, "j/k");
    push_str(&mut s, RST);
    push_str(&mut s, " ↕  ");
    push_str(&mut s, DIM);
    push_str(&mut s, "Enter");
    push_str(&mut s, RST);
    push_str(&mut s, " switch  ");
    push_str(&mut s, DIM);
    push_str(&mut s, "a");
    push_str(&mut s, RST);
    push_str(&mut s, " add  ");
    push_str(&mut s, DIM);
    push_str(&mut s, "s");
    push_str(&mut s, RST);
    push_str(&mut s, " scan  ");
    push_str(&mut s, DIM);
    push_str(&mut s, "x");
    push_str(&mut s, RST);
    push_str(&mut s, " remove  ");
    push_str(&mut s, DIM);
    push_str(&mut s, "q");
    push_str(&mut s, RST);
    push_str(&mut s, " quit");
    push_str(&mut s, RST);
    s
}

fn hints_tree() -> (r: String)
    ensures
        r@ == "  "@ + DIM@ + "j/k"@ + RST@ + " ↕  "@ + DIM@ + "d"@ + RST@ + " diff  "@ + DIM@ + "f"@ + RST@ + " files  "@ + DIM@ + "y"@ + RST@ + " copy  "@ + DIM@ + "D"@ + RST@ + " date  "@ + DIM@ + "R"@ + RST@ + " report  "@ + DIM@ + "/"@ + RST@ + " filter  "@ + DIM@ + "?"@ + RST@ + " help  "@ + DIM@ + "P"@ + RST@ + " repos  "@ + DIM@ + "\\\\'"@ + RST@ + " gists  "@ + DIM@ + "q"@ + RST@ + " quit"@ + RST@,
{
    let mut s = String::from_str("  ");
    push_str(&mut s, DIM);
    push_str(&mut s, "j/k");
    push_str(&mut s, RST);
    push_str(&mut s, " ↕  ");
    push_str(&mut s, DIM);
    push_str(&mut s, "d");
    push_str(&mut s, RST);
    push_str(&mut s, " diff  ");
    push_str(&mut s, DIM);
    push_str(&mut s, "f");
    push_str(&mut s, RST);
    push_str(&mut s, " files  ");
    push_str(&mut s, DIM);
    push_str(&mut s, "y");
    push_str(&mut s, RST);
    push_str(&mut s, " copy  ");
    push_str(&mut s, DIM);
    push_str(&mut s, "D");
    push_str(&mut s, RST);
    push_str(&mut s, " date  ");
    push_str(&mut s, DIM);
    push_str(&mut s, "R");
    push_str(&mut s, RST);
    push_str(&mut s, " report  ");
    push_str(&mut s, DIM);
    push_str(&mut s, "/");
    push_str(&mut s, RST);
    push_str(&mut s, " filter  ");
    push_str(&mut s, DIM);
    push_str(&mut s, "?");
    push_str(&mut s, RST);
    push_str(&mut s, " help  ");
    push_str(&mut s, DIM);
    push_str(&mut s, "P");
    push_str(&mut s, RST);
    push_str(&mut s, " repos  ");
    push_str(&mut s, DIM);
    push_str(&mut s, "\\\\'");
    push_str(&mut s, RST);
    push_str(&mut s, " gists  ");
    push_str(&mut s, DIM);
    push_str(&mut s, "q");
    push_str(&mut s, RST);
    push_str(&mut s, " quit");
    push_str(&mut s, RST);
    s
}

pub fn command_bar_text(mode: AppMode) -> (r: String)
    ensures
        r@ == command_bar(mode),
{
    match mode {
        AppMode::SidebarFocus => hints_sidebar(),
        AppMode::IssueDetail => hints_detail(),
        AppMode::Issues => hints_issues(),
        AppMode::Repos => hints_repos(),
        _ => hints_tree(),
    }
}

// ── Input and message lines ─────────────────────────────────────────────────

/// The input line of the filter being typed (tree, issue text or issue label
/// filter), if one is.
pub open spec fn filter_line(app: AppState) -> Option<Seq<char>> {
    match app.mode {
        AppMode::TreeFilter => Some("  "@ + BLD@ + LGR@ + app.filter_input@ + RST@ + DIM@ + "█ Esc to cancel"@ + RST@),
        AppMode::IssuesFilter => Some(
            "  "@ + BLD@ + LGR@ + app.issues_filter_input@ + RST@ + DIM@ + "█ Esc to cancel  Enter to apply"@ + RST@,
        ),
        AppMode::IssuesLabelFilter => Some(
            "  "@ + BLD@ + LGR@ + app.issues_label_filter_input@ + RST@ + DIM@
                + "█ Esc to cancel  Enter to apply  (label filter)"@ + RST@,
        ),
        _ => None,
    }
}

pub fn filter_line_text(app: &AppState) -> (r: Option<String>)
    ensures
        r matches Some(x) ==> filter_line(*app) == Some(x@),
        r is None ==> filter_line(*app) is None,
{
    let (input, tail) = match app.mode {
        AppMode::TreeFilter => (&app.filter_input, "█ Esc to cancel"),
        AppMode::IssuesFilter => (&app.issues_filter_input, "█ Esc to cancel  Enter to apply"),
        AppMode::IssuesLabelFilter => (&app.issues_label_filter_input, "█ Esc to cancel  Enter to apply  (label filter)"),
        _ => {
            return None;
        },
    };
    let mut s = concat3("  ", BLD, LGR);
    push_str(&mut s, input.as_str());
    push_str(&mut s, RST);
    push_str(&mut s, DIM);
    push_str(&mut s, tail);
    push_str(&mut s, RST);
    Some(s)
}

/// The message line.
pub open spec fn message_line(msg: Seq<char>) -> Seq<char> {
    "  "@ + BLD@ + LGR@ + msg + RST@
}

pub fn message_line_text(msg: &str) -> (r: String)
    ensures
        r@ == message_line(msg@),
{
    let mut s = concat3("  ", BLD, LGR);
    push_str(&mut s, msg);
    push_str(&mut s, RST);
    s
}

/// The line that says how many rows of a list are hidden above (`up`) or below.
pub open spec fn more_line(up: bool, n: nat) -> Seq<char> {
    "  "@ + DIM@ + (if up { "↑ "@ } else { "↓ "@ }) + decimal(n) + " more"@ + RST@
}

pub fn more_line_text(up: bool, n: usize) -> (r: String)
    ensures
        r@ == more_line(up, n as nat),
{
    let mut s = concat3("  ", DIM, if up { "↑ " } else { "↓ " });
    push_str(&mut s, u64_to_decimal(n as u64).as_str());
    push_str(&mut s, " more");
    push_str(&mut s, RST);
    s
}

// ── Help ────────────────────────────────────────────────────────────────────

/// Lines 0 to 9 of the help box, each after the margin `pfx`.
pub open spec fn help_part0(pfx: Seq<char>) -> Seq<Seq<char>> {
    seq![
        seq![],
        pfx + CYN@ + "╔════════════════════════════════════════════════════╗"@ + RST@,
        pfx + CYN@ + "║"@ + RST@ + "  "@ + BLD@ + "gitscope - Interactive Git Tree Viewer"@ + RST@ + "          "@ + BLD@ + CYN@ + "║"@ + RST@,
        pfx + CYN@ + "╠════════════════════════════════════════════════════╣"@ + RST@,
        pfx + CYN@ + "║"@ + RST@ + "  "@ + BLD@ + "Navigation"@ + RST@ + "                                      "@ + BLD@ + CYN@ + "║"@ + RST@,
        pfx + CYN@ + "║"@ + RST@ + "    "@ + LGR@ + "j"@ + RST@ + " / "@ + LGR@ + "↓"@ + RST@ + "       Move cursor down                  "@ + BLD@ + CYN@ + "║"@ + RST@,
        pfx + CYN@ + "║"@ + RST@ + "    "@ + LGR@ + "k"@ + RST@ + " / "@ + LGR@ + "↑"@ + RST@ + "       Move cursor up                    "@ + BLD@ + CYN@ + "║"@ + RST@,
        pfx + CYN@ + "║"@ + RST@ + "    "@ + LGR@ + "J"@ + RST@ + " / "@ + LGR@ + "K"@ + RST@ + "       Move 5 lines                     "@ + BLD@ + CYN@ + "║"@ + RST@,
        pfx + CYN@ + "║"@ + RST@ + "    "@ + LGR@ + "g"@ + RST@ + " / "@ + LGR@ + "G"@ + RST@ + "       Top / Bottom                      "@ + BLD@ + CYN@ + "║"@ + RST@,
        pfx + CYN@ + "║"@ + RST@ + "    "@ + LGR@ + "PgUp/PgDn"@ + RST@ + "   Page up/down                      "@ + BLD@ + CYN@ + "║"@ + RST@,
    ]
}

#[verifier::rlimit(60)]
fn push_help_part0(out: &mut Vec<String>, pfx: &str)
    ensures
        strings_view(final(out)@) == strings_view(old(out)@) + help_part0(pfx@),
{
    let ghost o = strings_view(out@);
    push_line(out, String::new());
    {
        let mut l = String::from_str(pfx);
        push_str(&mut l, CYN);
        push_str(&mut l, "╔════════════════════════════════════════════════════╗");
        push_str(&mut l, RST);
        push_line(out, l);
    }
    {
        let mut l = String::from_str(pfx);
        push_str(&mut l, CYN);
        push_str(&mut l, "║");
        push_str(&mut l, RST);
        push_str(&mut l, "  ");
        push_str(&mut l, BLD);
        push_str(&mut l, "gitscope - Interactive Git Tree Viewer");
        push_str(&mut l, RST);
        push_str(&mut l, "          ");
        push_str(&mut l, BLD);
        push_str(&mut l, CYN);
        push_str(&mut l, "║");
        push_str(&mut l, RST);
        push_line(out, l);
    }
    {
        let mut l = String::from_str(pfx);
        push_str(&mut l, CYN);
        push_str(&mut l, "╠════════════════════════════════════════════════════╣");
        push_str(&mut l, RST);
        push_line(out, l);
    }
    {
        let mut l = String::from_str(pfx);
        push_str(&mut l, CYN);
        push_str(&mut l, "║");
        push_str(&mut l, RST);
        push_str(&mut l, "  ");
        push_str(&mut l, BLD);
        push_str(&mut l, "Navigation");
        push_str(&mut l, RST);
        push_str(&mut l, "                                      ");
        push_str(&mut l, BLD);
        push_str(&mut l, CYN);
        push_str(&mut l, "║");
        push_str(&mut l, RST);
        push_line(out, l);
    }
    {
        let mut l = String::from_str(pfx);
        push_str(&mut l, CYN);
        push_str(&mut l, "║");
        push_str(&mut l, RST);
        push_str(&mut l, "    ");
        push_str(&mut l, LGR);
        push_str(&mut l, "j");
        push_str(&mut l, RST);
        push_str(&mut l, " / ");
        push_str(&mut l, LGR);
        push_str(&mut l, "↓");
        push_str(&mut l, RST);
        push_str(&mut l, "       Move cursor down                  ");
        push_str(&mut l, BLD);
        push_str(&mut l, CYN);
        push_str(&mut l, "║");
        push_str(&mut l, RST);
        push_line(out, l);
    }
    {
        let mut l = String::from_str(pfx);
        push_str(&mut l, CYN);
        push_str(&mut l, "║");
        push_str(&mut l, RST);
        push_str(&mut l, "    ");
        push_str(&mut l, LGR);
        push_str(&mut l, "k");
        push_str(&mut l, RST);
        push_str(&mut l, " / ");
        push_str(&mut l, LGR);
        push_str(&mut l, "↑");
        push_str(&mut l, RST);
        push_str(&mut l, "       Move cursor up                    ");
        push_str(&mut l, BLD);
        push_str(&mut l, CYN);
        push_str(&mut l, "║");
        push_str(&mut l, RST);
        push_line(out, l);
    }
    {
        let mut l = String::from_str(pfx);
        push_str(&mut l, CYN);
        push_str(&mut l, "║");
        push_str(&mut l, RST);
        push_str(&mut l, "    ");
        push_str(&mut l, LGR);
        push_str(&mut l, "J");
        push_str(&mut l, RST);
        push_str(&mut l, " / ");
        push_str(&mut l, LGR);
        push_str(&mut l, "K");
        push_str(&mut l, RST);
        push_str(&mut l, "       Move 5 lines                     ");
        push_str(&mut l, BLD);
        push_str(&mut l, CYN);
        push_str(&mut l, "║");
        push_str(&mut l, RST);
        push_line(out, l);
    }
    {
        let mut l = String::from_str(pfx);
        push_str(&mut l, CYN);
        push_str(&mut l, "║");
        push_str(&mut l, RST);
        push_str(&mut l, "    ");
        push_str(&mut l, LGR);
        push_str(&mut l, "g");
        push_str(&mut l, RST);
        push_str(&mut l, " / ");
        push_str(&mut l, LGR);
        push_str(&mut l, "G");
        push_str(&mut l, RST);
        push_str(&mut l, "       Top / Bottom                      ");
        push_str(&mut l, BLD);
        push_str(&mut l, CYN);
        push_str(&mut l, "║");
        push_str(&mut l, RST);
        push_line(out, l);
    }
    {
        let mut l = String::from_str(pfx);
        push_str(&mut l, CYN);
        push_str(&mut l, "║");
        push_str(&mut l, RST);
        push_str(&mut l, "    ");
        push_str(&mut l, LGR);
        push_str(&mut l, "PgUp/PgDn");
        push_str(&mut l, RST);
        push_str(&mut l, "   Page up/down                      ");
        push_str(&mut l, BLD);
        push_str(&mut l, CYN);
        push_str(&mut l, "║");
        push_str(&mut l, RST);
        push_line(out, l);
    }
    assert(strings_view(out@) =~= o + help_part0(pfx@));
}

/// Lines 10 to 19 of the help box, each after the margin `pfx`.
pub open spec fn help_part1(pfx: Seq<char>) -> Seq<Seq<char>> {
    seq![
        pfx + CYN@ + "╠════════════════════════════════════════════════════╣"@ + RST@,
        pfx + CYN@ + "║"@ + RST@ + "  "@ + BLD@ + "Actions"@ + RST@ + "                                          "@ + BLD@ + CYN@ + "║"@ + RST@,
        pfx + CYN@ + "║"@ + RST@ + "    "@ + LYL@ + "Enter/o"@ + RST@ + "     Zoom into commit descendants      "@ + BLD@ + CYN@ + "║"@ + RST@,
        pfx + CYN@ + "║"@ + RST@ + "    "@ + LYL@ + "d"@ + RST@ + "           View commit diff                  "@ + BLD@ + CYN@ + "║"@ + RST@,
        pfx + CYN@ + "║"@ + RST@ + "    "@ + LYL@ + "f"@ + RST@ + "           View changed files                 "@ + BLD@ + CYN@ + "║"@ + RST@,
        pfx + CYN@ + "║"@ + RST@ + "    "@ + LYL@ + "y"@ + RST@ + "           Copy commit hash                   "@ + BLD@ + CYN@ + "║"@ + RST@,
        pfx + CYN@ + "║"@ + RST@ + "    "@ + LYL@ + "/"@ + RST@ + "           Filter commits (regex)            "@ + BLD@ + CYN@ + "║"@ + RST@,
        pfx + CYN@ + "║"@ + RST@ + "    "@ + LYL@ + "D"@ + RST@ + "           Toggle last-7-day date filter      "@ + BLD@ + CYN@ + "║"@ + RST@,
        pfx + CYN@ + "║"@ + RST@ + "    "@ + LYL@ + "R"@ + RST@ + "           Report: files by author            "@ + BLD@ + CYN@ + "║"@ + RST@,
        pfx + CYN@ + "║"@ + RST@ + "    "@ + LYL@ + "r"@ + RST@ + "           Refresh data                      "@ + BLD@ + CYN@ + "║"@ + RST@,
    ]
}

#[verifier::rlimit(60)]
fn push_help_part1(out: &mut Vec<String>, pfx: &str)
    ensures
        strings_view(final(out)@) == strings_view(old(out)@) + help_part1(pfx@),
{
    let ghost o = strings_view(out@);
    {
        let mut l = String::from_str(pfx);
        push_str(&mut l, CYN);
        push_str(&mut l, "╠════════════════════════════════════════════════════╣");
        push_str(&mut l, RST);
        push_line(out, l);
    }
    {
        let mut l = String::from_str(pfx);
        push_str(&mut l, CYN);
        push_str(&mut l, "║");
        push_str(&mut l, RST);
        push_str(&mut l, "  ");
        push_str(&mut l, BLD);
        push_str(&mut l, "Actions");
        push_str(&mut l, RST);
        push_str(&mut l, "                                          ");
        push_str(&mut l, BLD);
        push_str(&mut l, CYN);
        push_str(&mut l, "║");
        push_str(&mut l, RST);
        push_line(out, l);
    }
    {
        let mut l = String::from_str(pfx);
        push_str(&mut l, CYN);
        push_str(&mut l, "║");
        push_str(&mut l, RST);
        push_str(&mut l, "    ");
        push_str(&mut l, LYL);
        push_str(&mut l, "Enter/o");
        push_str(&mut l, RST);
        push_str(&mut l, "     Zoom into commit descendants      ");
        push_str(&mut l, BLD);
        push_str(&mut l, CYN);
        push_str(&mut l, "║");
        push_str(&mut l, RST);
        push_line(out, l);
    }
    {
        let mut l = String::from_str(pfx);
        push_str(&mut l, CYN);
        push_str(&mut l, "║");
        push_str(&mut l, RST);
        push_str(&mut l, "    ");
        push_str(&mut l, LYL);
        push_str(&mut l, "d");
        push_str(&mut l, RST);
        push_str(&mut l, "           View commit diff                  ");
        push_str(&mut l, BLD);
        push_str(&mut l, CYN);
        push_str(&mut l, "║");
        push_str(&mut l, RST);
        push_line(out, l);
    }
    {
        let mut l = String::from_str(pfx);
        push_str(&mut l, CYN);
        push_str(&mut l, "║");
        push_str(&mut l, RST);
        push_str(&mut l, "    ");
        push_str(&mut l, LYL);
        push_str(&mut l, "f");
        push_str(&mut l, RST);
        push_str(&mut l, "           View changed files                 ");
        push_str(&mut l, BLD);
        push_str(&mut l, CYN);
        push_str(&mut l, "║");
        push_str(&mut l, RST);
        push_line(out, l);
    }
    {
        let mut l = String::from_str(pfx);
        push_str(&mut l, CYN);
        push_str(&mut l, "║");
        push_str(&mut l, RST);
        push_str(&mut l, "    ");
        push_str(&mut l, LYL);
        push_str(&mut l, "y");
        push_str(&mut l, RST);
        push_str(&mut l, "           Copy commit hash                   ");
        push_str(&mut l, BLD);
        push_str(&mut l, CYN);
        push_str(&mut l, "║");
        push_str(&mut l, RST);
        push_line(out, l);
    }
    {
        let mut l = String::from_str(pfx);
        push_str(&mut l, CYN);
        push_str(&mut l, "║");
        push_str(&mut l, RST);
        push_str(&mut l, "    ");
        push_str(&mut l, LYL);
        push_str(&mut l, "/");
        push_str(&mut l, RST);
        push_str(&mut l, "           Filter commits (regex)            ");
        push_str(&mut l, BLD);
        push_str(&mut l, CYN);
        push_str(&mut l, "║");
        push_str(&mut l, RST);
        push_line(out, l);
    }
    {
        let mut l = String::from_str(pfx);
        push_str(&mut l, CYN);
        push_str(&mut l, "║");
        push_str(&mut l, RST);
        push_str(&mut l, "    ");
        push_str(&mut l, LYL);
        push_str(&mut l, "D");
        push_str(&mut l, RST);
        push_str(&mut l, "           Toggle last-7-day date filter      ");
        push_str(&mut l, BLD);
        push_str(&mut l, CYN);
        push_str(&mut l, "║");
        push_str(&mut l, RST);
        push_line(out, l);
    }
    {
        let mut l = String::from_str(pfx);
        push_str(&mut l, CYN);
        push_str(&mut l, "║");
        push_str(&mut l, RST);
        push_str(&mut l, "    ");
        push_str(&mut l, LYL);
        push_str(&mut l, "R");
        push_str(&mut l, RST);
        push_str(&mut l, "           Report: files by author            ");
        push_str(&mut l, BLD);
        push_str(&mut l, CYN);
        push_str(&mut l, "║");
        push_str(&mut l, RST);
        push_line(out, l);
    }
    {
        let mut l = String::from_str(pfx);
        push_str(&mut l, CYN);
        push_str(&mut l, "║");
        push_str(&mut l, RST);
        push_str(&mut l, "    ");
        push_str(&mut l, LYL);
        push_str(&mut l, "r");
        push_str(&mut l, RST);
        push_str(&mut l, "           Refresh data                      ");
        push_str(&mut l, BLD);
        push_str(&mut l, CYN);
        push_str(&mut l, "║");
        push_str(&mut l, RST);
        push_line(out, l);
    }
    assert(strings_view(out@) =~= o + help_part1(pfx@));
}

/// Lines 20 to 29 of the help box, each after the margin `pfx`.
pub open spec fn help_part2(pfx: Seq<char>) -> Seq<Seq<char>> {
    seq![
        pfx + CYN@ + "╠════════════════════════════════════════════════════╣"@ + RST@,
        pfx + CYN@ + "║"@ + RST@ + "  "@ + BLD@ + "Display"@ + RST@ + "                                          "@ + BLD@ + CYN@ + "║"@ + RST@,
        pfx + CYN@ + "║"@ + RST@ + "    "@ + LYL@ + "a"@ + RST@ + "           Toggle all branches                "@ + BLD@ + CYN@ + "║"@ + RST@,
        pfx + CYN@ + "║"@ + RST@ + "    "@ + LYL@ + "m"@ + RST@ + "           Toggle commit metadata             "@ + BLD@ + CYN@ + "║"@ + RST@,
        pfx + CYN@ + "║"@ + RST@ + "    "@ + LYL@ + "c"@ + RST@ + "           Toggle compact mode                "@ + BLD@ + CYN@ + "║"@ + RST@,
        pfx + CYN@ + "║"@ + RST@ + "    "@ + LYL@ + "+"@ + RST@ + " / "@ + LYL@ + "-"@ + RST@ + "         ±10 commits                       "@ + BLD@ + CYN@ + "║"@ + RST@,
        pfx + CYN@ + "║"@ + RST@ + "  "@ + BLD@ + "Sidebar"@ + RST@ + "                                           "@ + BLD@ + CYN@ + "║"@ + RST@,
        pfx + CYN@ + "║"@ + RST@ + "    "@ + LBL@ + "b"@ + RST@ + "           Focus branch picker (sidebar)     "@ + BLD@ + CYN@ + "║"@ + RST@,
        pfx + CYN@ + "║"@ + RST@ + "    "@ + LBL@ + "0"@ + RST@ + "           Reset all filters                 "@ + BLD@ + CYN@ + "║"@ + RST@,
        pfx + CYN@ + "║"@ + RST@ + "    "@ + LBL@ + "ESC"@ + RST@ + "          Clear zoom filter                  "@ + BLD@ + CYN@ + "║"@ + RST@,
    ]
}

#[verifier::rlimit(60)]
fn push_help_part2(out: &mut Vec<String>, pfx: &str)
    ensures
        strings_view(final(out)@) == strings_view(old(out)@) + help_part2(pfx@),
{
    let ghost o = strings_view(out@);
    {
        let mut l = String::from_str(pfx);
        push_str(&mut l, CYN);
        push_str(&mut l, "╠════════════════════════════════════════════════════╣");
        push_str(&mut l, RST);
        push_line(out, l);
    }
    {
        let mut l = String::from_str(pfx);
        push_str(&mut l, CYN);
        push_str(&mut l, "║");
        push_str(&mut l, RST);
        push_str(&mut l, "  ");
        push_str(&mut l, BLD);
        push_str(&mut l, "Display");
        push_str(&mut l, RST);
        push_str(&mut l, "                                          ");
        push_str(&mut l, BLD);
        push_str(&mut l, CYN);
        push_str(&mut l, "║");
        push_str(&mut l, RST);
        push_line(out, l);
    }
    {
        let mut l = String::from_str(pfx);
        push_str(&mut l, CYN);
        push_str(&mut l, "║");
        push_str(&mut l, RST);
        push_str(&mut l, "    ");
        push_str(&mut l, LYL);
        push_str(&mut l, "a");
        push_str(&mut l, RST);
        push_str(&mut l, "           Toggle all branches                ");
        push_str(&mut l, BLD);
        push_str(&mut l, CYN);
        push_str(&mut l, "║");
        push_str(&mut l, RST);
        push_line(out, l);
    }
    {
        let mut l = String::from_str(pfx);
        push_str(&mut l, CYN);
        push_str(&mut l, "║");
        push_str(&mut l, RST);
        push_str(&mut l, "    ");
        push_str(&mut l, LYL);
        push_str(&mut l, "m");
        push_str(&mut l, RST);
        push_str(&mut l, "           Toggle commit metadata             ");
        push_str(&mut l, BLD);
        push_str(&mut l, CYN);
        push_str(&mut l, "║");
        push_str(&mut l, RST);
        push_line(out, l);
    }
    {
        let mut l = String::from_str(pfx);
        push_str(&mut l, CYN);
        push_str(&mut l, "║");
        push_str(&mut l, RST);
        push_str(&mut l, "    ");
        push_str(&mut l, LYL);
        push_str(&mut l, "c");
        push_str(&mut l, RST);
        push_str(&mut l, "           Toggle compact mode                ");
        push_str(&mut l, BLD);
        push_str(&mut l, CYN);
        push_str(&mut l, "║");
        push_str(&mut l, RST);
        push_line(out, l);
    }
    {
        let mut l = String::from_str(pfx);
        push_str(&mut l, CYN);
        push_str(&mut l, "║");
        push_str(&mut l, RST);
        push_str(&mut l, "    ");
        push_str(&mut l, LYL);
        push_str(&mut l, "+");
        push_str(&mut l, RST);
        push_str(&mut l, " / ");
        push_str(&mut l, LYL);
        push_str(&mut l, "-");
        push_str(&mut l, RST);
        push_str(&mut l, "         ±10 commits                       ");
        push_str(&mut l, BLD);
        push_str(&mut l, CYN);
        push_str(&mut l, "║");
        push_str(&mut l, RST);
        push_line(out, l);
    }
    {
        let mut l = String::from_str(pfx);
        push_str(&mut l, CYN);
        push_str(&mut l, "║");
        push_str(&mut l, RST);
        push_str(&mut l, "  ");
        push_str(&mut l, BLD);
        push_str(&mut l, "Sidebar");
        push_str(&mut l, RST);
        push_str(&mut l, "                                           ");
        push_str(&mut l, BLD);
        push_str(&mut l, CYN);
        push_str(&mut l, "║");
        push_str(&mut l, RST);
        push_line(out, l);
    }
    {
        let mut l = String::from_str(pfx);
        push_str(&mut l, CYN);
        push_str(&mut l, "║");
        push_str(&mut l, RST);
        push_str(&mut l, "    ");
        push_str(&mut l, LBL);
        push_str(&mut l, "b");
        push_str(&mut l, RST);
        push_str(&mut l, "           Focus branch picker (sidebar)     ");
        push_str(&mut l, BLD);
        push_str(&mut l, CYN);
        push_str(&mut l, "║");
        push_str(&mut l, RST);
        push_line(out, l);
    }
    {
        let mut l = String::from_str(pfx);
        push_str(&mut l, CYN);
        push_str(&mut l, "║");
        push_str(&mut l, RST);
        push_str(&mut l, "    ");
        push_str(&mut l, LBL);
        push_str(&mut l, "0");
        push_str(&mut l, RST);
        push_str(&mut l, "           Reset all filters                 ");
        push_str(&mut l, BLD);
        push_str(&mut l, CYN);
        push_str(&mut l, "║");
        push_str(&mut l, RST);
        push_line(out, l);
    }
    {
        let mut l = String::from_str(pfx);
        push_str(&mut l, CYN);
        push_str(&mut l, "║");
        push_str(&mut l, RST);
        push_str(&mut l, "    ");
        push_str(&mut l, LBL);
        push_str(&mut l, "ESC");
        push_str(&mut l, RST);
        push_str(&mut l, "          Clear zoom filter                  ");
        push_str(&mut l, BLD);
        push_str(&mut l, CYN);
        push_str(&mut l, "║");
        push_str(&mut l, RST);
        push_line(out, l);
    }
    assert(strings_view(out@) =~= o + help_part2(pfx@));
}

/// Lines 30 to 33 of the help box, each after the margin `pfx`.
pub open spec fn help_part3(pfx: Seq<char>) -> Seq<Seq<char>> {
    seq![
        pfx + CYN@ + "╠════════════════════════════════════════════════════╣"@ + RST@,
        pfx + CYN@ + "║"@ + RST@ + "    "@ + LRE@ + "?"@ + RST@ + "           Toggle this help                  "@ + BLD@ + CYN@ + "║"@ + RST@,
        pfx + CYN@ + "║"@ + RST@ + "    "@ + LRE@ + "q"@ + RST@ + " / "@ + LRE@ + "Ctrl-C"@ + RST@ + "    Quit                              "@ + BLD@ + CYN@ + "║"@ + RST@,
        pfx + CYN@ + "╚════════════════════════════════════════════════════╝"@ + RST@,
    ]
}

#[verifier::rlimit(60)]
fn push_help_part3(out: &mut Vec<String>, pfx: &str)
    ensures
        strings_view(final(out)@) == strings_view(old(out)@) + help_part3(pfx@),
{
    let ghost o = strings_view(out@);
    {
        let mut l = String::from_str(pfx);
        push_str(&mut l, CYN);
        push_str(&mut l, "╠════════════════════════════════════════════════════╣");
        push_str(&mut l, RST);
        push_line(out, l);
    }
    {
        let mut l = String::from_str(pfx);
        push_str(&mut l, CYN);
        push_str(&mut l, "║");
        push_str(&mut l, RST);
        push_str(&mut l, "    ");
        push_str(&mut l, LRE);
        push_str(&mut l, "?");
        push_str(&mut l, RST);
        push_str(&mut l, "           Toggle this help                  ");
        push_str(&mut l, BLD);
        push_str(&mut l, CYN);
        push_str(&mut l, "║");
        push_str(&mut l, RST);
        push_line(out, l);
    }
    {
        let mut l = String::from_str(pfx);
        push_str(&mut l, CYN);
        push_str(&mut l, "║");
        push_str(&mut l, RST);
        push_str(&mut l, "    ");
        push_str(&mut l, LRE);
        push_str(&mut l, "q");
        push_str(&mut l, RST);
        push_str(&mut l, " / ");
        push_str(&mut l, LRE);
        push_str(&mut l, "Ctrl-C");
        push_str(&mut l, RST);
        push_str(&mut l, "    Quit                              ");
        push_str(&mut l, BLD);
        push_str(&mut l, CYN);
        push_str(&mut l, "║");
        push_str(&mut l, RST);
        push_line(out, l);
    }
    {
        let mut l = String::from_str(pfx);
        push_str(&mut l, CYN);
        push_str(&mut l, "╚════════════════════════════════════════════════════╝");
        push_str(&mut l, RST);
        push_line(out, l);
    }
    assert(strings_view(out@) =~= o + help_part3(pfx@));
}

/// The lines of the help box after the margin `pfx`.
pub open spec fn help_box(pfx: Seq<char>) -> Seq<Seq<char>> {
    help_part0(pfx) + help_part1(pfx) + help_part2(pfx) + help_part3(pfx)
}

fn push_help_box(out: &mut Vec<String>, pfx: &str)
    ensures
        strings_view(final(out)@) == strings_view(old(out)@) + help_box(pfx@),
{
    let ghost o = strings_view(out@);
    push_help_part0(out, pfx);
    push_help_part1(out, pfx);
    push_help_part2(out, pfx);
    push_help_part3(out, pfx);
    assert(strings_view(out@) =~= o + help_box(pfx@));
}

/// The left margin of the help box in a view `width` columns wide: it is
/// centred, with at least two columns.
pub open spec fn help_margin(width: u16) -> int {
    let m = (if width >= 54 { width - 54 } else { 0 }) / 2;
    if m >= 2 { m as int } else { 2 }
}

/// The help view: the box, centred, then empty lines down to `vis` rows.
pub open spec fn help_view(width: u16, vis: int) -> Seq<Seq<char>> {
    let b = help_box(spaces(help_margin(width)));
    if b.len() < vis { b + Seq::new((vis - b.len()) as nat, |i: int| Seq::<char>::empty()) } else { b }
}

pub fn help_lines(width: u16, vis: usize) -> (r: Vec<String>)
    ensures
        strings_view(r@) == help_view(width, vis as int),
{
    let w = width as usize;
    let m0 = (if w >= 54 { w - 54 } else { 0 }) / 2;
    let m = if m0 >= 2 { m0 } else { 2 };
    let pfx = repeated(' ', m);
    assert(pfx@ =~= spaces(help_margin(width)));
    let mut out: Vec<String> = Vec::new();
    push_help_box(&mut out, pfx.as_str());
    let ghost b = strings_view(out@);
    assert(b =~= help_box(spaces(help_margin(width))));
    let n = out.len();
    while out.len() < vis
        invariant
            n <= out@.len(),
            n == b.len(),
            out@.len() <= vis || out@.len() == n,
            strings_view(out@) == b + Seq::new((out@.len() - n) as nat, |i: int| Seq::<char>::empty()),
        decreases vis - out@.len(),
    {
        let ghost before = strings_view(out@);
        push_line(&mut out, String::new());
        assert(strings_view(out@) =~= b + Seq::new((out@.len() - n) as nat, |i: int| Seq::<char>::empty()));
    }
    assert(strings_view(out@) =~= help_view(width, vis as int));
    out
}

// ── Issue forms ─────────────────────────────────────────────────────────────

/// The first `k` lines of `t`, each indented by two spaces.
pub open spec fn indented(t: Seq<Seq<char>>, k: int) -> Seq<Seq<char>> {
    let n = if t.len() < k { t.len() as int } else { k };
    t.take(n).map_values(|l: Seq<char>| "  "@ + l)
}

/// The line of the labels that will be applied (none when there are none).
pub open spec fn will_apply(input: Seq<char>) -> Seq<Seq<char>> {
    let parsed = comma_labels(input);
    if input.len() > 0 && parsed.len() > 0 {
        seq!["  "@ + DIM@ + "  → will apply: ["@ + joined(parsed, "]["@) + "]"@ + RST@]
    } else {
        seq![]
    }
}

/// The label suggestions, the chosen one marked.
pub open spec fn suggestion_lines(list: Seq<Seq<char>>, idx: usize) -> Seq<Seq<char>> {
    if list.len() == 0 {
        seq![]
    } else {
        seq![seq![], "  "@ + DIM@ + decimal(list.len()) + " label(s) found"@ + RST@] + Seq::new(
            list.len(),
            |i: int| "  "@ + (if i == idx { BLD@ + LGR@ + "▸"@ + RST@ + " "@ } else { "  "@ }) + LBL@ + list[i],
        )
    }
}

/// The keys of a form.
pub open spec fn form_footer() -> Seq<Seq<char>> {
    seq![
        seq![],
        "  "@ + BLD@ + "Tab"@ + RST@ + " = switch/cycle  "@ + BLD@ + LGR@ + "Enter"@ + RST@ + " = submit  "@ + BLD@
            + "Esc"@ + LRE@ + " = cancel"@ + RST@,
    ]
}

/// The title lines of a form.
pub open spec fn title_lines(title: Seq<char>, focused: bool) -> Seq<Seq<char>> {
    seq!["  "@ + BLD@ + "Title:"@ + RST@ + " "@ + title + " "@ + (if focused { "█"@ } else { " "@ })] + (if focused {
        seq!["  "@ + DIM@ + "  "@ + RST@]
    } else {
        seq![]
    })
}

/// The lines of the create form.
pub open spec fn create_form(app: AppState) -> Seq<Seq<char>> {
    let focus = app.issue_create_focus;
    let body = app.issue_create_body@;
    let labels = app.issue_create_labels_input@;
    seq![
        "  "@ + BLD@ + "Create a new issue   "@ + DIM@ + "("@ + app.repo_name@ + ")"@ + RST@,
        "  "@ + DIM@ + "─────────────────────"@ + RST@,
        seq![],
    ] + title_lines(app.issue_create_title@, focus == 0) + seq![seq![]] + (if focus == 1 {
        seq!["  "@ + BLD@ + "Body:"@ + DIM@ + " (optional)"@ + RST@] + (if body.len() > 0 {
            indented(text_lines(body), 5)
        } else {
            seq!["  "@ + DIM@ + "  "@ + RST@]
        })
    } else {
        seq!["  "@ + BLD@ + "Body:"@ + RST@ + " "@ + (if body.len() == 0 { "(optional)"@ } else { body })]
    }) + seq![
        seq![],
        "  "@ + BLD@ + "Labels:"@ + RST@ + " "@ + (if labels.len() == 0 { "(comma-separated)"@ } else { labels }) + (
        if focus == 2 { "█"@ } else { seq![] }),
    ] + will_apply(labels) + suggestion_lines(strings_view(app.label_ac_list@), app.label_ac_idx) + form_footer()
}

/// The lines of the edit form.
pub open spec fn edit_form(app: AppState) -> Seq<Seq<char>> {
    let focus = app.issue_edit_focus;
    let body = app.issue_edit_body@;
    let labels = app.issue_edit_labels_input@;
    seq![
        "  "@ + BLD@ + "Edit issue #"@ + decimal(app.issue_edit_number as nat) + "   "@ + DIM@ + "(from "@ + app.repo_name@
            + ")"@ + RST@,
        "  "@ + DIM@ + "─────────────────────"@ + RST@,
        seq![],
    ] + title_lines(app.issue_edit_title@, focus == 0) + seq![seq![]] + (if focus == 1 {
        seq!["  "@ + BLD@ + "Body:"@ + RST@ + " "@ + body] + (if body.len() == 0 {
            seq!["  "@ + DIM@ + "  "@ + RST@]
        } else {
            indented(text_lines(body), 5)
        })
    } else {
        seq!["  "@ + BLD@ + "Body:"@ + DIM@ + " (type to update)"@ + RST@] + (if body.len() > 0 {
            indented(text_lines(body), 3)
        } else {
            seq![]
        })
    }) + seq![seq![]] + (if focus == 2 {
        seq!["  "@ + BLD@ + "Labels:"@ + RST@ + " "@ + (if labels.len() == 0 { "(comma-separated)"@ } else { labels }) + "█"@]
            + will_apply(labels)
    } else {
        seq!["  "@ + BLD@ + "Labels:"@ + RST@ + " "@ + (if labels.len() == 0 { "(unchanged)"@ } else { labels })]
    }) + suggestion_lines(strings_view(app.label_ac_list@), app.label_ac_idx) + form_footer()
}

/// `lines` and then empty lines down to `vis` rows.
pub open spec fn padded(lines: Seq<Seq<char>>, vis: int) -> Seq<Seq<char>> {
    if lines.len() < vis { lines + Seq::new((vis - lines.len()) as nat, |i: int| Seq::<char>::empty()) } else { lines }
}

fn push_indented(out: &mut Vec<String>, text: &str, k: usize)
    ensures
        strings_view(final(out)@) == strings_view(old(out)@) + indented(text_lines(text@), k as int),
{
    let ghost o = strings_view(out@);
    let lines = split_lines(text);
    let ghost lv = strings_view(lines@);
    let n = if lines.len() < k { lines.len() } else { k };
    let mut i: usize = 0;
    while i < n
        invariant
            i <= n <= lines@.len(),
            lv == strings_view(lines@),
            strings_view(out@) == o + lv.take(i as int).map_values(|l: Seq<char>| "  "@ + l),
        decreases n - i,
    {
        push_line(out, concat2("  ", lines[i].as_str()));
        assert(lv.take(i + 1).map_values(|l: Seq<char>| "  "@ + l) =~= lv.take(i as int).map_values(
            |l: Seq<char>| "  "@ + l,
        ).push("  "@ + lv[i as int]));
        i = i + 1;
    }
    assert(strings_view(out@) =~= o + indented(text_lines(text@), k as int));
}

fn push_will_apply(out: &mut Vec<String>, input: &str)
    ensures
        strings_view(final(out)@) == strings_view(old(out)@) + will_apply(input@),
{
    let ghost o = strings_view(out@);
    let parsed = parse_comma_labels(input);
    if input.unicode_len() > 0 && parsed.len() > 0 {
        let mut l = concat3("  ", DIM, "  → will apply: [");
        push_str(&mut l, join_strings(&parsed, "][").as_str());
        push_str(&mut l, "]");
        push_str(&mut l, RST);
        push_line(out, l);
    }
    assert(strings_view(out@) =~= o + will_apply(input@));
}

fn push_suggestions(out: &mut Vec<String>, list: &Vec<String>, idx: usize)
    ensures
        strings_view(final(out)@) == strings_view(old(out)@) + suggestion_lines(strings_view(list@), idx),
{
    let ghost o = strings_view(out@);
    let ghost lv = strings_view(list@);
    let n = list.len();
    if n == 0 {
        assert(strings_view(out@) =~= o + suggestion_lines(lv, idx));
        return;
    }
    push_line(out, String::new());
    let mut l = concat3("  ", DIM, u64_to_decimal(n as u64).as_str());
    push_str(&mut l, " label(s) found");
    push_str(&mut l, RST);
    push_line(out, l);
    let ghost head = strings_view(out@);
    let ghost all = Seq::new(
        lv.len(),
        |i: int| "  "@ + (if i == idx { BLD@ + LGR@ + "▸"@ + RST@ + " "@ } else { "  "@ }) + LBL@ + lv[i],
    );
    let mut i: usize = 0;
    while i < n
        invariant
            i <= n,
            n == list@.len(),
            lv == strings_view(list@),
            all.len() == n,
            all == Seq::new(
                lv.len(),
                |i: int| "  "@ + (if i == idx { BLD@ + LGR@ + "▸"@ + RST@ + " "@ } else { "  "@ }) + LBL@ + lv[i],
            ),
            strings_view(out@) == head + all.take(i as int),
        decreases n - i,
    {
        let mut m = String::from_str("  ");
        if i == idx {
            push_str(&mut m, BLD);
            push_str(&mut m, LGR);
            push_str(&mut m, "▸");
            push_str(&mut m, RST);
            push_str(&mut m, " ");
        } else {
            push_str(&mut m, "  ");
        }
        push_str(&mut m, LBL);
        push_str(&mut m, list[i].as_str());
        assert(m@ =~= all[i as int]);
        push_line(out, m);
        assert(all.take(i + 1) =~= all.take(i as int).push(all[i as int]));
        i = i + 1;
    }
    assert(all.take(n as int) =~= all);
    assert(strings_view(out@) =~= o + suggestion_lines(lv, idx));
}

fn push_footer(out: &mut Vec<String>)
    ensures
        strings_view(final(out)@) == strings_view(old(out)@) + form_footer(),
{
    let ghost o = strings_view(out@);
    push_line(out, String::new());
    let mut l = concat3("  ", BLD, "Tab");
    push_str(&mut l, RST);
    push_str(&mut l, " = switch/cycle  ");
    push_str(&mut l, BLD);
    push_str(&mut l, LGR);
    push_str(&mut l, "Enter");
    push_str(&mut l, RST);
    push_str(&mut l, " = submit  ");
    push_str(&mut l, BLD);
    push_str(&mut l, "Esc");
    push_str(&mut l, LRE);
    push_str(&mut l, " = cancel");
    push_str(&mut l, RST);
    push_line(out, l);
    assert(strings_view(out@) =~= o + form_footer());
}

fn push_title(out: &mut Vec<String>, title: &String, focused: bool)
    ensures
        strings_view(final(out)@) == strings_view(old(out)@) + title_lines(title@, focused),
{
    let ghost o = strings_view(out@);
    let mut l = concat3("  ", BLD, "Title:");
    push_str(&mut l, RST);
    push_str(&mut l, " ");
    push_str(&mut l, title.as_str());
    push_str(&mut l, " ");
    push_str(&mut l, if focused { "█" } else { " " });
    push_line(out, l);
    if focused {
        let mut d = concat3("  ", DIM, "  ");
        push_str(&mut d, RST);
        push_line(out, d);
    }
    assert(strings_view(out@) =~= o + title_lines(title@, focused));
}

fn pad_to(out: &mut Vec<String>, vis: usize)
    ensures
        strings_view(final(out)@) == padded(strings_view(old(out)@), vis as int),
{
    let ghost b = strings_view(out@);
    let n = out.len();
    while out.len() < vis
        invariant
            n <= out@.len(),
            n == b.len(),
            out@.len() <= vis || out@.len() == n,
            strings_view(out@) == b + Seq::new((out@.len() - n) as nat, |i: int| Seq::<char>::empty()),
        decreases vis - out@.len(),
    {
        push_line(out, String::new());
        assert(strings_view(out@) =~= b + Seq::new((out@.len() - n) as nat, |i: int| Seq::<char>::empty()));
    }
    assert(strings_view(out@) =~= padded(b, vis as int));
}

fn form_head(out: &mut Vec<String>, first: String)
    ensures
        strings_view(final(out)@) == strings_view(old(out)@) + seq![
            first@,
            "  "@ + DIM@ + "─────────────────────"@ + RST@,
            seq![],
        ],
{
    let ghost o = strings_view(out@);
    push_line(out, first);
    let mut r = concat3("  ", DIM, "─────────────────────");
    push_str(&mut r, RST);
    push_line(out, r);
    push_line(out, String::new());
    assert(strings_view(out@) =~= o + seq![
        first@,
        "  "@ + DIM@ + "─────────────────────"@ + RST@,
        seq![],
    ]);
}

/// The create form, in `vis` rows.
#[verifier::rlimit(80)]
pub fn create_form_lines(app: &AppState, vis: usize) -> (r: Vec<String>)
    ensures
        strings_view(r@) == padded(create_form(*app), vis as int),
{
    let mut out: Vec<String> = Vec::new();
    let mut h = concat3("  ", BLD, "Create a new issue   ");
    push_str(&mut h, DIM);
    push_str(&mut h, "(");
    push_str(&mut h, app.repo_name.as_str());
    push_str(&mut h, ")");
    push_str(&mut h, RST);
    form_head(&mut out, h);
    let focus = app.issue_create_focus;
    push_title(&mut out, &app.issue_create_title, focus == 0);
    push_line(&mut out, String::new());
    let ghost before_body = strings_view(out@);
    let body = app.issue_create_body.as_str();
    if focus == 1 {
        let mut b = concat3("  ", BLD, "Body:");
        push_str(&mut b, DIM);
        push_str(&mut b, " (optional)");
        push_str(&mut b, RST);
        push_line(&mut out, b);
        if body.unicode_len() > 0 {
            push_indented(&mut out, body, 5);
        } else {
            let mut d = concat3("  ", DIM, "  ");
            push_str(&mut d, RST);
            push_line(&mut out, d);
        }
    } else {
        let mut b = concat3("  ", BLD, "Body:");
        push_str(&mut b, RST);
        push_str(&mut b, " ");
        push_str(&mut b, if body.unicode_len() == 0 { "(optional)" } else { body });
        push_line(&mut out, b);
    }
    let ghost after_body = strings_view(out@);
    push_line(&mut out, String::new());
    let labels = app.issue_create_labels_input.as_str();
    let mut l = concat3("  ", BLD, "Labels:");
    push_str(&mut l, RST);
    push_str(&mut l, " ");
    push_str(&mut l, if labels.unicode_len() == 0 { "(comma-separated)" } else { labels });
    push_str(&mut l, if focus == 2 { "█" } else { "" });
    push_line(&mut out, l);
    push_will_apply(&mut out, labels);
    push_suggestions(&mut out, &app.label_ac_list, app.label_ac_idx);
    push_footer(&mut out);
    proof {
        reveal_strlit("");
        assert(""@ =~= Seq::<char>::empty());
    }
    assert(strings_view(out@) =~= create_form(*app));
    pad_to(&mut out, vis);
    out
}

/// The edit form, in `vis` rows.
#[verifier::rlimit(80)]
pub fn edit_form_lines(app: &AppState, vis: usize) -> (r: Vec<String>)
    ensures
        strings_view(r@) == padded(edit_form(*app), vis as int),
{
    let mut out: Vec<String> = Vec::new();
    let mut h = concat3("  ", BLD, "Edit issue #");
    push_str(&mut h, u64_to_decimal(app.issue_edit_number).as_str());
    push_str(&mut h, "   ");
    push_str(&mut h, DIM);
    push_str(&mut h, "(from ");
    push_str(&mut h, app.repo_name.as_str());
    push_str(&mut h, ")");
    push_str(&mut h, RST);
    form_head(&mut out, h);
    let focus = app.issue_edit_focus;
    push_title(&mut out, &app.issue_edit_title, focus == 0);
    push_line(&mut out, String::new());
    let body = app.issue_edit_body.as_str();
    if focus == 1 {
        let mut b = concat3("  ", BLD, "Body:");
        push_str(&mut b, RST);
        push_str(&mut b, " ");
        push_str(&mut b, body);
        push_line(&mut out, b);
        if body.unicode_len() == 0 {
            let mut d = concat3("  ", DIM, "  ");
            push_str(&mut d, RST);
            push_line(&mut out, d);
        } else {
            push_indented(&mut out, body, 5);
        }
    } else {
        let mut b = concat3("  ", BLD, "Body:");
        push_str(&mut b, DIM);
        push_str(&mut b, " (type to update)");
        push_str(&mut b, RST);
        push_line(&mut out, b);
        if body.unicode_len() > 0 {
            push_indented(&mut out, body, 3);
        }
    }
    push_line(&mut out, String::new());
    let labels = app.issue_edit_labels_input.as_str();
    if focus == 2 {
        let mut l = concat3("  ", BLD, "Labels:");
        push_str(&mut l, RST);
        push_str(&mut l, " ");
        push_str(&mut l, if labels.unicode_len() == 0 { "(comma-separated)" } else { labels });
        push_str(&mut l, "█");
        push_line(&mut out, l);
        push_will_apply(&mut out, labels);
    } else {
        let mut l = concat3("  ", BLD, "Labels:");
        push_str(&mut l, RST);
        push_str(&mut l, " ");
        push_str(&mut l, if labels.unicode_len() == 0 { "(unchanged)" } else { labels });
        push_line(&mut out, l);
    }
    push_suggestions(&mut out, &app.label_ac_list, app.label_ac_idx);
    push_footer(&mut out);
    assert(strings_view(out@) =~= edit_form(*app));
    pad_to(&mut out, vis);
    out
}

} // verus!

//! The command line: which command was asked for, its options, and what the
//! issue commands print.
use vstd::prelude::*;
use crate::ansi::{BLD, CYN, DIM, GRY, LGR, LRE, LYL, RST, WHT};
use crate::issue_views::{assignee_tag, label_str, state_tag, IssueSummary};
use crate::issues::strings_view;
use crate::report::push_line;
use crate::sidebar::repeat;
use crate::text::{
    all_digits, chars_of, concat2, concat3, decimal, digits_value, eq_str, parse_u64, parsed_u64, push_str,
    repeated, u64_to_decimal, unsigned_digits,
};

verus! {

// ── Which command ───────────────────────────────────────────────────────────

/// What the first arguments ask for.
pub enum Route {
    /// `issues ...`: the options start at argument 2.
    Issues,
    /// `issue create ...`: the options start at argument 3.
    IssueCreate,
    /// `issue`, or `issue help`: the usage.
    IssueHelp,
    /// `issue` with another word.
    UnknownIssue(String),
    /// Anything else: the terminal views, with the options from argument 1.
    Tui,
}

/// The command that the arguments (program name first) ask for.
pub open spec fn route_of(args: Seq<Seq<char>>) -> Route {
    if args.len() > 1 && args[1] == "issues"@ {
        Route::Issues
    } else if args.len() > 1 && args[1] == "issue"@ {
        let sub = if args.len() > 2 { args[2] } else { seq![] };
        if sub == "create"@ {
            Route::IssueCreate
        } else if sub == "help"@ || sub.len() == 0 {
            Route::IssueHelp
        } else {
            Route::UnknownIssue(arbitrary())
        }
    } else {
        Route::Tui
    }
}

pub fn route(args: &Vec<String>) -> (r: Route)
    ensures
        match route_of(strings_view(args@)) {
            Route::UnknownIssue(_) => r matches Route::UnknownIssue(w) && w@ == strings_view(args@)[2],
            Route::Issues => r is Issues,
            Route::IssueCreate => r is IssueCreate,
            Route::IssueHelp => r is IssueHelp,
            Route::Tui => r is Tui,
        },
{
    let ghost av = strings_view(args@);
    let n = args.len();
    if n > 1 {
        assert(av[1] == args@[1]@);
        if eq_str(args[1].as_str(), "issues") {
            return Route::Issues;
        }
        if eq_str(args[1].as_str(), "issue") {
            if n > 2 {
                assert(av[2] == args@[2]@);
                let sub = &args[2];
                if eq_str(sub.as_str(), "create") {
                    return Route::IssueCreate;
                }
                if eq_str(sub.as_str(), "help") || sub.as_str().unicode_len() == 0 {
                    return Route::IssueHelp;
                }
                return Route::UnknownIssue(sub.clone());
            }
            proof {
                reveal_strlit("create");
                reveal_strlit("help");
                assert("create"@.len() == 6);
                assert(Seq::<char>::empty() != "create"@);
            }
            return Route::IssueHelp;
        }
    }
    Route::Tui
}

// ── Options of the terminal views ───────────────────────────────────────────

/// What the options of the terminal views ask for.
pub enum TuiArgs {
    Help,
    Version,
    Run { count: Option<usize>, all: bool, branch: Option<String> },
    /// An option that takes a value came last (`count` or `branch`).
    MissingValue(String),
    InvalidCount(String),
    Unknown(String),
}

/// `usize::from_str`: an optional `+`, then one or more digits, in range.
pub open spec fn parsed_usize(s: Seq<char>) -> Option<usize> {
    let d = unsigned_digits(s);
    if d.len() > 0 && all_digits(d) && digits_value(d) <= usize::MAX { Some(digits_value(d) as usize) } else { None }
}

fn parse_usize(s: &String) -> (r: Option<usize>)
    ensures
        r == parsed_usize(s@),
{
    match parse_u64(&chars_of(s.as_str())) {
        Some(n) => if n <= usize::MAX as u64 { Some(n as usize) } else { None },
        None => None,
    }
}

/// The spec view of a parse outcome, with strings as character sequences.
pub enum TuiArgsView {
    Help,
    Version,
    Run { count: Option<usize>, all: bool, branch: Option<Seq<char>> },
    MissingValue(Seq<char>),
    InvalidCount(Seq<char>),
    Unknown(Seq<char>),
}

pub open spec fn tui_args_view(a: TuiArgs) -> TuiArgsView {
    match a {
        TuiArgs::Help => TuiArgsView::Help,
        TuiArgs::Version => TuiArgsView::Version,
        TuiArgs::Run { count, all, branch } => TuiArgsView::Run {
            count,
            all,
            branch: match branch {
                Some(b) => Some(b@),
                None => None,
            },
        },
        TuiArgs::MissingValue(s) => TuiArgsView::MissingValue(s@),
        TuiArgs::InvalidCount(s) => TuiArgsView::InvalidCount(s@),
        TuiArgs::Unknown(s) => TuiArgsView::Unknown(s@),
    }
}

/// Reading the options from argument `i` on, with what was read so far.
pub open spec fn tui_parse(args: Seq<Seq<char>>, i: int, count: Option<usize>, all: bool, branch: Option<Seq<char>>) -> TuiArgsView
    decreases args.len() - i,
{
    if i < 1 || i >= args.len() {
        TuiArgsView::Run { count, all, branch }
    } else {
        let a = args[i];
        if a == "-h"@ || a == "--help"@ {
            TuiArgsView::Help
        } else if a == "-V"@ || a == "--version"@ {
            TuiArgsView::Version
        } else if a == "-n"@ || a == "--count"@ {
            if i + 1 >= args.len() {
                TuiArgsView::MissingValue("count"@)
            } else {
                match parsed_usize(args[i + 1]) {
                    Some(n) => tui_parse(args, i + 2, Some(n), all, branch),
                    None => TuiArgsView::InvalidCount(args[i + 1]),
                }
            }
        } else if a == "-a"@ || a == "--all"@ {
            tui_parse(args, i + 1, count, true, branch)
        } else if a == "-b"@ || a == "--branch"@ {
            if i + 1 >= args.len() {
                TuiArgsView::MissingValue("branch"@)
            } else {
                tui_parse(args, i + 2, count, all, Some(args[i + 1]))
            }
        } else {
            TuiArgsView::Unknown(a)
        }
    }
}

/// Each short option reads as its long form: put at the same place, `-h` and
/// `--help` give the same parse, and so do `-V`/`--version`, `-n`/`--count`,
/// `-a`/`--all` and `-b`/`--branch`. `-a` (or `--all`) turns on all branches
/// and goes on with the next argument; `-h` asks for help and `-V` for the
/// version; so `gitscope -a` runs on all branches.
pub proof fn law_short_options_are_long_options(
    args: Seq<Seq<char>>,
    i: int,
    count: Option<usize>,
    all: bool,
    branch: Option<Seq<char>>,
)
    requires
        1 <= i < args.len(),
    ensures
        tui_parse(args.update(i, "-h"@), i, count, all, branch) == tui_parse(args.update(i, "--help"@), i, count, all, branch),
        tui_parse(args.update(i, "-V"@), i, count, all, branch) == tui_parse(args.update(i, "--version"@), i, count, all, branch),
        tui_parse(args.update(i, "-n"@), i, count, all, branch) == tui_parse(args.update(i, "--count"@), i, count, all, branch),
        tui_parse(args.update(i, "-a"@), i, count, all, branch) == tui_parse(args.update(i, "--all"@), i, count, all, branch),
        tui_parse(args.update(i, "-b"@), i, count, all, branch) == tui_parse(args.update(i, "--branch"@), i, count, all, branch),
        args[i] == "-a"@ || args[i] == "--all"@ ==> tui_parse(args, i, count, all, branch) == tui_parse(args, i + 1, count, true, branch),
        args[i] == "-h"@ || args[i] == "--help"@ ==> tui_parse(args, i, count, all, branch) == TuiArgsView::Help,
        args[i] == "-V"@ || args[i] == "--version"@ ==> tui_parse(args, i, count, all, branch) == TuiArgsView::Version,
        args.len() == 2 && (args[1] == "-a"@ || args[1] == "--all"@) ==> tui_parse(args, 1, None, false, None)
            == (TuiArgsView::Run { count: None, all: true, branch: None }),
{
    reveal_strlit("-h");
    reveal_strlit("--help");
    reveal_strlit("-V");
    reveal_strlit("--version");
    reveal_strlit("-n");
    reveal_strlit("--count");
    reveal_strlit("-a");
    reveal_strlit("--all");
    reveal_strlit("-b");
    reveal_strlit("--branch");
    assert(("-h"@)[1] == 'h' && ("-V"@)[1] == 'V' && ("-n"@)[1] == 'n' && ("-a"@)[1] == 'a' && ("-b"@)[1] == 'b');
    assert(args.update(i, "-h"@)[i] == "-h"@);
    assert(args.update(i, "--help"@)[i] == "--help"@);
    assert(args.update(i, "-V"@)[i] == "-V"@);
    assert(args.update(i, "--version"@)[i] == "--version"@);
    assert(args.update(i, "-n"@)[i] == "-n"@);
    assert(args.update(i, "--count"@)[i] == "--count"@);
    assert(args.update(i, "-a"@)[i] == "-a"@);
    assert(args.update(i, "--all"@)[i] == "--all"@);
    assert(args.update(i, "-b"@)[i] == "-b"@);
    assert(args.update(i, "--branch"@)[i] == "--branch"@);
    if i + 1 < args.len() {
        assert(args.update(i, "-n"@)[i + 1] == args.update(i, "--count"@)[i + 1]);
        assert(args.update(i, "-b"@)[i + 1] == args.update(i, "--branch"@)[i + 1]);
    }
    lemma_parse_ignores_before(args.update(i, "-a"@), args.update(i, "--all"@), i + 1, count, true, branch);
    if args.len() == 2 && (args[1] == "-a"@ || args[1] == "--all"@) {
        assert(tui_parse(args, 2, None, true, None) == (TuiArgsView::Run { count: None, all: true, branch: None }));
        assert(tui_parse(args, 1, None, false, None) == tui_parse(args, 2, None, true, None));
    }
    lemma_parse_ignores_before(args.update(i, "-n"@), args.update(i, "--count"@), i + 2, count, all, branch);
    lemma_parse_ignores_before(args.update(i, "-b"@), args.update(i, "--branch"@), i + 2, count, all, branch);
    if i + 1 < args.len() {
        match parsed_usize(args[i + 1]) {
            Some(n) => {
                lemma_parse_ignores_before(args.update(i, "-n"@), args.update(i, "--count"@), i + 2, Some(n), all, branch);
            },
            None => {},
        }
        lemma_parse_ignores_before(
            args.update(i, "-b"@),
            args.update(i, "--branch"@),
            i + 2,
            count,
            all,
            Some(args[i + 1]),
        );
    }
}

/// The parse from argument `i` on reads only the arguments from `i` on.
proof fn lemma_parse_ignores_before(
    a: Seq<Seq<char>>,
    b: Seq<Seq<char>>,
    i: int,
    count: Option<usize>,
    all: bool,
    branch: Option<Seq<char>>,
)
    requires
        a.len() == b.len(),
        1 <= i,
        forall|j: int| i <= j < a.len() ==> a[j] == b[j],
    ensures
        tui_parse(a, i, count, all, branch) == tui_parse(b, i, count, all, branch),
    decreases a.len() - i,
{
    if i < a.len() {
        assert(a[i] == b[i]);
        if i + 1 < a.len() {
            assert(a[i + 1] == b[i + 1]);
            let n = parsed_usize(a[i + 1]);
            match n {
                Some(v) => lemma_parse_ignores_before(a, b, i + 2, Some(v), all, branch),
                None => {},
            }
            lemma_parse_ignores_before(a, b, i + 2, count, all, Some(a[i + 1]));
        }
        lemma_parse_ignores_before(a, b, i + 1, count, true, branch);
    }
}

/// Reads the options of the terminal views (the arguments, program name first).
pub fn parse_tui_args(args: &Vec<String>) -> (r: TuiArgs)
    ensures
        tui_args_view(r) == tui_parse(strings_view(args@), 1, None, false, None),
{
    let ghost av = strings_view(args@);
    let n = args.len();
    let mut i: usize = 1;
    let mut count: Option<usize> = None;
    let mut all = false;
    let mut branch: Option<String> = None;
    proof {
        reveal_strlit("-h");
        reveal_strlit("--help");
        reveal_strlit("-V");
        reveal_strlit("--version");
        reveal_strlit("-n");
        reveal_strlit("--count");
        reveal_strlit("-a");
        reveal_strlit("--all");
        reveal_strlit("-b");
        reveal_strlit("--branch");
    }
    while i < n
        invariant
            1 <= i,
            n == args@.len(),
            av == strings_view(args@),
            tui_parse(av, i as int, count, all, match branch {
                Some(b) => Some(b@),
                None => None,
            }) == tui_parse(av, 1, None, false, None),
        decreases n - i,
    {
        let a = &args[i];
        assert(av[i as int] == a@);
        if eq_str(a.as_str(), "-h") || eq_str(a.as_str(), "--help") {
            return TuiArgs::Help;
        } else if eq_str(a.as_str(), "-V") || eq_str(a.as_str(), "--version") {
            return TuiArgs::Version;
        } else if eq_str(a.as_str(), "-n") || eq_str(a.as_str(), "--count") {
            if i + 1 >= n {
                return TuiArgs::MissingValue(String::from_str("count"));
            }
            assert(av[i + 1] == args@[i + 1]@);
            match parse_usize(&args[i + 1]) {
                Some(c) => {
                    count = Some(c);
                    i = i + 2;
                },
                None => {
                    return TuiArgs::InvalidCount(args[i + 1].clone());
                },
            }
        } else if eq_str(a.as_str(), "-a") || eq_str(a.as_str(), "--all") {
            all = true;
            i = i + 1;
        } else if eq_str(a.as_str(), "-b") || eq_str(a.as_str(), "--branch") {
            if i + 1 >= n {
                return TuiArgs::MissingValue(String::from_str("branch"));
            }
            assert(av[i + 1] == args@[i + 1]@);
            branch = Some(args[i + 1].clone());
            i = i + 2;
        } else {
            return TuiArgs::Unknown(a.clone());
        }
    }
    TuiArgs::Run { count, all, branch }
}

// ── Options of the issue commands ───────────────────────────────────────────

/// The options of `issues` and `issue create`.
pub struct IssueOptions {
    pub owner: Option<String>,
    pub repo: Option<String>,
    pub state: String,
    pub title: Option<String>,
    pub body: String,
}

/// What reading the options of an issue command gives.
pub enum IssueArgs {
    Parsed(IssueOptions),
    /// An option that takes a value came last.
    MissingValue,
    Unknown(String),
}

pub open spec fn opt_view(o: Option<String>) -> Option<Seq<char>> {
    match o {
        Some(s) => Some(s@),
        None => None,
    }
}

/// The options read so far: owner, repo, state, title, body.
pub type OptsView = (Option<Seq<char>>, Option<Seq<char>>, Seq<char>, Option<Seq<char>>, Seq<char>);

/// Reading the options of an issue command from argument `i` on: `--owner`,
/// `--repo`, and `--state` for `issues` (`create` false) or `--title` and
/// `--body` for `issue create`. `Ok` holds what was read; `Err(None)` is an
/// option without its value, `Err(Some(a))` an unknown argument.
pub open spec fn issue_parse(args: Seq<Seq<char>>, i: int, create: bool, o: OptsView) -> Result<OptsView, Option<Seq<char>>>
    decreases args.len() - i,
{
    if i < 0 || i >= args.len() {
        Ok(o)
    } else {
        let a = args[i];
        let known = a == "--owner"@ || a == "--repo"@ || (!create && a == "--state"@) || (create && (a == "--title"@
            || a == "--body"@));
        if !known {
            Err(Some(a))
        } else if i + 1 >= args.len() {
            Err(None)
        } else {
            let v = args[i + 1];
            let o2 = if a == "--owner"@ {
                (Some(v), o.1, o.2, o.3, o.4)
            } else if a == "--repo"@ {
                (o.0, Some(v), o.2, o.3, o.4)
            } else if a == "--state"@ {
                (o.0, o.1, v, o.3, o.4)
            } else if a == "--title"@ {
                (o.0, o.1, o.2, Some(v), o.4)
            } else {
                (o.0, o.1, o.2, o.3, v)
            };
            issue_parse(args, i + 2, create, o2)
        }
    }
}

pub open spec fn options_view(o: IssueOptions) -> OptsView {
    (opt_view(o.owner), opt_view(o.repo), o.state@, opt_view(o.title), o.body@)
}

/// Reads the options of `issues` (`create` false) or `issue create`, which start
/// at argument `from`; the state is `open` and the body empty unless given.
pub fn parse_issue_args(args: &Vec<String>, from: usize, create: bool) -> (r: IssueArgs)
    ensures
        ({
            let res = issue_parse(strings_view(args@), from as int, create, (None, None, "open"@, None, seq![]));
            match r {
                IssueArgs::Parsed(o) => res == Ok::<OptsView, Option<Seq<char>>>(options_view(o)),
                IssueArgs::MissingValue => res == Err::<OptsView, Option<Seq<char>>>(None),
                IssueArgs::Unknown(a) => res == Err::<OptsView, Option<Seq<char>>>(Some(a@)),
            }
        }),
{
    let ghost av = strings_view(args@);
    let n = args.len();
    let mut i = from;
    let mut o = IssueOptions { owner: None, repo: None, state: String::from_str("open"), title: None, body: String::new() };
    proof {
        reveal_strlit("--owner");
        reveal_strlit("--repo");
        reveal_strlit("--state");
        reveal_strlit("--title");
        reveal_strlit("--body");
    }
    while i < n
        invariant
            from <= i,
            n == args@.len(),
            av == strings_view(args@),
            issue_parse(av, i as int, create, options_view(o)) == issue_parse(
                av,
                from as int,
                create,
                (None, None, "open"@, None, seq![]),
            ),
        decreases n - i,
    {
        let a = &args[i];
        assert(av[i as int] == a@);
        proof {
            reveal_strlit("--owner");
            reveal_strlit("--repo");
            reveal_strlit("--state");
            reveal_strlit("--title");
            reveal_strlit("--body");
            assert("--owner"@[2] != "--repo"@[2]);
            assert("--owner"@[2] != "--state"@[2]);
            assert("--owner"@[2] != "--title"@[2]);
            assert("--owner"@[2] != "--body"@[2]);
            assert("--repo"@[2] != "--state"@[2]);
            assert("--repo"@[2] != "--title"@[2]);
            assert("--repo"@[2] != "--body"@[2]);
            assert("--state"@[2] != "--title"@[2]);
            assert("--state"@[2] != "--body"@[2]);
            assert("--title"@[2] != "--body"@[2]);
        }
        let is_owner = eq_str(a.as_str(), "--owner");
        let is_repo = eq_str(a.as_str(), "--repo");
        let is_state = !create && eq_str(a.as_str(), "--state");
        let is_title = create && eq_str(a.as_str(), "--title");
        let is_body = create && eq_str(a.as_str(), "--body");
        if !(is_owner || is_repo || is_state || is_title || is_body) {
            return IssueArgs::Unknown(a.clone());
        }
        if i + 1 >= n {
            return IssueArgs::MissingValue;
        }
        assert(av[i + 1] == args@[i + 1]@);
        let v = args[i + 1].clone();
        if is_owner {
            o.owner = Some(v);
        } else if is_repo {
            o.repo = Some(v);
        } else if is_state {
            o.state = v;
        } else if is_title {
            o.title = Some(v);
        } else {
            o.body = v;
        }
        i = i + 2;
    }
    IssueArgs::Parsed(o)
}

// ── What the issue commands print ───────────────────────────────────────────

/// The line of an issue in the command-line listing.
pub open spec fn cli_issue_line(i: IssueSummary) -> Seq<char> {
    "  "@ + LYL@ + "#"@ + decimal(i.number as nat) + "  "@ + state_tag(i.open) + " "@ + BLD@ + WHT@ + i.title@
        + "  "@ + RST@ + "  "@ + assignee_tag(i.assignee) + "by "@ + GRY@ + i.user@ + "  "@ + RST@
}

/// The lines of one issue in the command-line listing: its line and, when it has
/// labels, the first three of them.
pub open spec fn cli_issue_block(i: IssueSummary) -> Seq<Seq<char>> {
    let labels = strings_view(i.labels@);
    seq![cli_issue_line(i)] + (if labels.len() > 0 {
        seq!["  "@ + DIM@ + "↳ Labels:"@ + RST@ + " "@ + label_str(labels, 3)]
    } else {
        seq![]
    })
}

pub open spec fn cli_blocks(is: Seq<IssueSummary>, k: int) -> Seq<Seq<char>>
    decreases k,
{
    if k <= 0 { seq![] } else { cli_blocks(is, k - 1) + cli_issue_block(is[k - 1]) }
}

/// What `issues` prints for the issues of `owner/repo` in `state` that the API
/// returned (`more` when it has a next page).
pub open spec fn cli_listing(is: Seq<IssueSummary>, owner: Seq<char>, repo: Seq<char>, state: Seq<char>, more: bool) -> Seq<Seq<char>> {
    if is.len() == 0 {
        seq!["  "@ + DIM@ + "No "@ + state + " issues found for "@ + owner + "/"@ + repo + RST@]
    } else {
        seq![
            BLD@ + CYN@ + " "@ + owner + "/"@ + repo + RST@ + "  "@ + DIM@ + "("@ + decimal(is.len())
                + " issues, showing up to 50)"@ + RST@,
            DIM@ + repeat('─', 80) + RST@,
        ] + cli_blocks(is, is.len() as int) + (if more {
            seq!["  "@ + DIM@ + "(more results available on next page)"@ + RST@]
        } else {
            seq![]
        })
    }
}

fn cli_issue_line_exec(i: &IssueSummary) -> (r: String)
    ensures
        r@ == cli_issue_line(*i),
{
    let mut s = String::from_str("  ");
    push_str(&mut s, LYL);
    push_str(&mut s, "#");
    push_str(&mut s, u64_to_decimal(i.number).as_str());
    push_str(&mut s, "  ");
    if i.open {
        push_str(&mut s, concat3(LGR, BLD, "OPEN  ").as_str());
    } else {
        push_str(&mut s, concat3(LRE, BLD, "CLOSED").as_str());
    }
    push_str(&mut s, RST);
    push_str(&mut s, " ");
    push_str(&mut s, BLD);
    push_str(&mut s, WHT);
    push_str(&mut s, i.title.as_str());
    push_str(&mut s, "  ");
    push_str(&mut s, RST);
    push_str(&mut s, "  ");
    match &i.assignee {
        Some(a) => push_str(&mut s, concat3(crate::ansi::LMA, "@", a.as_str()).as_str()),
        None => push_str(&mut s, concat3(DIM, "-", RST).as_str()),
    }
    push_str(&mut s, "by ");
    push_str(&mut s, GRY);
    push_str(&mut s, i.user.as_str());
    push_str(&mut s, "  ");
    push_str(&mut s, RST);
    assert(s@ =~= cli_issue_line(*i));
    s
}

/// The lines that `issues` prints.
pub fn cli_listing_lines(issues: &Vec<IssueSummary>, owner: &str, repo: &str, state: &str, more: bool) -> (r: Vec<String>)
    ensures
        strings_view(r@) == cli_listing(issues@, owner@, repo@, state@, more),
{
    let mut out: Vec<String> = Vec::new();
    let n = issues.len();
    if n == 0 {
        let mut l = concat3("  ", DIM, "No ");
        push_str(&mut l, state);
        push_str(&mut l, " issues found for ");
        push_str(&mut l, owner);
        push_str(&mut l, "/");
        push_str(&mut l, repo);
        push_str(&mut l, RST);
        push_line(&mut out, l);
        assert(strings_view(out@) =~= cli_listing(issues@, owner@, repo@, state@, more));
        return out;
    }
    let mut h = concat3(BLD, CYN, " ");
    push_str(&mut h, owner);
    push_str(&mut h, "/");
    push_str(&mut h, repo);
    push_str(&mut h, RST);
    push_str(&mut h, "  ");
    push_str(&mut h, DIM);
    push_str(&mut h, "(");
    push_str(&mut h, u64_to_decimal(n as u64).as_str());
    push_str(&mut h, " issues, showing up to 50)");
    push_str(&mut h, RST);
    push_line(&mut out, h);
    let mut rule = String::from_str(DIM);
    let run = repeated('─', 80);
    assert(run@ =~= repeat('─', 80));
    push_str(&mut rule, run.as_str());
    push_str(&mut rule, RST);
    push_line(&mut out, rule);
    let ghost head = strings_view(out@);
    let mut k: usize = 0;
    while k < n
        invariant
            k <= n,
            n == issues@.len(),
            strings_view(out@) == head + cli_blocks(issues@, k as int),
        decreases n - k,
    {
        let i = &issues[k];
        push_line(&mut out, cli_issue_line_exec(i));
        if i.labels.len() > 0 {
            let mut l = concat3("  ", DIM, "↳ Labels:");
            push_str(&mut l, RST);
            push_str(&mut l, " ");
            push_str(&mut l, crate::issue_views::label_str_exec(&i.labels, 3).as_str());
            push_line(&mut out, l);
        }
        assert(strings_view(out@) =~= head + cli_blocks(issues@, k + 1));
        k = k + 1;
    }
    if more {
        let mut l = concat3("  ", DIM, "(more results available on next page)");
        push_str(&mut l, RST);
        push_line(&mut out, l);
    }
    assert(strings_view(out@) =~= cli_listing(issues@, owner@, repo@, state@, more));
    out
}

/// What `issue create` prints after creating issue `n`.
pub open spec fn created_lines(n: u64, title: Seq<char>, url: Seq<char>) -> Seq<Seq<char>> {
    seq![
        LGR@ + "✓"@ + RST@ + " Created issue "@ + BLD@ + "#"@ + decimal(n as nat) + " "@ + RST@,
        "  Title: "@ + title,
        "  URL:   "@ + url,
    ]
}

pub fn created_issue_lines(n: u64, title: &str, url: &str) -> (r: Vec<String>)
    ensures
        strings_view(r@) == created_lines(n, title@, url@),
{
    let mut out: Vec<String> = Vec::new();
    let mut a = concat3(LGR, "✓", RST);
    push_str(&mut a, " Created issue ");
    push_str(&mut a, BLD);
    push_str(&mut a, "#");
    push_str(&mut a, u64_to_decimal(n).as_str());
    push_str(&mut a, " ");
    push_str(&mut a, RST);
    push_line(&mut out, a);
    push_line(&mut out, concat2("  Title: ", title));
    push_line(&mut out, concat2("  URL:   ", url));
    assert(strings_view(out@) =~= created_lines(n, title@, url@));
    out
}

} // verus!

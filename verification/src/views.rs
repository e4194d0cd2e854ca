//! The rows of the simpler views: the diff and changed-files views colour the
//! lines that git printed, and the repository views list the registered
//! repositories and the path being typed.
use vstd::prelude::*;
use crate::ansi::{BLD, CYN, DIM, GRY, LGR, LRE, LYL, RST};
use crate::issues::strings_view;
use crate::report::push_line;
use crate::state::RepoEntry;
use crate::text::{concat3, contains, decimal, push_str, starts_with, str_contains, str_starts_with, u64_to_decimal};

verus! {

// ── Diff and files ──────────────────────────────────────────────────────────

/// `line` holds `c` and not `three` (three `c` in a row), or starts with `c`
/// and not with `three`: an added or removed line as the diff view sees it.
pub open spec fn marked_with(line: Seq<char>, c: Seq<char>, three: Seq<char>) -> bool {
    (contains(line, c) && !contains(line, three)) || (starts_with(line, c) && !starts_with(line, three))
}

/// A line of `git show` as the diff view draws it: file headers and hunk
/// headers in bold colours, added lines green, removed lines red.
pub open spec fn diff_line(line: Seq<char>) -> Seq<char> {
    if contains(line, "diff --git"@) {
        BLD@ + LGR@ + line
    } else if contains(line, "@@"@) {
        BLD@ + CYN@ + line
    } else if marked_with(line, "+"@, "+++"@) {
        LGR@ + line + RST@
    } else if marked_with(line, "-"@, "---"@) {
        LRE@ + line + RST@
    } else {
        line
    }
}

fn marked_with_exec(line: &str, c: &str, three: &str) -> (r: bool)
    ensures
        r == marked_with(line@, c@, three@),
{
    (str_contains(line, c) && !str_contains(line, three)) || (str_starts_with(line, c) && !str_starts_with(
        line,
        three,
    ))
}

pub fn diff_line_text(line: &str) -> (r: String)
    ensures
        r@ == diff_line(line@),
{
    if str_contains(line, "diff --git") {
        concat3(BLD, LGR, line)
    } else if str_contains(line, "@@") {
        concat3(BLD, CYN, line)
    } else if marked_with_exec(line, "+", "+++") {
        concat3(LGR, line, RST)
    } else if marked_with_exec(line, "-", "---") {
        concat3(LRE, line, RST)
    } else {
        String::from_str(line)
    }
}

/// A line of `git diff-tree --stat` as the files view draws it: the per-file
/// lines dimmed, the summary in bold.
pub open spec fn files_line(line: Seq<char>) -> Seq<char> {
    if contains(line, "│"@) {
        "  "@ + DIM@ + line + RST@
    } else if contains(line, "file changed"@) || contains(line, "files changed"@) {
        BLD@ + line + RST@
    } else {
        "  "@ + line
    }
}

pub fn files_line_text(line: &str) -> (r: String)
    ensures
        r@ == files_line(line@),
{
    if str_contains(line, "│") {
        let mut s = concat3("  ", DIM, line);
        push_str(&mut s, RST);
        s
    } else if str_contains(line, "file changed") || str_contains(line, "files changed") {
        concat3(BLD, line, RST)
    } else {
        let mut s = String::from_str("  ");
        push_str(&mut s, line);
        s
    }
}

// ── Repositories ────────────────────────────────────────────────────────────

/// The two header rows of the repository list.
pub open spec fn repos_header(total: nat) -> Seq<Seq<char>> {
    seq![
        "  "@ + BLD@ + "Registered Repositories"@ + RST@ + "   "@ + DIM@ + "("@ + decimal(total) + " total)"@ + RST@,
        "  "@ + DIM@ + "──────────────────────────────────────────────"@ + RST@,
    ]
}

pub fn repos_header_lines(total: usize) -> (r: Vec<String>)
    ensures
        strings_view(r@) == repos_header(total as nat),
{
    let mut out: Vec<String> = Vec::new();
    let mut a = concat3("  ", BLD, "Registered Repositories");
    push_str(&mut a, RST);
    push_str(&mut a, "   ");
    push_str(&mut a, DIM);
    push_str(&mut a, "(");
    push_str(&mut a, u64_to_decimal(total as u64).as_str());
    push_str(&mut a, " total)");
    push_str(&mut a, RST);
    let mut b = concat3("  ", DIM, "──────────────────────────────────────────────");
    push_str(&mut b, RST);
    push_line(&mut out, a);
    push_line(&mut out, b);
    assert(strings_view(out@) =~= repos_header(total as nat));
    out
}

/// The rows shown when no repository is registered.
pub open spec fn repos_empty() -> Seq<Seq<char>> {
    seq![
        "  "@ + DIM@ + "  No repositories registered."@ + RST@,
        "  "@ + DIM@ + "  Press 'a' to add the current directory or 's' to scan a directory."@ + RST@,
    ]
}

pub fn repos_empty_lines() -> (r: Vec<String>)
    ensures
        strings_view(r@) == repos_empty(),
{
    let mut out: Vec<String> = Vec::new();
    let mut a = concat3("  ", DIM, "  No repositories registered.");
    push_str(&mut a, RST);
    let mut b = concat3("  ", DIM, "  Press 'a' to add the current directory or 's' to scan a directory.");
    push_str(&mut b, RST);
    push_line(&mut out, a);
    push_line(&mut out, b);
    assert(strings_view(out@) =~= repos_empty());
    out
}

/// The row of a registered repository: the cursor marker, whether it loads,
/// its name and path, and its number of commits or its error.
pub open spec fn repo_line(r: RepoEntry, at_cursor: bool) -> Seq<char> {
    (if at_cursor { LYL@ + "▸"@ + RST@ + " "@ } else { "  "@ }) + (if r.error is None {
        LGR@ + "●"@ + RST@ + " "@
    } else {
        LRE@ + "○"@ + RST@ + " "@
    }) + BLD@ + r.name@ + RST@ + "  "@ + DIM@ + r.path@ + RST@ + (match r.error {
        Some(e) => "  "@ + LRE@ + "["@ + e@ + "]"@ + RST@,
        None => "  "@ + GRY@ + "· "@ + decimal(r.commit_count as nat) + " commits"@ + RST@,
    })
}

pub fn repo_line_text(r: &RepoEntry, at_cursor: bool) -> (s: String)
    ensures
        s@ == repo_line(*r, at_cursor),
{
    let mut s = if at_cursor {
        let mut m = concat3(LYL, "▸", RST);
        push_str(&mut m, " ");
        m
    } else {
        String::from_str("  ")
    };
    if r.is_valid() {
        push_str(&mut s, LGR);
        push_str(&mut s, "●");
    } else {
        push_str(&mut s, LRE);
        push_str(&mut s, "○");
    }
    push_str(&mut s, RST);
    push_str(&mut s, " ");
    push_str(&mut s, BLD);
    push_str(&mut s, r.name.as_str());
    push_str(&mut s, RST);
    push_str(&mut s, "  ");
    push_str(&mut s, DIM);
    push_str(&mut s, r.path.as_str());
    push_str(&mut s, RST);
    match &r.error {
        Some(e) => {
            push_str(&mut s, "  ");
            push_str(&mut s, LRE);
            push_str(&mut s, "[");
            push_str(&mut s, e.as_str());
            push_str(&mut s, "]");
            push_str(&mut s, RST);
        },
        None => {
            push_str(&mut s, "  ");
            push_str(&mut s, GRY);
            push_str(&mut s, "· ");
            push_str(&mut s, u64_to_decimal(r.commit_count as u64).as_str());
            push_str(&mut s, " commits");
            push_str(&mut s, RST);
        },
    }
    s
}

/// The view where a repository path is typed, in `vis` rows.
pub open spec fn repos_add_view(input: Seq<char>, vis: int) -> Seq<Seq<char>> {
    let lines = seq![
        "  "@ + BLD@ + "Add a Repository"@ + RST@,
        "  "@ + DIM@ + "─────────────────────"@ + RST@,
        seq![],
        "  "@ + BLD@ + "Path:"@ + RST@ + " "@ + input + "█"@,
        seq![],
        "  "@ + BLD@ + LGR@ + "Enter"@ + RST@ + " = add  "@ + BLD@ + LRE@ + "Esc"@ + RST@ + " = cancel  "@ + BLD@ + DIM@
            + "Tab"@ + RST@ + " = autocomplete from cwd"@,
    ];
    if lines.len() < vis { lines + Seq::new((vis - lines.len()) as nat, |i: int| Seq::<char>::empty()) } else { lines }
}

pub fn repos_add_lines(input: &str, vis: usize) -> (r: Vec<String>)
    ensures
        strings_view(r@) == repos_add_view(input@, vis as int),
{
    let mut out: Vec<String> = Vec::new();
    let mut a = concat3("  ", BLD, "Add a Repository");
    push_str(&mut a, RST);
    push_line(&mut out, a);
    let mut b = concat3("  ", DIM, "─────────────────────");
    push_str(&mut b, RST);
    push_line(&mut out, b);
    push_line(&mut out, String::new());
    let mut c = concat3("  ", BLD, "Path:");
    push_str(&mut c, RST);
    push_str(&mut c, " ");
    push_str(&mut c, input);
    push_str(&mut c, "█");
    push_line(&mut out, c);
    push_line(&mut out, String::new());
    let mut d = concat3("  ", BLD, LGR);
    push_str(&mut d, "Enter");
    push_str(&mut d, RST);
    push_str(&mut d, " = add  ");
    push_str(&mut d, BLD);
    push_str(&mut d, LRE);
    push_str(&mut d, "Esc");
    push_str(&mut d, RST);
    push_str(&mut d, " = cancel  ");
    push_str(&mut d, BLD);
    push_str(&mut d, DIM);
    push_str(&mut d, "Tab");
    push_str(&mut d, RST);
    push_str(&mut d, " = autocomplete from cwd");
    push_line(&mut out, d);
    proof {
        reveal_strlit("");
    }
    let ghost lines = strings_view(out@);
    assert(lines =~= seq![
        "  "@ + BLD@ + "Add a Repository"@ + RST@,
        "  "@ + DIM@ + "─────────────────────"@ + RST@,
        seq![],
        "  "@ + BLD@ + "Path:"@ + RST@ + " "@ + input@ + "█"@,
        seq![],
        "  "@ + BLD@ + LGR@ + "Enter"@ + RST@ + " = add  "@ + BLD@ + LRE@ + "Esc"@ + RST@ + " = cancel  "@ + BLD@ + DIM@
            + "Tab"@ + RST@ + " = autocomplete from cwd"@,
    ]);
    let n = out.len();
    while out.len() < vis
        invariant
            n <= out@.len(),
            n == lines.len(),
            out@.len() <= vis || out@.len() == n,
            strings_view(out@) == lines + Seq::new((out@.len() - n) as nat, |i: int| Seq::<char>::empty()),
        decreases vis - out@.len(),
    {
        push_line(&mut out, String::new());
        assert(strings_view(out@) =~= lines + Seq::new((out@.len() - n) as nat, |i: int| Seq::<char>::empty()));
    }
    assert(strings_view(out@) =~= repos_add_view(input@, vis as int));
    out
}

} // verus!

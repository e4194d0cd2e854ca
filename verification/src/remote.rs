//! The GitHub owner and repository named by a git remote URL.
use vstd::prelude::*;
use crate::text::{
    chars_of, find_char, find_char_from, matches_at_exec, rfind, rfind_exec, slice_chars,
    string_of, trim_bounds, trimmed,
};

verus! {

/// A GitHub repository: its owner and its name.
#[derive(Debug, Clone)]
pub struct GithubRepo {
    pub owner: String,
    pub repo: String,
}

impl View for GithubRepo {
    type V = (Seq<char>, Seq<char>);

    open spec fn view(&self) -> (Seq<char>, Seq<char>) {
        (self.owner@, self.repo@)
    }
}

/// The end of `s[..hi]` once every trailing `.git` is removed (`trim_end_matches`).
pub open spec fn git_suffix_end(s: Seq<char>, hi: int) -> int
    decreases hi,
{
    if 4 <= hi <= s.len() && s.subrange(hi - 4, hi) == ".git"@ {
        git_suffix_end(s, hi - 4)
    } else {
        hi
    }
}

/// The URL with surrounding whitespace and trailing `.git` removed.
pub open spec fn cleaned_url(url: Seq<char>) -> Seq<char> {
    let t = trimmed(url);
    t.take(git_suffix_end(t, t.len() as int))
}

/// After the last `pat` in `u`: the text up to the next `/`, and the text after
/// that `/` up to the following `/` (or the end). None when `pat` does not occur
/// or no `/` follows it.
pub open spec fn owner_repo_after(u: Seq<char>, pat: Seq<char>) -> Option<(Seq<char>, Seq<char>)> {
    match rfind(u, pat) {
        Some(i) => {
            let a = u.skip(i + pat.len());
            match find_char_from(a, '/', 0) {
                Some(j) => {
                    let rest = a.skip(j + 1);
                    let e = match find_char_from(rest, '/', 0) {
                        Some(k) => k,
                        None => rest.len() as int,
                    };
                    Some((a.take(j), rest.take(e)))
                },
                None => None,
            }
        },
        None => None,
    }
}

/// Owner and repository of a remote URL: after the last `github.com/`, or else
/// after the last `github.com:`.
pub open spec fn parsed_remote(url: Seq<char>) -> Option<(Seq<char>, Seq<char>)> {
    let u = cleaned_url(url);
    match owner_repo_after(u, "github.com/"@) {
        Some(r) => Some(r),
        None => owner_repo_after(u, "github.com:"@),
    }
}

fn owner_repo_after_exec(u: &Vec<char>, pat: &Vec<char>) -> (r: Option<GithubRepo>)
    ensures
        r matches Some(g) ==> owner_repo_after(u@, pat@) == Some(g@),
        r is None ==> owner_repo_after(u@, pat@) is None,
{
    match rfind_exec(u, pat) {
        Some(i) => {
            let n = u.len();
            let a = slice_chars(u, i + pat.len(), n);
            assert(a@ =~= u@.skip(i + pat@.len()));
            match find_char(&a, '/', 0) {
                Some(j) => {
                    let rest = slice_chars(&a, j + 1, a.len());
                    assert(rest@ =~= a@.skip(j + 1));
                    let e = match find_char(&rest, '/', 0) {
                        Some(k) => k,
                        None => rest.len(),
                    };
                    let owner = string_of(&a, 0, j);
                    let repo = string_of(&rest, 0, e);
                    assert(owner@ =~= a@.take(j as int));
                    assert(repo@ =~= rest@.take(e as int));
                    Some(GithubRepo { owner, repo })
                },
                None => None,
            }
        },
        None => None,
    }
}

/// Parse owner/repo from a git remote URL.
///
/// Supports formats:
/// - `https://github.com/owner/repo.git`
/// - `git@github.com:owner/repo.git`
/// - `https://github.com/owner/repo`
pub fn parse_remote_url(url: &str) -> (r: Option<GithubRepo>)
    ensures
        r matches Some(g) ==> parsed_remote(url@) == Some(g@),
        r is None ==> parsed_remote(url@) is None,
{
    let all = chars_of(url);
    let (lo, hi0) = trim_bounds(&all);
    let t = slice_chars(&all, lo, hi0);
    let git = chars_of(".git");
    proof {
        reveal_strlit(".git");
    }
    let mut hi = t.len();
    while hi >= 4 && matches_at_exec(&t, &git, hi - 4)
        invariant
            hi <= t@.len(),
            git@ == ".git"@,
            git@.len() == 4,
            git_suffix_end(t@, hi as int) == git_suffix_end(t@, t@.len() as int),
        decreases hi,
    {
        hi = hi - 4;
    }
    let u = slice_chars(&t, 0, hi);
    assert(u@ =~= cleaned_url(url@));
    let slash = chars_of("github.com/");
    match owner_repo_after_exec(&u, &slash) {
        Some(g) => Some(g),
        None => {
            let colon = chars_of("github.com:");
            owner_repo_after_exec(&u, &colon)
        },
    }
}

/// Owner and repository to use: both given ones when both are given; otherwise
/// the missing ones from the detected remote, or `owner` and `repo` when no
/// remote was detected.
pub open spec fn resolved(
    cli_owner: Option<Seq<char>>,
    cli_repo: Option<Seq<char>>,
    detected: Option<(Seq<char>, Seq<char>)>,
) -> (Seq<char>, Seq<char>) {
    if cli_owner is Some && cli_repo is Some {
        (cli_owner->0, cli_repo->0)
    } else {
        match detected {
            Some((o, r)) => (
                if cli_owner is Some { cli_owner->0 } else { o },
                if cli_repo is Some { cli_repo->0 } else { r },
            ),
            None => (
                if cli_owner is Some { cli_owner->0 } else { "owner"@ },
                if cli_repo is Some { cli_repo->0 } else { "repo"@ },
            ),
        }
    }
}

pub open spec fn opt_view(o: Option<String>) -> Option<Seq<char>> {
    match o {
        Some(s) => Some(s@),
        None => None,
    }
}

pub open spec fn opt_repo_view(o: Option<GithubRepo>) -> Option<(Seq<char>, Seq<char>)> {
    match o {
        Some(g) => Some(g@),
        None => None,
    }
}

/// Chooses the owner and repository for the issue subcommands from the command
/// line and, where needed, the remote detected in the current repository.
pub fn resolve_owner_repo(
    cli_owner: Option<String>,
    cli_repo: Option<String>,
    detected: Option<GithubRepo>,
) -> (r: (String, String))
    ensures
        (r.0@, r.1@) == resolved(opt_view(cli_owner), opt_view(cli_repo), opt_repo_view(detected)),
{
    if cli_owner.is_some() && cli_repo.is_some() {
        return (cli_owner.unwrap(), cli_repo.unwrap());
    }
    match detected {
        Some(g) => {
            let o = match cli_owner {
                Some(o) => o,
                None => g.owner,
            };
            let r = match cli_repo {
                Some(r) => r,
                None => g.repo,
            };
            (o, r)
        },
        None => {
            let o = match cli_owner {
                Some(o) => o,
                None => String::from_str("owner"),
            };
            let r = match cli_repo {
                Some(r) => r,
                None => String::from_str("repo"),
            };
            (o, r)
        },
    }
}

// ── Token ───────────────────────────────────────────────────────────────────

/// The GitHub token among the two environment variables: `GITHUB_TOKEN` when it
/// is set, else `GH_TOKEN`.
pub fn token_from_env(github_token: Option<String>, gh_token: Option<String>) -> (r: Option<String>)
    ensures
        r == (if github_token is Some { github_token } else { gh_token }),
{
    match github_token {
        Some(t) => Some(t),
        None => gh_token,
    }
}

/// The token that `gh auth token` printed: its output trimmed, none when that
/// leaves nothing.
pub fn token_from_gh(output: &str) -> (r: Option<String>)
    ensures
        trimmed(output@).len() == 0 ==> r is None,
        trimmed(output@).len() > 0 ==> (r matches Some(t) && t@ == trimmed(output@)),
{
    let v = chars_of(output);
    let (lo, hi) = trim_bounds(&v);
    if lo == hi {
        None
    } else {
        Some(string_of(&v, lo, hi))
    }
}

} // verus!

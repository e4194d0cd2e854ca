# gitscope

A terminal viewer for a git history, with GitHub issues and gists, whose logic
is a library verified with Verus.

- `src/` is the library: the lane layout of the commit graph, the filters
  (the commit filter is a regular expression, `src/pattern.rs`) and the lines
  of the tree, the sidebar, the key handling of every view (a function from
  the state and a key to the next state and the work left to the caller), the
  issue and gist lists, the project JSON of `gh`, the author report, the
  command line, dates, and the ANSI text helpers. Its functions have
  contracts that Verus proves, apart from a few small wrappers around std and
  `serde_json` (marked `#[verifier::external_body]`), whose contracts are
  believed. Public `law_*` proof functions state properties that hold across
  calls (toggling twice, what the cursor line names, orderings of the lists,
  what the filters keep).
- `app/` is the program around it: reading git with `git2`, the GitHub API
  with `octocrab`, running `gh`, `git` and the clipboard tools, and drawing
  with `ratatui` and `crossterm`. It hands the library plain values and does
  the work that the library's actions name.
- `tests/` runs the library on concrete values.

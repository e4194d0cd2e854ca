//! The state of the terminal views.
use vstd::prelude::*;
use std::collections::HashMap;
use crate::graph::CommitInfo;
use crate::styled::TermColor;

verus! {

/// Which view has the keyboard.
#[derive(Debug, Clone, Copy, PartialEq, Eq, Structural)]
pub enum AppMode {
    Tree,
    TreeFilter,
    Diff,
    Files,
    Issues,
    IssuesFilter,
    IssuesLabelFilter,
    IssuesProjectStatusFilter,
    IssueCreate,
    IssueDetail,
    IssueEdit,
    Report,
    ReportFilter,
    SidebarFocus,
    Help,
    Gists,
    GistsFilter,
    GistContent,
    Repos,
    ReposAdd,
}

/// A local branch and the colour it is drawn in.
pub struct BranchInfo {
    pub name: String,
    pub color: TermColor,
    pub head_oid: String,
}

/// The branch colours, in the order branches are given them.
pub open spec fn branch_color(i: int) -> TermColor {
    let k = i % 8;
    if k == 0 { TermColor::Green }
    else if k == 1 { TermColor::LightCyan }
    else if k == 2 { TermColor::LightYellow }
    else if k == 3 { TermColor::LightMagenta }
    else if k == 4 { TermColor::LightRed }
    else if k == 5 { TermColor::LightBlue }
    else if k == 6 { TermColor::LightGreen }
    else { TermColor::Cyan }
}

/// The colour of the `i`-th branch (or author).
pub fn branch_color_at(i: usize) -> (c: TermColor)
    ensures
        c == branch_color(i as int),
{
    let k = i % 8;
    if k == 0 { TermColor::Green }
    else if k == 1 { TermColor::LightCyan }
    else if k == 2 { TermColor::LightYellow }
    else if k == 3 { TermColor::LightMagenta }
    else if k == 4 { TermColor::LightRed }
    else if k == 5 { TermColor::LightBlue }
    else if k == 6 { TermColor::LightGreen }
    else { TermColor::Cyan }
}

/// One line of the commit tree, and the commit it belongs to.
pub struct RenderLine {
    pub content: String,
    pub commit_idx: Option<usize>,
}

/// A registered git repository entry.
#[derive(Debug, Clone)]
pub struct RepoEntry {
    /// Absolute path to the repo
    pub path: String,
    /// Display name (directory name)
    pub name: String,
    /// Number of commits last loaded (or 0 if not yet loaded)
    pub commit_count: usize,
    /// Error message if the repo is invalid / unreachable
    pub error: Option<String>,
}

impl RepoEntry {
    /// Returns true if this entry is a valid, loadable repo.
    pub fn is_valid(&self) -> (r: bool)
        ensures
            r == (self.error is None),
    {
        self.error.is_none()
    }
}

/// How a command that the caller ran went: it could not be started (with the
/// error), it failed (with its standard error and output), or it succeeded
/// (with its output).
pub enum CmdOutcome {
    NotRun(String),
    Failed(String, String),
    Done(String),
}

/// Everything the views show and the keys change.
pub struct AppState {
    pub mode: AppMode,
    pub dirty: bool,
    pub refresh: bool,

    // Git data
    pub commits: Vec<CommitInfo>,
    pub branches: Vec<BranchInfo>,
    pub repo_name: String,
    pub current_branch: String,
    pub head_hash: String,
    pub total: usize,

    // Layout
    pub lanes: Vec<usize>,
    pub occupied: Vec<Option<String>>,
    pub max_lane: usize,
    pub nlanes: usize,

    // Render buffer
    pub render_lines: Vec<RenderLine>,

    // Cursor & scroll
    pub cursor: isize,
    pub scroll: usize,

    // Tree display
    pub count: usize,
    pub show_all: bool,
    pub show_meta: bool,
    pub compact: bool,

    // Filters
    pub filter_text: String,
    pub filter_input: String,
    pub branch_filter: String,
    pub descendant_filter: String,
    pub descendant_set: Vec<String>,
    pub date_from: String,
    pub date_to: String,

    // Diff view
    pub diff_scroll: usize,
    pub diff_lines: Vec<String>,

    // Files view
    pub files_scroll: usize,
    pub files_lines: Vec<String>,

    // Issues view
    pub issues_scroll: usize,
    pub issues_lines: Vec<String>,
    pub issues_lines_full: Vec<String>,
    pub issues_state: String,
    pub issues_filter_input: String,
    pub issues_filter_text: String,
    pub issues_date_filter: String,
    pub issues_label_filter: String,
    pub issues_label_filter_input: String,
    pub issues_project_status: HashMap<u64, String>,
    pub issues_project_status_filter: String,
    pub issues_project_status_filter_input: String,
    pub issues_cursor: usize,

    // Issue create view
    pub issue_create_title: String,
    pub issue_create_body: String,
    pub issue_create_focus: usize,
    pub issue_create_labels_input: String,

    // Issue edit view
    pub issue_edit_title: String,
    pub issue_edit_body: String,
    pub issue_edit_number: u64,
    pub issue_edit_focus: usize,
    pub issue_edit_labels_input: String,

    // Issue detail view
    pub issue_detail_cursor: usize,
    pub issue_detail_scroll: usize,
    pub issue_detail_lines: Vec<String>,

    // Issue deletion confirmation
    pub confirm_delete_issue: bool,

    // Report view
    pub report_scroll: usize,
    pub report_lines: Vec<String>,
    pub report_email_filter: String,
    pub report_email_input: String,
    pub report_sort: String,
    pub report_ac_idx: usize,
    pub report_ac_list: Vec<String>,

    // Sidebar
    pub branch_idx: usize,
    pub authors: Vec<(String, usize)>,

    // Terminal
    pub term_w: u16,
    pub term_h: u16,

    // Clipboard
    pub clipboard_cmd: Option<String>,

    // Message, and whether it was set since the caller last looked
    pub msg: String,
    pub msg_new: bool,

    // Repos view
    pub repos: Vec<RepoEntry>,
    pub repos_cursor: usize,
    pub repos_scroll: usize,
    pub repos_add_input: String,

    // Gists view
    pub gists_scroll: usize,
    pub gists_lines: Vec<String>,
    pub gists_lines_full: Vec<String>,
    pub gists_cursor: usize,
    pub gists_filter_input: String,
    pub gists_filter_text: String,

    // Gist content view
    pub gist_content_lines: Vec<String>,
    pub gist_content_scroll: usize,

    // Label autocomplete
    pub available_labels: Vec<String>,
    pub label_ac_list: Vec<String>,
    pub label_ac_idx: usize,
}

/// Shows a message in the message line.
pub fn show_msg(app: &mut AppState, msg: &str)
    ensures
        *final(app) == (AppState { msg: final(app).msg, msg_new: true, ..*old(app) }),
        final(app).msg@ == msg@,
{
    app.msg = String::from_str(msg);
    app.msg_new = true;
}

/// Shows a message that was built elsewhere.
pub fn show_msg_string(app: &mut AppState, msg: String)
    ensures
        *final(app) == (AppState { msg: msg, msg_new: true, ..*old(app) }),
{
    app.msg = msg;
    app.msg_new = true;
}

} // verus!

use gitscope::state::{AppMode, AppState};
use gitscope::ui_text::{
    command_bar_text, create_form_lines, edit_form_lines, filter_line_text, help_lines, message_line_text,
    more_line_text, status_bar_pills, Pill,
};

const RST: &str = "\x1b[0m";
const BLD: &str = "\x1b[1m";
const DIM: &str = "\x1b[2m";
const LGR: &str = "\x1b[92m";
const CYN: &str = "\x1b[36m";

fn app() -> AppState {
    let mut app = AppState::new(30, false, String::new(), None);
    app.repo_name = "demo".to_string();
    app.current_branch = "main".to_string();
    app.total = 4;
    app
}

fn texts(p: &[(String, Pill)]) -> Vec<(&str, Pill)> {
    p.iter().map(|(s, k)| (s.as_str(), *k)).collect()
}

#[test]
fn status_bar_of_a_plain_tree() {
    let a = app();
    let p = status_bar_pills(&a);
    assert_eq!(
        texts(&p),
        vec![
            (" ", Pill::Plain),
            (" demo ", Pill::Repo),
            (" │ ", Pill::Separator),
            (" main ", Pill::Branch),
            (" │ ", Pill::Separator),
            (" 4 commits ", Pill::Commits),
            (" │ ", Pill::Separator),
            (" tree ", Pill::Mode),
        ]
    );
}

#[test]
fn status_bar_shows_filters_and_toggles() {
    let mut a = app();
    a.current_branch = "detached".to_string();
    a.mode = AppMode::Diff;
    a.filter_text = "fix".to_string();
    a.descendant_filter = "0123456789abcdef".to_string();
    a.show_all = true;
    a.compact = true;
    let p = status_bar_pills(&a);
    let t = texts(&p);
    assert_eq!(t[3], (" detached ", Pill::Detached));
    assert_eq!(t[7], (" diff ", Pill::Mode));
    assert_eq!(
        t[8..].to_vec(),
        vec![
            (" │ ", Pill::Separator),
            (" /fix ", Pill::Filter),
            (" │ ", Pill::Separator),
            (" ▼zoom:0123456 ", Pill::Zoom),
            (" │ ", Pill::Separator),
            (" ALL ", Pill::All),
            (" │ ", Pill::Separator),
            (" CMP ", Pill::Compact),
        ]
    );
}

#[test]
fn status_bar_shows_the_date_range() {
    let mut a = app();
    a.date_from = "2024-01-01".to_string();
    let p = status_bar_pills(&a);
    let t = texts(&p);
    assert_eq!(t.len(), 10);
    assert_eq!(t[9], (" 📅2024-01-01→ ", Pill::Dates));
}

#[test]
fn message_and_more_lines() {
    assert_eq!(message_line_text("Copied abc"), format!("  {BLD}{LGR}Copied abc{RST}"));
    assert_eq!(more_line_text(true, 12), format!("  {DIM}↑ 12 more{RST}"));
    assert_eq!(more_line_text(false, 0), format!("  {DIM}↓ 0 more{RST}"));
}

#[test]
fn filter_line_only_while_typing_a_filter() {
    let mut a = app();
    assert_eq!(filter_line_text(&a), None);
    a.mode = AppMode::TreeFilter;
    a.filter_input = "abc".to_string();
    assert_eq!(filter_line_text(&a), Some(format!("  {BLD}{LGR}abc{RST}{DIM}█ Esc to cancel{RST}")));
    a.mode = AppMode::IssuesLabelFilter;
    a.issues_label_filter_input = "bug".to_string();
    assert_eq!(
        filter_line_text(&a),
        Some(format!("  {BLD}{LGR}bug{RST}{DIM}█ Esc to cancel  Enter to apply  (label filter){RST}"))
    );
}

#[test]
fn command_bar_depends_on_the_view() {
    let tree = command_bar_text(AppMode::Tree);
    assert!(tree.contains(" quit"));
    assert_eq!(command_bar_text(AppMode::Diff), tree);
    assert_ne!(command_bar_text(AppMode::Issues), tree);
    assert_ne!(command_bar_text(AppMode::SidebarFocus), tree);
    assert_ne!(command_bar_text(AppMode::Repos), tree);
    assert_ne!(command_bar_text(AppMode::IssueDetail), tree);
}

#[test]
fn help_box_is_centred_and_padded() {
    let wide = help_lines(80, 50);
    assert_eq!(wide.len(), 50);
    assert_eq!(wide[0], "");
    let margin = " ".repeat(13);
    assert_eq!(wide[1], format!("{margin}{CYN}╔════════════════════════════════════════════════════╗{RST}"));
    assert!(wide[34..].iter().all(|l| l.is_empty()));
    let narrow = help_lines(40, 5);
    assert_eq!(narrow.len(), 34);
    assert!(narrow[1].starts_with(&format!("  {CYN}")));
}

#[test]
fn create_form_with_the_title_focused() {
    let mut a = app();
    a.issue_create_title = "Crash".to_string();
    a.issue_create_focus = 0;
    let l = create_form_lines(&a, 20);
    assert_eq!(l.len(), 20);
    assert_eq!(l[0], format!("  {BLD}Create a new issue   {DIM}(demo){RST}"));
    assert_eq!(l[3], format!("  {BLD}Title:{RST} Crash █"));
    assert_eq!(l[4], format!("  {DIM}  {RST}"));
    assert_eq!(l[6], format!("  {BLD}Body:{RST} (optional)"));
    assert_eq!(l[8], format!("  {BLD}Labels:{RST} (comma-separated)"));
}

#[test]
fn edit_form_names_the_issue() {
    let mut a = app();
    a.issue_edit_number = 42;
    a.issue_edit_title = "Old".to_string();
    a.issue_edit_focus = 2;
    let l = edit_form_lines(&a, 0);
    assert_eq!(l[0], format!("  {BLD}Edit issue #42   {DIM}(from demo){RST}"));
    assert_eq!(l[3], format!("  {BLD}Title:{RST} Old  "));
}

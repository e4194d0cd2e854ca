use gitscope::ansi::{strip_ansi, truncate_vis, vis_len};
use gitscope::date::{
    compute_since_date, format_date_full, format_date_short,
    is_leap, secs_to_ymdhm, since_timestamp,
};
use gitscope::remote::{parse_remote_url, resolve_owner_repo, GithubRepo};
use gitscope::styled::{ansi_num_to_color, ansi_to_runs, color_to_ansi_num, TermColor};

#[test]
fn vis_len_skips_escape_codes_and_line_breaks() {
    assert_eq!(vis_len("\x1b[31mabc\x1b[0m"), 3);
    assert_eq!(vis_len("a\nb\r"), 2);
    assert_eq!(vis_len(""), 0);
    assert_eq!(vis_len("héllo"), 5);
}

#[test]
fn strip_ansi_removes_codes() {
    assert_eq!(strip_ansi("\x1b[1mhi\x1b[0m there"), "hi there");
    assert_eq!(strip_ansi("plain"), "plain");
    // A lone escape drops itself and the character after it.
    assert_eq!(strip_ansi("a\x1bbc"), "ac");
}

#[test]
fn strip_ansi_is_idempotent() {
    let s = "\x1b[92m\x1b[1mOPEN\x1b[0m #12";
    let once = strip_ansi(s);
    assert_eq!(strip_ansi(&once), once);
}

#[test]
fn truncate_vis_keeps_codes_and_cuts_visible_text() {
    assert_eq!(truncate_vis("\x1b[31mhello\x1b[0m", 3), "\x1b[31mhel");
    assert_eq!(truncate_vis("ab", 5), "ab");
    assert_eq!(truncate_vis("abcdef", 0), "");
}

#[test]
fn truncated_text_is_no_wider_than_asked() {
    let s = "\x1b[2mdim\x1b[0m and \x1b[1mbold\x1b[0m";
    for max in 0..20 {
        assert!(vis_len(&truncate_vis(s, max)) <= max);
    }
}

#[test]
fn truncating_plain_text_gives_a_prefix() {
    let s = "commit message";
    let t = truncate_vis(s, 6);
    assert_eq!(t, "commit");
    assert!(s.starts_with(&t));
}

#[test]
fn leap_years() {
    assert!(is_leap(2000));
    assert!(!is_leap(1900));
    assert!(is_leap(2024));
    assert!(!is_leap(2023));
}

#[test]
fn seconds_to_calendar_date() {
    assert_eq!(secs_to_ymdhm(0), (1970, 1, 1, 0, 0));
    assert_eq!(secs_to_ymdhm(86400 * 31 + 3600 * 5 + 60 * 7), (1970, 2, 1, 5, 7));
    assert_eq!(secs_to_ymdhm(951782400), (2000, 2, 29, 0, 0));
    assert_eq!(secs_to_ymdhm(1700000000), (2023, 11, 14, 22, 13));
}

#[test]
fn date_formats() {
    assert_eq!(format_date_short(951782400), "2000-02-29");
    assert_eq!(format_date_full(0, 120), "1970-01-01T00:00:00+02:00");
    assert_eq!(format_date_full(86400, -90), "1970-01-02T00:00:00-01:30");
}

#[test]
fn commit_time_formats() {
    let t = git2::Time::new(0, 120);
    assert_eq!(format_date_full(t.seconds(), t.offset_minutes()), "1970-01-01T00:00:00+02:00");
    let t = git2::Time::new(86400, -90);
    assert_eq!(format_date_full(t.seconds(), t.offset_minutes()), "1970-01-02T00:00:00-01:30");
    assert_eq!(format_date_short(git2::Time::new(951782400, 0).seconds()), "2000-02-29");
}

#[test]
fn date_windows() {
    let now = 86400 * 10 + 500;
    assert_eq!(since_timestamp("today", now), Some(864000));
    assert_eq!(since_timestamp("week", now), Some(259200));
    assert_eq!(since_timestamp("month", now), Some(-1728000));
    assert_eq!(since_timestamp("year", now), Some(-30672000));
    assert_eq!(since_timestamp("", now), None);
    assert_eq!(since_timestamp("decade", now), None);
}

#[test]
fn date_window_from_the_clock() {
    assert_eq!(compute_since_date("nope"), None);
    let t = compute_since_date("today").unwrap();
    assert_eq!(t % 86400, 0);
    assert!(t > 1_600_000_000);
}

#[test]
fn remote_urls() {
    let r = parse_remote_url("https://github.com/owner/repo.git").unwrap();
    assert_eq!((r.owner.as_str(), r.repo.as_str()), ("owner", "repo"));
    let r = parse_remote_url("git@github.com:o/r.git\n").unwrap();
    assert_eq!((r.owner.as_str(), r.repo.as_str()), ("o", "r"));
    let r = parse_remote_url("https://github.com/a/b/tree/main").unwrap();
    assert_eq!((r.owner.as_str(), r.repo.as_str()), ("a", "b"));
    assert!(parse_remote_url("https://gitlab.com/x/y").is_none());
    assert!(parse_remote_url("https://github.com/only").is_none());
}

#[test]
fn owner_and_repo_resolution() {
    assert_eq!(
        resolve_owner_repo(Some("o".to_string()), Some("r".to_string()), None),
        ("o".to_string(), "r".to_string())
    );
    let det = GithubRepo { owner: "a".to_string(), repo: "b".to_string() };
    assert_eq!(
        resolve_owner_repo(None, Some("r".to_string()), Some(det)),
        ("a".to_string(), "r".to_string())
    );
    assert_eq!(resolve_owner_repo(None, None, None), ("owner".to_string(), "repo".to_string()));
}

#[test]
fn ansi_codes_to_styled_runs() {
    let runs = ansi_to_runs("\x1b[1mA\x1b[0mB\x1b[91mC");
    assert_eq!(runs.len(), 3);
    assert_eq!(runs[0].text, "A");
    assert!(runs[0].style.bold);
    assert_eq!(runs[1].text, "B");
    assert!(!runs[1].style.bold && runs[1].style.fg.is_none());
    assert_eq!(runs[2].text, "C");
    assert_eq!(runs[2].style.fg, Some(TermColor::LightRed));
}

#[test]
fn colour_codes_round_trip() {
    assert_eq!(ansi_num_to_color(91), TermColor::LightRed);
    assert_eq!(ansi_num_to_color(7), TermColor::White);
    for c in [TermColor::Red, TermColor::Cyan, TermColor::DarkGray, TermColor::LightCyan] {
        assert_eq!(ansi_num_to_color(color_to_ansi_num(c)), c);
    }
}

//! Opening what a selection or the point names.

use herdr::emacs::open_target::{candidates_at_point, elisp_string, emacsclient_argv};
use herdr::emacs::open_target::{is_safe_web_url, plan_at_point, plan_selection};
use herdr::emacs::open_target::{resolve_at_point, resolve_selection, split_location};
use herdr::emacs::open_target::{trim_trailing_prose, OpenTarget};

#[test]
fn url_resolves_inside_token_and_at_end() {
    let text = "see https://example.test/a(b).";
    let inside = text.find("example").unwrap();
    assert_eq!(
        resolve_at_point(text, inside, &[]),
        Some(OpenTarget::WebUrl("https://example.test/a(b)".into()))
    );
    let end = text.len();
    assert_eq!(
        resolve_at_point(text, end, &[]),
        Some(OpenTarget::WebUrl("https://example.test/a(b)".into()))
    );
}

#[test]
fn existing_relative_path_and_location_resolve() {
    let text = "--> src/main.rs:42:7";
    let plan = plan_at_point(text, 8);
    assert_eq!(plan.url, None);
    let found: Vec<Option<String>> = plan
        .probes
        .iter()
        .map(|probe| {
            if probe.path == "src/main.rs" && !probe.from_home {
                Some("/work/src/main.rs".to_string())
            } else {
                None
            }
        })
        .collect();
    assert_eq!(
        resolve_at_point(text, 8, &found),
        Some(OpenTarget::Path {
            path: "/work/src/main.rs".into(),
            line: Some(42),
            column: Some(7),
        })
    );
}

#[test]
fn quoted_path_with_spaces_resolves() {
    let text = "open \"notes one.md\" now";
    let at = text.find("one").unwrap();
    let plan = plan_at_point(text, at);
    let found: Vec<Option<String>> = plan
        .probes
        .iter()
        .map(|probe| {
            if probe.path == "notes one.md" {
                Some("/work/notes one.md".to_string())
            } else {
                None
            }
        })
        .collect();
    assert_eq!(
        resolve_at_point(text, at, &found),
        Some(OpenTarget::Path { path: "/work/notes one.md".into(), line: None, column: None })
    );
}

#[test]
fn whitespace_after_token_does_not_resolve() {
    assert!(candidates_at_point("file.rs  ", 9).is_empty());
    assert_eq!(resolve_at_point("file.rs  ", 9, &[Some("/work/file.rs".into())]), None);
}

#[test]
fn selected_multiline_or_missing_target_is_rejected() {
    assert_eq!(resolve_selection("one\ntwo", &[]), None);
    let missing: Vec<Option<String>> =
        plan_selection("missing.rs").probes.iter().map(|_| None).collect();
    assert_eq!(resolve_selection("missing.rs", &missing), None);
}

#[test]
fn home_paths_are_looked_for_at_home() {
    let plan = plan_selection("~/notes.md");
    assert!(plan.probes.iter().all(|probe| probe.from_home));
    assert_eq!(plan.probes[0].path, "notes.md");
}

#[test]
fn location_parser_preserves_windows_drive_colon() {
    assert_eq!(
        split_location(r"C:\\work\\main.rs:42:7"),
        Some((r"C:\\work\\main.rs", 42, Some(7)))
    );
    assert_eq!(split_location("src/main.rs:42"), Some(("src/main.rs", 42, None)));
    assert_eq!(split_location("src/main.rs:0"), None);
}

#[test]
fn emacsclient_argv_is_direct_and_location_aware() {
    let target =
        OpenTarget::Path { path: "/tmp/a file.rs".into(), line: Some(12), column: Some(3) };
    assert_eq!(
        emacsclient_argv(&target),
        vec![
            "emacsclient",
            "--alternate-editor=",
            "--tty",
            "+12:3",
            "--",
            "/tmp/a file.rs",
        ]
    );
}

#[test]
fn a_path_without_a_place_gets_no_place_argument() {
    let target = OpenTarget::Path { path: "/tmp/x".into(), line: None, column: None };
    assert_eq!(
        emacsclient_argv(&target),
        vec!["emacsclient", "--alternate-editor=", "--tty", "--", "/tmp/x"]
    );
}

#[test]
fn eww_argv_escapes_elisp_string_content() {
    let argv = emacsclient_argv(&OpenTarget::WebUrl("https://example.test/a?x=\\\"y".into()));
    assert_eq!(argv[3], "--eval");
    assert_eq!(argv[4], r#"(progn (require 'eww) (eww "https://example.test/a?x=\\\"y"))"#);
}

#[test]
fn elisp_strings_escape_line_ends() {
    assert_eq!(elisp_string("a\"b\\c\n"), "\"a\\\"b\\\\c\\n\"");
}

#[test]
fn only_plain_web_addresses_are_safe() {
    assert!(is_safe_web_url("https://example.test"));
    assert!(is_safe_web_url("http://example.test"));
    assert!(!is_safe_web_url("ftp://example.test"));
    assert!(!is_safe_web_url("javascript:alert(1)"));
}

#[test]
fn prose_behind_a_target_is_cut_off() {
    assert_eq!(trim_trailing_prose("src/main.rs."), "src/main.rs");
    assert_eq!(trim_trailing_prose("https://example.test/a(b)."), "https://example.test/a(b)");
    assert_eq!(trim_trailing_prose("(x)"), "(x)");
}

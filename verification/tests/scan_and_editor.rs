use icode_cli::app_state::{format_duration, AppState};
use icode_cli::external_editor::{resolve_editor, strip_trailing_newlines};
use icode_cli::file_picker::{
    is_binary_extension, is_excluded_dir, scan_continues, sort_paths, MAX_SCAN_DEPTH, MAX_SCAN_FILES,
};
use icode_cli::messages::ToastKind;

#[test]
fn scan_skips_tool_and_vcs_directories() {
    for d in [".git", "node_modules", "target", ".venv"] {
        assert!(is_excluded_dir(d), "{d}");
    }
    assert!(!is_excluded_dir("src"));
    assert!(!is_excluded_dir(".github"));
    assert!(!is_excluded_dir("Target"));
}

#[test]
fn scan_skips_binary_extensions_in_any_case() {
    assert!(is_binary_extension("png"));
    assert!(is_binary_extension("PNG"));
    assert!(is_binary_extension("Woff2"));
    assert!(is_binary_extension("lock"));
    assert!(is_binary_extension("7z"));
    assert!(!is_binary_extension("rs"));
    assert!(!is_binary_extension("md"));
    assert!(!is_binary_extension(""));
}

#[test]
fn scan_stops_at_depth_and_count_limits() {
    assert_eq!(MAX_SCAN_DEPTH, 10);
    assert_eq!(MAX_SCAN_FILES, 500);
    assert!(scan_continues(0, 0));
    assert!(scan_continues(10, 499));
    assert!(!scan_continues(11, 0));
    assert!(!scan_continues(0, 500));
}

#[test]
fn scanned_paths_come_sorted() {
    let files = vec![
        "src/main.rs".to_string(),
        "Cargo.toml".to_string(),
        "src/lib.rs".to_string(),
        "README.md".to_string(),
        "src".to_string(),
    ];
    let sorted = sort_paths(&files);
    assert_eq!(sorted, vec!["Cargo.toml", "README.md", "src", "src/lib.rs", "src/main.rs"]);
}

#[test]
fn durations_show_as_clock() {
    assert_eq!(format_duration(0), "0:00");
    assert_eq!(format_duration(7), "0:07");
    assert_eq!(format_duration(59), "0:59");
    assert_eq!(format_duration(60), "1:00");
    assert_eq!(format_duration(725), "12:05");
}

#[test]
fn old_notices_are_dropped_in_order() {
    let mut app = AppState::new();
    app.add_toast("a", ToastKind::Info);
    app.add_toast("b", ToastKind::Error);
    app.add_toast("c", ToastKind::Success);
    app.prune_toasts_aged(&vec![5, 2, 3]);
    assert_eq!(app.toasts.len(), 1);
    assert_eq!(app.toasts[0].message, "b");
    app.prune_expired_toasts();
    assert_eq!(app.toasts.len(), 1);
}

#[test]
fn editor_is_visual_then_editor_then_vim() {
    assert_eq!(resolve_editor(Some("nvim".into()), Some("vim".into())), "nvim");
    assert_eq!(resolve_editor(None, Some("nano".into())), "nano");
    assert_eq!(resolve_editor(None, None), "vim");
}

#[test]
fn edited_text_loses_trailing_line_breaks_only() {
    assert_eq!(strip_trailing_newlines("hello\n\n"), "hello");
    assert_eq!(strip_trailing_newlines("test\r\n\r\n"), "test");
    assert_eq!(strip_trailing_newlines("line1\nline2\nline3"), "line1\nline2\nline3");
    assert_eq!(strip_trailing_newlines("\n\r"), "");
}

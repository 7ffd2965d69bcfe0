use icode_cli::dialog_mcp::{McpDialogState, McpServerEntry, McpServerStatus};
use icode_cli::dialog_plugins::{PluginEntry, PluginsDialogState};
use icode_cli::dialog_share::{button_labels, ShareDialogState};
use icode_cli::file_picker::FilePickerState;

fn server(name: &str, status: McpServerStatus) -> McpServerEntry {
    McpServerEntry {
        name: name.to_string(),
        transport: "stdio".to_string(),
        scope: "project".to_string(),
        status,
        tool_count: 3,
    }
}

#[test]
fn toggling_a_server_flips_connected_and_connects_others() {
    let mut d = McpDialogState::new();
    d.servers = vec![
        server("alpha", McpServerStatus::Connected),
        server("beta", McpServerStatus::Error("boom".to_string())),
    ];
    d.open();
    assert_eq!(d.filtered, vec![0, 1]);
    d.toggle_server();
    assert!(matches!(d.servers[0].status, McpServerStatus::Disconnected));
    d.cursor_down();
    d.toggle_server();
    assert!(matches!(d.servers[1].status, McpServerStatus::Connected));
    d.type_char('a');
    d.type_char('l');
    assert_eq!(d.filtered, vec![0]);
}

#[test]
fn toggling_a_plugin_flips_enabled() {
    let mut d = PluginsDialogState::new();
    d.plugins = vec![PluginEntry {
        id: "p1".to_string(),
        name: "Linter".to_string(),
        version: "1.0".to_string(),
        enabled: true,
        tool_count: 2,
        description: None,
    }];
    d.open();
    d.toggle_plugin();
    assert!(!d.plugins[0].enabled);
    d.toggle_plugin();
    assert!(d.plugins[0].enabled);
}

#[test]
fn share_links_follow_the_options() {
    assert_eq!(button_labels(), ["Share", "Copy URL", "Unshare", "Close"]);
    let mut d = ShareDialogState::new();
    d.open("ses1");
    d.share_at("ses1", 42);
    assert!(d.is_shared);
    assert_eq!(d.share_id.as_deref(), Some("ses1-42"));
    assert_eq!(
        d.get_url().as_deref(),
        Some("https://icode.example.com/share/ses1-42?thinking=true&tools=true")
    );
    d.toggle_option(0);
    assert!(!d.include_thinking);
    assert_eq!(
        d.copy_url().as_deref(),
        Some("https://icode.example.com/share/ses1-42?thinking=false&tools=true")
    );
    assert!(d.copied);
    d.toggle_option(7);
    assert!(!d.include_thinking && d.include_tool_details);
    d.unshare();
    assert!(!d.is_shared && d.share_url.is_none() && !d.copied);
}

#[test]
fn picker_lists_matches_and_gives_a_reference() {
    let mut p = FilePickerState::new();
    p.open(vec!["src/main.rs".to_string(), "README.md".to_string(), "src/lib.rs".to_string()], 4);
    assert!(p.open);
    assert_eq!(p.at_pos, 4);
    p.update_query();
    assert_eq!(p.matches.len(), 3);
    p.query = "lib".to_string();
    p.update_query();
    assert_eq!(p.matches, vec!["src/lib.rs"]);
    assert_eq!(p.selected(), Some("src/lib.rs"));
    assert_eq!(p.selected_reference().as_deref(), Some("@src/lib.rs"));
    p.query = "zzz".to_string();
    p.update_query();
    assert!(p.matches.is_empty());
    assert_eq!(p.selected_reference(), None);
}

use icode_cli::keybinds::{KeyAction, KeybindRegistry};
use icode_cli::keys::{KeyCode, KeyEvent, KeyModifiers, ParsedKey};

fn key(code: KeyCode, bits: u8) -> KeyEvent {
    KeyEvent::new(code, KeyModifiers { bits })
}

fn pairs(items: &[(&str, &str)]) -> Vec<(String, String)> {
    items.iter().map(|(a, b)| (a.to_string(), b.to_string())).collect()
}

#[test]
fn defaults_bind_every_action() {
    let reg = KeybindRegistry::default();
    assert!(reg.matches(&KeyAction::Quit, &key(KeyCode::Char('c'), 2)));
    assert!(!reg.matches(&KeyAction::Quit, &key(KeyCode::Char('c'), 0)));
    assert!(reg.matches(&KeyAction::ToggleSidebar, &key(KeyCode::Char('s'), 4)));
    assert!(reg.matches(&KeyAction::DialogConfirm, &key(KeyCode::Enter, 0)));
    assert!(reg.matches(&KeyAction::ScrollPageUp, &key(KeyCode::PageUp, 0)));
    assert_eq!(reg.print(&KeyAction::Quit), "Ctrl+c");
    assert_eq!(reg.print(&KeyAction::ToggleSidebar), "Alt+s");
    assert_eq!(reg.print(&KeyAction::Help), "?");
    assert_eq!(reg.print(&KeyAction::DialogUp), "↑");
    assert_eq!(reg.print(&KeyAction::DialogPageDown), "PgDn");
}

#[test]
fn empty_registry_binds_nothing() {
    let reg = KeybindRegistry::new();
    assert!(!reg.matches(&KeyAction::Quit, &key(KeyCode::Char('c'), 2)));
    assert!(!reg.matches_key_code(&KeyAction::Quit, KeyCode::Char('c')));
    assert_eq!(reg.print(&KeyAction::Quit), "unbound");
}

#[test]
fn overrides_win_over_defaults() {
    let mut reg = KeybindRegistry::default();
    reg.apply_overrides(&pairs(&[("command_palette", "ctrl+k"), ("HELP", "F1"), ("toggle_sidebar", "alt+shift+b")]));
    assert!(reg.matches(&KeyAction::CommandPalette, &key(KeyCode::Char('k'), 2)));
    assert!(!reg.matches(&KeyAction::CommandPalette, &key(KeyCode::Char('p'), 2)));
    assert!(reg.matches(&KeyAction::Help, &key(KeyCode::F(1), 0)));
    assert_eq!(reg.print(&KeyAction::Help), "F1");
    assert_eq!(reg.print(&KeyAction::ToggleSidebar), "Alt+Shift+b");
    assert!(reg.matches(&KeyAction::Quit, &key(KeyCode::Char('c'), 2)));
}

#[test]
fn invalid_overrides_are_ignored() {
    let mut reg = KeybindRegistry::default();
    reg.apply_overrides(&pairs(&[("no_such_action", "ctrl+k"), ("help", "nonsense"), ("quit", "   ")]));
    assert_eq!(reg.print(&KeyAction::Help), "?");
    assert_eq!(reg.print(&KeyAction::Quit), "Ctrl+c");
}

#[test]
fn later_overrides_replace_earlier_ones() {
    let mut reg = KeybindRegistry::default();
    reg.apply_overrides(&pairs(&[("leader", "ctrl+a"), ("leader_key", "ctrl+b")]));
    assert_eq!(reg.print(&KeyAction::LeaderKey), "Ctrl+b");
}

#[test]
fn key_names_and_modifiers_parse() {
    let mut reg = KeybindRegistry::default();
    reg.apply_overrides(&pairs(&[
        ("dialog_up", "uparrow"),
        ("dialog_down", " Control + J "),
        ("dialog_cancel", "escape"),
        ("dialog_search", "space"),
        ("model_picker", "cmd+m"),
        ("quit", "shift+Q"),
    ]));
    assert!(reg.matches(&KeyAction::DialogUp, &key(KeyCode::Up, 0)));
    assert!(reg.matches(&KeyAction::DialogDown, &key(KeyCode::Char('J'), 2)));
    assert!(reg.matches(&KeyAction::DialogCancel, &key(KeyCode::Esc, 0)));
    assert!(reg.matches(&KeyAction::DialogSearch, &key(KeyCode::Char(' '), 0)));
    assert!(reg.matches(&KeyAction::ModelPicker, &key(KeyCode::Char('m'), 8)));
    assert_eq!(reg.print(&KeyAction::ModelPicker), "Super+m");
    assert_eq!(reg.print(&KeyAction::Quit), "Q");
}

#[test]
fn backtab_matches_on_code_alone() {
    let mut reg = KeybindRegistry::default();
    reg.apply_overrides(&pairs(&[("dialog_down", "backtab")]));
    assert!(reg.matches(&KeyAction::DialogDown, &key(KeyCode::BackTab, 1)));
    assert!(reg.matches(&KeyAction::DialogDown, &key(KeyCode::BackTab, 0)));
    assert_eq!(reg.print(&KeyAction::DialogDown), "Tab");
}

#[test]
fn key_code_matching_ignores_modifiers() {
    let reg = KeybindRegistry::default();
    assert!(reg.matches_key_code(&KeyAction::MessageActionCopy, KeyCode::Char('c')));
    assert!(reg.matches_key_code(&KeyAction::Quit, KeyCode::Char('c')));
    assert!(!reg.matches_key_code(&KeyAction::MessageActionFork, KeyCode::Char('c')));
}

#[test]
fn test_parsed_key_ctrl_modifier() {
    let parsed = ParsedKey::from_event(KeyEvent::new(KeyCode::Char('c'), KeyModifiers::control()));
    assert!(parsed.ctrl());
    assert!(!parsed.meta());
    assert!(!parsed.shift());
}

#[test]
fn test_parsed_key_meta_modifier() {
    let parsed = ParsedKey::from_event(KeyEvent::new(KeyCode::Char('x'), KeyModifiers::alt()));
    assert!(!parsed.ctrl());
    assert!(parsed.meta());
    assert!(!parsed.shift());
}

#[test]
fn test_parsed_key_shift_modifier() {
    let parsed = ParsedKey::from_event(KeyEvent::new(KeyCode::Char('Z'), KeyModifiers::shift()));
    assert!(!parsed.ctrl());
    assert!(!parsed.meta());
    assert!(parsed.shift());
}

#[test]
fn test_parsed_key_no_modifiers() {
    let parsed = ParsedKey::from_event(KeyEvent::new(KeyCode::Enter, KeyModifiers::none()));
    assert!(!parsed.ctrl());
    assert!(!parsed.meta());
    assert!(!parsed.shift());
    assert_eq!(parsed.code, KeyCode::Enter);
}

#[test]
fn test_parsed_key_roundtrip() {
    let original = KeyEvent::new(KeyCode::Char('a'), KeyModifiers::control());
    let parsed = ParsedKey::from_event(original);
    let roundtrip = parsed.to_event();
    assert_eq!(roundtrip.code, KeyCode::Char('a'));
    assert_eq!(roundtrip.modifiers, KeyModifiers::control());
}

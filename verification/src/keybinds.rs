//! Configurable key bindings: the actions, their default keys, overrides read from the
//! configuration as `action = combo` pairs, matching a key event against an action, and a
//! printable label for an action's key.
use vstd::prelude::*;
use crate::keys::{KeyCode, KeyEvent, KeyModifiers};
use crate::text::{byte_len, char_string, chars_of, decimal, join_strings, join_with, lowercase_of, push_decimal, split_char, split_pieces, str_byte_len, str_eq, str_trim, to_lowercase, trimmed, views, lemma_split_pieces_nonempty};

verus! {

/// A key together with the modifiers that must be held.
#[derive(Debug, Clone, Copy, PartialEq, Eq, Structural)]
pub struct KeyCombination {
    pub key: KeyCode,
    pub modifiers: KeyModifiers,
}

/// An action that a key can be bound to.
#[derive(Debug, Clone, Copy, PartialEq, Eq, Hash, Structural)]
pub enum KeyAction {
    Quit,
    ModelPicker,
    CommandPalette,
    LeaderKey,
    Help,
    ScrollPageUp,
    ScrollPageDown,
    ToggleSidebar,
    ToggleDetails,
    LeaderUndo,
    LeaderRedo,
    LeaderModelPicker,
    LeaderNewSession,
    LeaderSessions,
    LeaderToggleSidebar,
    LeaderCommandPalette,
    DialogUp,
    DialogDown,
    DialogConfirm,
    DialogCancel,
    DialogSearch,
    DialogPageUp,
    DialogPageDown,
    ModelPickerFavorite,
    MessageActionRevert,
    MessageActionCopy,
    MessageActionFork,
}

/// The number of actions.
pub const ACTION_COUNT: usize = 27;

/// The position of an action in declaration order.
pub open spec fn action_index(a: KeyAction) -> nat {
    match a {
        KeyAction::Quit => 0,
        KeyAction::ModelPicker => 1,
        KeyAction::CommandPalette => 2,
        KeyAction::LeaderKey => 3,
        KeyAction::Help => 4,
        KeyAction::ScrollPageUp => 5,
        KeyAction::ScrollPageDown => 6,
        KeyAction::ToggleSidebar => 7,
        KeyAction::ToggleDetails => 8,
        KeyAction::LeaderUndo => 9,
        KeyAction::LeaderRedo => 10,
        KeyAction::LeaderModelPicker => 11,
        KeyAction::LeaderNewSession => 12,
        KeyAction::LeaderSessions => 13,
        KeyAction::LeaderToggleSidebar => 14,
        KeyAction::LeaderCommandPalette => 15,
        KeyAction::DialogUp => 16,
        KeyAction::DialogDown => 17,
        KeyAction::DialogConfirm => 18,
        KeyAction::DialogCancel => 19,
        KeyAction::DialogSearch => 20,
        KeyAction::DialogPageUp => 21,
        KeyAction::DialogPageDown => 22,
        KeyAction::ModelPickerFavorite => 23,
        KeyAction::MessageActionRevert => 24,
        KeyAction::MessageActionCopy => 25,
        KeyAction::MessageActionFork => 26,
    }
}

/// The action at position `i` in declaration order.
pub open spec fn action_at(i: nat) -> KeyAction {
    if i == 0 {
        KeyAction::Quit
    } else if i == 1 {
        KeyAction::ModelPicker
    } else if i == 2 {
        KeyAction::CommandPalette
    } else if i == 3 {
        KeyAction::LeaderKey
    } else if i == 4 {
        KeyAction::Help
    } else if i == 5 {
        KeyAction::ScrollPageUp
    } else if i == 6 {
        KeyAction::ScrollPageDown
    } else if i == 7 {
        KeyAction::ToggleSidebar
    } else if i == 8 {
        KeyAction::ToggleDetails
    } else if i == 9 {
        KeyAction::LeaderUndo
    } else if i == 10 {
        KeyAction::LeaderRedo
    } else if i == 11 {
        KeyAction::LeaderModelPicker
    } else if i == 12 {
        KeyAction::LeaderNewSession
    } else if i == 13 {
        KeyAction::LeaderSessions
    } else if i == 14 {
        KeyAction::LeaderToggleSidebar
    } else if i == 15 {
        KeyAction::LeaderCommandPalette
    } else if i == 16 {
        KeyAction::DialogUp
    } else if i == 17 {
        KeyAction::DialogDown
    } else if i == 18 {
        KeyAction::DialogConfirm
    } else if i == 19 {
        KeyAction::DialogCancel
    } else if i == 20 {
        KeyAction::DialogSearch
    } else if i == 21 {
        KeyAction::DialogPageUp
    } else if i == 22 {
        KeyAction::DialogPageDown
    } else if i == 23 {
        KeyAction::ModelPickerFavorite
    } else if i == 24 {
        KeyAction::MessageActionRevert
    } else if i == 25 {
        KeyAction::MessageActionCopy
    } else {
        KeyAction::MessageActionFork
    }
}

proof fn lemma_action_index(a: KeyAction)
    ensures
        action_index(a) < ACTION_COUNT,
        action_at(action_index(a)) == a,
{
}

fn index_of_action(a: KeyAction) -> (i: usize)
    ensures
        i == action_index(a),
{
    match a {
        KeyAction::Quit => 0,
        KeyAction::ModelPicker => 1,
        KeyAction::CommandPalette => 2,
        KeyAction::LeaderKey => 3,
        KeyAction::Help => 4,
        KeyAction::ScrollPageUp => 5,
        KeyAction::ScrollPageDown => 6,
        KeyAction::ToggleSidebar => 7,
        KeyAction::ToggleDetails => 8,
        KeyAction::LeaderUndo => 9,
        KeyAction::LeaderRedo => 10,
        KeyAction::LeaderModelPicker => 11,
        KeyAction::LeaderNewSession => 12,
        KeyAction::LeaderSessions => 13,
        KeyAction::LeaderToggleSidebar => 14,
        KeyAction::LeaderCommandPalette => 15,
        KeyAction::DialogUp => 16,
        KeyAction::DialogDown => 17,
        KeyAction::DialogConfirm => 18,
        KeyAction::DialogCancel => 19,
        KeyAction::DialogSearch => 20,
        KeyAction::DialogPageUp => 21,
        KeyAction::DialogPageDown => 22,
        KeyAction::ModelPickerFavorite => 23,
        KeyAction::MessageActionRevert => 24,
        KeyAction::MessageActionCopy => 25,
        KeyAction::MessageActionFork => 26,
    }
}

fn action_of_index(i: usize) -> (a: KeyAction)
    requires
        i < ACTION_COUNT,
    ensures
        a == action_at(i as nat),
        action_index(a) == i,
{
    if i == 0 {
        KeyAction::Quit
    } else if i == 1 {
        KeyAction::ModelPicker
    } else if i == 2 {
        KeyAction::CommandPalette
    } else if i == 3 {
        KeyAction::LeaderKey
    } else if i == 4 {
        KeyAction::Help
    } else if i == 5 {
        KeyAction::ScrollPageUp
    } else if i == 6 {
        KeyAction::ScrollPageDown
    } else if i == 7 {
        KeyAction::ToggleSidebar
    } else if i == 8 {
        KeyAction::ToggleDetails
    } else if i == 9 {
        KeyAction::LeaderUndo
    } else if i == 10 {
        KeyAction::LeaderRedo
    } else if i == 11 {
        KeyAction::LeaderModelPicker
    } else if i == 12 {
        KeyAction::LeaderNewSession
    } else if i == 13 {
        KeyAction::LeaderSessions
    } else if i == 14 {
        KeyAction::LeaderToggleSidebar
    } else if i == 15 {
        KeyAction::LeaderCommandPalette
    } else if i == 16 {
        KeyAction::DialogUp
    } else if i == 17 {
        KeyAction::DialogDown
    } else if i == 18 {
        KeyAction::DialogConfirm
    } else if i == 19 {
        KeyAction::DialogCancel
    } else if i == 20 {
        KeyAction::DialogSearch
    } else if i == 21 {
        KeyAction::DialogPageUp
    } else if i == 22 {
        KeyAction::DialogPageDown
    } else if i == 23 {
        KeyAction::ModelPickerFavorite
    } else if i == 24 {
        KeyAction::MessageActionRevert
    } else if i == 25 {
        KeyAction::MessageActionCopy
    } else {
        KeyAction::MessageActionFork
    }
}

// ---------------------------------------------------------------------------
// Defaults
// ---------------------------------------------------------------------------

/// A key with no modifier.
pub open spec fn plain(k: KeyCode) -> KeyCombination {
    KeyCombination { key: k, modifiers: KeyModifiers { bits: 0 } }
}

/// A key with control held.
pub open spec fn with_ctrl(k: KeyCode) -> KeyCombination {
    KeyCombination { key: k, modifiers: KeyModifiers { bits: 2 } }
}

/// A key with alt held.
pub open spec fn with_alt(k: KeyCode) -> KeyCombination {
    KeyCombination { key: k, modifiers: KeyModifiers { bits: 4 } }
}

/// The key an action is bound to by default.
pub open spec fn default_combo(a: KeyAction) -> KeyCombination {
    match a {
        KeyAction::Quit => with_ctrl(KeyCode::Char('c')),
        KeyAction::ModelPicker => with_ctrl(KeyCode::Char('m')),
        KeyAction::CommandPalette => with_ctrl(KeyCode::Char('p')),
        KeyAction::LeaderKey => with_ctrl(KeyCode::Char('x')),
        KeyAction::Help => plain(KeyCode::Char('?')),
        KeyAction::ScrollPageUp => plain(KeyCode::PageUp),
        KeyAction::ScrollPageDown => plain(KeyCode::PageDown),
        KeyAction::ToggleSidebar => with_alt(KeyCode::Char('s')),
        KeyAction::ToggleDetails => with_ctrl(KeyCode::Char('t')),
        KeyAction::LeaderUndo => plain(KeyCode::Char('u')),
        KeyAction::LeaderRedo => plain(KeyCode::Char('r')),
        KeyAction::LeaderModelPicker => plain(KeyCode::Char('m')),
        KeyAction::LeaderNewSession => plain(KeyCode::Char('n')),
        KeyAction::LeaderSessions => plain(KeyCode::Char('l')),
        KeyAction::LeaderToggleSidebar => plain(KeyCode::Char('b')),
        KeyAction::LeaderCommandPalette => plain(KeyCode::Char('a')),
        KeyAction::DialogUp => plain(KeyCode::Up),
        KeyAction::DialogDown => plain(KeyCode::Down),
        KeyAction::DialogConfirm => plain(KeyCode::Enter),
        KeyAction::DialogCancel => plain(KeyCode::Esc),
        KeyAction::DialogSearch => plain(KeyCode::Char('/')),
        KeyAction::DialogPageUp => plain(KeyCode::PageUp),
        KeyAction::DialogPageDown => plain(KeyCode::PageDown),
        KeyAction::ModelPickerFavorite => with_ctrl(KeyCode::Char('f')),
        KeyAction::MessageActionRevert => plain(KeyCode::Char('r')),
        KeyAction::MessageActionCopy => plain(KeyCode::Char('c')),
        KeyAction::MessageActionFork => plain(KeyCode::Char('f')),
    }
}

fn default_combo_of(a: KeyAction) -> (c: KeyCombination)
    ensures
        c == default_combo(a),
{
    let none = KeyModifiers { bits: 0 };
    let ctrl = KeyModifiers { bits: 2 };
    let alt = KeyModifiers { bits: 4 };
    match a {
        KeyAction::Quit => KeyCombination { key: KeyCode::Char('c'), modifiers: ctrl },
        KeyAction::ModelPicker => KeyCombination { key: KeyCode::Char('m'), modifiers: ctrl },
        KeyAction::CommandPalette => KeyCombination { key: KeyCode::Char('p'), modifiers: ctrl },
        KeyAction::LeaderKey => KeyCombination { key: KeyCode::Char('x'), modifiers: ctrl },
        KeyAction::Help => KeyCombination { key: KeyCode::Char('?'), modifiers: none },
        KeyAction::ScrollPageUp => KeyCombination { key: KeyCode::PageUp, modifiers: none },
        KeyAction::ScrollPageDown => KeyCombination { key: KeyCode::PageDown, modifiers: none },
        KeyAction::ToggleSidebar => KeyCombination { key: KeyCode::Char('s'), modifiers: alt },
        KeyAction::ToggleDetails => KeyCombination { key: KeyCode::Char('t'), modifiers: ctrl },
        KeyAction::LeaderUndo => KeyCombination { key: KeyCode::Char('u'), modifiers: none },
        KeyAction::LeaderRedo => KeyCombination { key: KeyCode::Char('r'), modifiers: none },
        KeyAction::LeaderModelPicker => KeyCombination { key: KeyCode::Char('m'), modifiers: none },
        KeyAction::LeaderNewSession => KeyCombination { key: KeyCode::Char('n'), modifiers: none },
        KeyAction::LeaderSessions => KeyCombination { key: KeyCode::Char('l'), modifiers: none },
        KeyAction::LeaderToggleSidebar => KeyCombination { key: KeyCode::Char('b'), modifiers: none },
        KeyAction::LeaderCommandPalette => KeyCombination { key: KeyCode::Char('a'), modifiers: none },
        KeyAction::DialogUp => KeyCombination { key: KeyCode::Up, modifiers: none },
        KeyAction::DialogDown => KeyCombination { key: KeyCode::Down, modifiers: none },
        KeyAction::DialogConfirm => KeyCombination { key: KeyCode::Enter, modifiers: none },
        KeyAction::DialogCancel => KeyCombination { key: KeyCode::Esc, modifiers: none },
        KeyAction::DialogSearch => KeyCombination { key: KeyCode::Char('/'), modifiers: none },
        KeyAction::DialogPageUp => KeyCombination { key: KeyCode::PageUp, modifiers: none },
        KeyAction::DialogPageDown => KeyCombination { key: KeyCode::PageDown, modifiers: none },
        KeyAction::ModelPickerFavorite => KeyCombination { key: KeyCode::Char('f'), modifiers: ctrl },
        KeyAction::MessageActionRevert => KeyCombination { key: KeyCode::Char('r'), modifiers: none },
        KeyAction::MessageActionCopy => KeyCombination { key: KeyCode::Char('c'), modifiers: none },
        KeyAction::MessageActionFork => KeyCombination { key: KeyCode::Char('f'), modifiers: none },
    }
}

fn single(c: KeyCombination) -> (v: Vec<KeyCombination>)
    ensures
        v@ == seq![c],
{
    let mut v = Vec::new();
    v.push(c);
    v
}

// ---------------------------------------------------------------------------
// Parsing the configuration
// ---------------------------------------------------------------------------

/// The action a lower-cased configuration name stands for.
pub open spec fn action_named(s: Seq<char>) -> Option<KeyAction> {
    if s == "quit"@ {
        Some(KeyAction::Quit)
    } else if s == "model_picker"@ || s == "modelpicker"@ {
        Some(KeyAction::ModelPicker)
    } else if s == "command_palette"@ || s == "commandpalette"@ {
        Some(KeyAction::CommandPalette)
    } else if s == "leader"@ || s == "leader_key"@ || s == "leaderkey"@ {
        Some(KeyAction::LeaderKey)
    } else if s == "help"@ {
        Some(KeyAction::Help)
    } else if s == "scroll_page_up"@ || s == "scrollpageup"@ {
        Some(KeyAction::ScrollPageUp)
    } else if s == "scroll_page_down"@ || s == "scrollpagedown"@ {
        Some(KeyAction::ScrollPageDown)
    } else if s == "toggle_sidebar"@ || s == "togglesidebar"@ {
        Some(KeyAction::ToggleSidebar)
    } else if s == "toggle_details"@ || s == "toggledetails"@ {
        Some(KeyAction::ToggleDetails)
    } else if s == "leader_undo"@ || s == "leaderundo"@ {
        Some(KeyAction::LeaderUndo)
    } else if s == "leader_redo"@ || s == "leaderredo"@ {
        Some(KeyAction::LeaderRedo)
    } else if s == "leader_model"@ || s == "leadermodel"@ || s == "leader_model_picker"@ {
        Some(KeyAction::LeaderModelPicker)
    } else if s == "leader_new_session"@ || s == "leadernewsession"@ {
        Some(KeyAction::LeaderNewSession)
    } else if s == "leader_sessions"@ || s == "leadersessions"@ {
        Some(KeyAction::LeaderSessions)
    } else if s == "leader_toggle_sidebar"@ || s == "leadertogglesidebar"@ {
        Some(KeyAction::LeaderToggleSidebar)
    } else if s == "leader_command_palette"@ || s == "leadercommandpalette"@ {
        Some(KeyAction::LeaderCommandPalette)
    } else if s == "dialog_up"@ || s == "dialogup"@ {
        Some(KeyAction::DialogUp)
    } else if s == "dialog_down"@ || s == "dialogdown"@ {
        Some(KeyAction::DialogDown)
    } else if s == "dialog_confirm"@ || s == "dialogconfirm"@ {
        Some(KeyAction::DialogConfirm)
    } else if s == "dialog_cancel"@ || s == "dialogcancel"@ {
        Some(KeyAction::DialogCancel)
    } else if s == "dialog_search"@ || s == "dialogsearch"@ {
        Some(KeyAction::DialogSearch)
    } else if s == "dialog_page_up"@ || s == "dialogpageup"@ {
        Some(KeyAction::DialogPageUp)
    } else if s == "dialog_page_down"@ || s == "dialogpagedown"@ {
        Some(KeyAction::DialogPageDown)
    } else if s == "model_picker_favorite"@ || s == "modelpickerfavorite"@ {
        Some(KeyAction::ModelPickerFavorite)
    } else if s == "message_action_revert"@ || s == "messageactionrevert"@ {
        Some(KeyAction::MessageActionRevert)
    } else if s == "message_action_copy"@ || s == "messageactioncopy"@ {
        Some(KeyAction::MessageActionCopy)
    } else if s == "message_action_fork"@ || s == "messageactionfork"@ {
        Some(KeyAction::MessageActionFork)
    } else {
        None
    }
}

/// The action a configuration name stands for, ignoring case.
fn parse_action(s: &str) -> (r: Option<KeyAction>)
    ensures
        r == action_named(lowercase_of(s@)),
{
    let lower = to_lowercase(s);
    let l = lower.as_str();
    if str_eq(l, "quit") {
        Some(KeyAction::Quit)
    } else if str_eq(l, "model_picker") || str_eq(l, "modelpicker") {
        Some(KeyAction::ModelPicker)
    } else if str_eq(l, "command_palette") || str_eq(l, "commandpalette") {
        Some(KeyAction::CommandPalette)
    } else if str_eq(l, "leader") || str_eq(l, "leader_key") || str_eq(l, "leaderkey") {
        Some(KeyAction::LeaderKey)
    } else if str_eq(l, "help") {
        Some(KeyAction::Help)
    } else if str_eq(l, "scroll_page_up") || str_eq(l, "scrollpageup") {
        Some(KeyAction::ScrollPageUp)
    } else if str_eq(l, "scroll_page_down") || str_eq(l, "scrollpagedown") {
        Some(KeyAction::ScrollPageDown)
    } else if str_eq(l, "toggle_sidebar") || str_eq(l, "togglesidebar") {
        Some(KeyAction::ToggleSidebar)
    } else if str_eq(l, "toggle_details") || str_eq(l, "toggledetails") {
        Some(KeyAction::ToggleDetails)
    } else if str_eq(l, "leader_undo") || str_eq(l, "leaderundo") {
        Some(KeyAction::LeaderUndo)
    } else if str_eq(l, "leader_redo") || str_eq(l, "leaderredo") {
        Some(KeyAction::LeaderRedo)
    } else if str_eq(l, "leader_model") || str_eq(l, "leadermodel") || str_eq(l, "leader_model_picker") {
        Some(KeyAction::LeaderModelPicker)
    } else if str_eq(l, "leader_new_session") || str_eq(l, "leadernewsession") {
        Some(KeyAction::LeaderNewSession)
    } else if str_eq(l, "leader_sessions") || str_eq(l, "leadersessions") {
        Some(KeyAction::LeaderSessions)
    } else if str_eq(l, "leader_toggle_sidebar") || str_eq(l, "leadertogglesidebar") {
        Some(KeyAction::LeaderToggleSidebar)
    } else if str_eq(l, "leader_command_palette") || str_eq(l, "leadercommandpalette") {
        Some(KeyAction::LeaderCommandPalette)
    } else if str_eq(l, "dialog_up") || str_eq(l, "dialogup") {
        Some(KeyAction::DialogUp)
    } else if str_eq(l, "dialog_down") || str_eq(l, "dialogdown") {
        Some(KeyAction::DialogDown)
    } else if str_eq(l, "dialog_confirm") || str_eq(l, "dialogconfirm") {
        Some(KeyAction::DialogConfirm)
    } else if str_eq(l, "dialog_cancel") || str_eq(l, "dialogcancel") {
        Some(KeyAction::DialogCancel)
    } else if str_eq(l, "dialog_search") || str_eq(l, "dialogsearch") {
        Some(KeyAction::DialogSearch)
    } else if str_eq(l, "dialog_page_up") || str_eq(l, "dialogpageup") {
        Some(KeyAction::DialogPageUp)
    } else if str_eq(l, "dialog_page_down") || str_eq(l, "dialogpagedown") {
        Some(KeyAction::DialogPageDown)
    } else if str_eq(l, "model_picker_favorite") || str_eq(l, "modelpickerfavorite") {
        Some(KeyAction::ModelPickerFavorite)
    } else if str_eq(l, "message_action_revert") || str_eq(l, "messageactionrevert") {
        Some(KeyAction::MessageActionRevert)
    } else if str_eq(l, "message_action_copy") || str_eq(l, "messageactioncopy") {
        Some(KeyAction::MessageActionCopy)
    } else if str_eq(l, "message_action_fork") || str_eq(l, "messageactionfork") {
        Some(KeyAction::MessageActionFork)
    } else {
        None
    }
}

/// The modifier bit a lower-cased modifier name stands for (0 for an unknown name).
pub open spec fn modifier_flag(name: Seq<char>) -> u8 {
    if name == "ctrl"@ || name == "control"@ {
        2
    } else if name == "alt"@ || name == "option"@ {
        4
    } else if name == "shift"@ {
        1
    } else if name == "super"@ || name == "cmd"@ || name == "win"@ {
        8
    } else {
        0
    }
}

fn modifier_flag_of(name: &str) -> (f: u8)
    ensures
        f == modifier_flag(name@),
{
    if str_eq(name, "ctrl") || str_eq(name, "control") {
        2
    } else if str_eq(name, "alt") || str_eq(name, "option") {
        4
    } else if str_eq(name, "shift") {
        1
    } else if str_eq(name, "super") || str_eq(name, "cmd") || str_eq(name, "win") {
        8
    } else {
        0
    }
}

/// The modifiers named by `parts`, each trimmed and lower-cased.
pub open spec fn modifier_bits(parts: Seq<Seq<char>>) -> u8
    decreases parts.len(),
{
    if parts.len() == 0 {
        0
    } else {
        modifier_bits(parts.drop_last()) | modifier_flag(lowercase_of(trimmed(parts.last())))
    }
}

/// The key a configuration key name stands for: a name of one byte is that character;
/// otherwise the lower-cased name of a key (`enter`, `pgup`, `f5`, ...).
pub open spec fn key_code_of(s: Seq<char>) -> Option<KeyCode> {
    let t = trimmed(s);
    let l = lowercase_of(t);
    if byte_len(t) == 1 {
        Some(KeyCode::Char(t[0]))
    } else if l == "enter"@ || l == "return"@ {
        Some(KeyCode::Enter)
    } else if l == "esc"@ || l == "escape"@ {
        Some(KeyCode::Esc)
    } else if l == "tab"@ {
        Some(KeyCode::Tab)
    } else if l == "backtab"@ || l == "shift_tab"@ || l == "shift+tab"@ {
        Some(KeyCode::BackTab)
    } else if l == "backspace"@ {
        Some(KeyCode::Backspace)
    } else if l == "delete"@ || l == "del"@ {
        Some(KeyCode::Delete)
    } else if l == "insert"@ || l == "ins"@ {
        Some(KeyCode::Insert)
    } else if l == "up"@ || l == "uparrow"@ || l == "arrow_up"@ {
        Some(KeyCode::Up)
    } else if l == "down"@ || l == "downarrow"@ || l == "arrow_down"@ {
        Some(KeyCode::Down)
    } else if l == "left"@ || l == "leftarrow"@ || l == "arrow_left"@ {
        Some(KeyCode::Left)
    } else if l == "right"@ || l == "rightarrow"@ || l == "arrow_right"@ {
        Some(KeyCode::Right)
    } else if l == "home"@ {
        Some(KeyCode::Home)
    } else if l == "end"@ {
        Some(KeyCode::End)
    } else if l == "pageup"@ || l == "page_up"@ || l == "pgup"@ {
        Some(KeyCode::PageUp)
    } else if l == "pagedown"@ || l == "page_down"@ || l == "pgdn"@ {
        Some(KeyCode::PageDown)
    } else if l == "space"@ {
        Some(KeyCode::Char(' '))
    } else if l == "f1"@ {
        Some(KeyCode::F(1))
    } else if l == "f2"@ {
        Some(KeyCode::F(2))
    } else if l == "f3"@ {
        Some(KeyCode::F(3))
    } else if l == "f4"@ {
        Some(KeyCode::F(4))
    } else if l == "f5"@ {
        Some(KeyCode::F(5))
    } else if l == "f6"@ {
        Some(KeyCode::F(6))
    } else if l == "f7"@ {
        Some(KeyCode::F(7))
    } else if l == "f8"@ {
        Some(KeyCode::F(8))
    } else if l == "f9"@ {
        Some(KeyCode::F(9))
    } else if l == "f10"@ {
        Some(KeyCode::F(10))
    } else if l == "f11"@ {
        Some(KeyCode::F(11))
    } else if l == "f12"@ {
        Some(KeyCode::F(12))
    } else {
        None
    }
}

/// The key a configuration key name stands for (see `key_code_of`).
fn parse_key_code(s: &str) -> (r: Option<KeyCode>)
    ensures
        r == key_code_of(s@),
{
    let t = str_trim(s);
    if str_byte_len(t.as_str()) == 1 {
        let v = chars_of(t.as_str());
        return Some(KeyCode::Char(v[0]));
    }
    let lower = to_lowercase(t.as_str());
    let l = lower.as_str();
    if str_eq(l, "enter") || str_eq(l, "return") {
        Some(KeyCode::Enter)
    } else if str_eq(l, "esc") || str_eq(l, "escape") {
        Some(KeyCode::Esc)
    } else if str_eq(l, "tab") {
        Some(KeyCode::Tab)
    } else if str_eq(l, "backtab") || str_eq(l, "shift_tab") || str_eq(l, "shift+tab") {
        Some(KeyCode::BackTab)
    } else if str_eq(l, "backspace") {
        Some(KeyCode::Backspace)
    } else if str_eq(l, "delete") || str_eq(l, "del") {
        Some(KeyCode::Delete)
    } else if str_eq(l, "insert") || str_eq(l, "ins") {
        Some(KeyCode::Insert)
    } else if str_eq(l, "up") || str_eq(l, "uparrow") || str_eq(l, "arrow_up") {
        Some(KeyCode::Up)
    } else if str_eq(l, "down") || str_eq(l, "downarrow") || str_eq(l, "arrow_down") {
        Some(KeyCode::Down)
    } else if str_eq(l, "left") || str_eq(l, "leftarrow") || str_eq(l, "arrow_left") {
        Some(KeyCode::Left)
    } else if str_eq(l, "right") || str_eq(l, "rightarrow") || str_eq(l, "arrow_right") {
        Some(KeyCode::Right)
    } else if str_eq(l, "home") {
        Some(KeyCode::Home)
    } else if str_eq(l, "end") {
        Some(KeyCode::End)
    } else if str_eq(l, "pageup") || str_eq(l, "page_up") || str_eq(l, "pgup") {
        Some(KeyCode::PageUp)
    } else if str_eq(l, "pagedown") || str_eq(l, "page_down") || str_eq(l, "pgdn") {
        Some(KeyCode::PageDown)
    } else if str_eq(l, "space") {
        Some(KeyCode::Char(' '))
    } else if str_eq(l, "f1") {
        Some(KeyCode::F(1))
    } else if str_eq(l, "f2") {
        Some(KeyCode::F(2))
    } else if str_eq(l, "f3") {
        Some(KeyCode::F(3))
    } else if str_eq(l, "f4") {
        Some(KeyCode::F(4))
    } else if str_eq(l, "f5") {
        Some(KeyCode::F(5))
    } else if str_eq(l, "f6") {
        Some(KeyCode::F(6))
    } else if str_eq(l, "f7") {
        Some(KeyCode::F(7))
    } else if str_eq(l, "f8") {
        Some(KeyCode::F(8))
    } else if str_eq(l, "f9") {
        Some(KeyCode::F(9))
    } else if str_eq(l, "f10") {
        Some(KeyCode::F(10))
    } else if str_eq(l, "f11") {
        Some(KeyCode::F(11))
    } else if str_eq(l, "f12") {
        Some(KeyCode::F(12))
    } else {
        None
    }
}

/// The key combination a configuration value such as `ctrl+p` stands for: the pieces
/// between `+`, all but the last naming modifiers, the last naming the key.
pub open spec fn combo_of(s: Seq<char>) -> Option<KeyCombination> {
    let t = trimmed(s);
    if t.len() == 0 {
        None
    } else {
        let parts = split_pieces(t, '+');
        match key_code_of(trimmed(parts.last())) {
            Some(k) => Some(KeyCombination { key: k, modifiers: KeyModifiers { bits: modifier_bits(parts.drop_last()) } }),
            None => None,
        }
    }
}

/// The key combination a configuration value stands for (see `combo_of`).
fn parse_combo(s: &str) -> (r: Option<KeyCombination>)
    ensures
        r == combo_of(s@),
{
    let t = str_trim(s);
    if t.unicode_len() == 0 {
        return None;
    }
    let parts = split_char(t.as_str(), '+');
    proof {
        lemma_split_pieces_nonempty(t@, '+');
    }
    let ghost ps = views(parts@);
    let n = parts.len();
    let key_part = str_trim(parts[n - 1].as_str());
    let mut bits: u8 = 0;
    let mut i: usize = 0;
    while i < n - 1
        invariant
            n == parts@.len(),
            n >= 1,
            i <= n - 1,
            ps == views(parts@),
            bits == modifier_bits(ps.take(i as int)),
        decreases n - 1 - i,
    {
        assert(ps.take(i + 1).drop_last() =~= ps.take(i as int));
        assert(ps.take(i + 1).last() == parts@[i as int]@);
        let name = str_trim(parts[i].as_str());
        let lower = to_lowercase(name.as_str());
        bits = bits | modifier_flag_of(lower.as_str());
        i = i + 1;
    }
    assert(ps.take(n - 1) =~= ps.drop_last());
    assert(ps.last() == parts@[n - 1]@);
    match parse_key_code(key_part.as_str()) {
        Some(key) => Some(KeyCombination { key, modifiers: KeyModifiers { bits } }),
        None => None,
    }
}

/// The plain values of configuration pairs.
pub open spec fn pair_views(v: Seq<(String, String)>) -> Seq<(Seq<char>, Seq<char>)> {
    v.map_values(|p: (String, String)| (p.0@, p.1@))
}

/// The binding of `a` after applying `pairs` in order over `before`: the last pair that
/// names `a` and a valid combination replaces it.
pub open spec fn override_after(
    pairs: Seq<(Seq<char>, Seq<char>)>,
    a: KeyAction,
    before: Option<Seq<KeyCombination>>,
) -> Option<Seq<KeyCombination>>
    decreases pairs.len(),
{
    if pairs.len() == 0 {
        before
    } else {
        let p = pairs.last();
        if action_named(lowercase_of(p.0)) == Some(a) && combo_of(p.1) is Some {
            Some(seq![combo_of(p.1).unwrap()])
        } else {
            override_after(pairs.drop_last(), a, before)
        }
    }
}

// ---------------------------------------------------------------------------
// Matching and printing
// ---------------------------------------------------------------------------

/// A key event matches a combination: the same key and modifiers, or, for back-tab, the
/// key alone (shift is implied).
pub open spec fn combo_matches(c: KeyCombination, k: KeyEvent) -> bool {
    if c.key == KeyCode::BackTab {
        k.code == KeyCode::BackTab
    } else {
        k.code == c.key && k.modifiers == c.modifiers
    }
}

/// One of `cs` matches the key event.
pub open spec fn any_match(cs: Seq<KeyCombination>, k: KeyEvent) -> bool {
    exists|i: int| 0 <= i < cs.len() && combo_matches(#[trigger] cs[i], k)
}

/// The modifier `flag` is among `bits`.
pub open spec fn has_flag(bits: u8, flag: u8) -> bool {
    bits & flag == flag
}

/// The names printed for a combination's modifiers, in order: Ctrl, Alt, Shift (not for an
/// upper-case letter, where it is implied), Super.
pub open spec fn modifier_names(c: KeyCombination) -> Seq<Seq<char>> {
    let b = c.modifiers.bits;
    let upper = match c.key {
        KeyCode::Char(ch) => 'A' <= ch && ch <= 'Z',
        _ => false,
    };
    (if has_flag(b, 2) { seq!["Ctrl"@] } else { Seq::empty() })
        + (if has_flag(b, 4) { seq!["Alt"@] } else { Seq::empty() })
        + (if has_flag(b, 1) && !upper { seq!["Shift"@] } else { Seq::empty() })
        + (if has_flag(b, 8) { seq!["Super"@] } else { Seq::empty() })
}

/// The printed name of a key.
pub open spec fn key_label(k: KeyCode) -> Seq<char> {
    match k {
        KeyCode::Char(c) => seq![c],
        KeyCode::Enter => "Enter"@,
        KeyCode::Esc => "Esc"@,
        KeyCode::Tab => "Tab"@,
        KeyCode::BackTab => "Tab"@,
        KeyCode::Backspace => "Backspace"@,
        KeyCode::Delete => "Delete"@,
        KeyCode::Insert => "Insert"@,
        KeyCode::Up => "↑"@,
        KeyCode::Down => "↓"@,
        KeyCode::Left => "←"@,
        KeyCode::Right => "→"@,
        KeyCode::Home => "Home"@,
        KeyCode::End => "End"@,
        KeyCode::PageUp => "PgUp"@,
        KeyCode::PageDown => "PgDn"@,
        KeyCode::F(n) => "F"@ + decimal(n as nat),
        KeyCode::Other => "Other"@,
    }
}

/// The printed form of a combination: its modifier names and key name joined by `+`.
pub open spec fn combo_label(c: KeyCombination) -> Seq<char> {
    join_with(modifier_names(c).push(key_label(c.key)), "+"@)
}

fn key_label_of(k: KeyCode) -> (r: String)
    ensures
        r@ == key_label(k),
{
    match k {
        KeyCode::Char(c) => char_string(c),
        KeyCode::Enter => String::from_str("Enter"),
        KeyCode::Esc => String::from_str("Esc"),
        KeyCode::Tab => String::from_str("Tab"),
        KeyCode::BackTab => String::from_str("Tab"),
        KeyCode::Backspace => String::from_str("Backspace"),
        KeyCode::Delete => String::from_str("Delete"),
        KeyCode::Insert => String::from_str("Insert"),
        KeyCode::Up => String::from_str("↑"),
        KeyCode::Down => String::from_str("↓"),
        KeyCode::Left => String::from_str("←"),
        KeyCode::Right => String::from_str("→"),
        KeyCode::Home => String::from_str("Home"),
        KeyCode::End => String::from_str("End"),
        KeyCode::PageUp => String::from_str("PgUp"),
        KeyCode::PageDown => String::from_str("PgDn"),
        KeyCode::F(n) => {
            let mut s = String::from_str("F");
            push_decimal(&mut s, n as u128);
            s
        },
        KeyCode::Other => String::from_str("Other"),
    }
}

/// The printed form of a combination (see `combo_label`).
fn format_combo(combo: &KeyCombination) -> (r: String)
    ensures
        r@ == combo_label(*combo),
{
    let b = combo.modifiers.bits;
    let upper = match combo.key {
        KeyCode::Char(ch) => 'A' <= ch && ch <= 'Z',
        _ => false,
    };
    let mut parts: Vec<String> = Vec::new();
    let ghost mut names: Seq<Seq<char>> = Seq::empty();
    if b & 2 == 2 {
        parts.push(String::from_str("Ctrl"));
        proof { names = names + seq!["Ctrl"@]; }
    } else {
        proof { names = names + Seq::empty(); }
    }
    assert(views(parts@) =~= names);
    if b & 4 == 4 {
        parts.push(String::from_str("Alt"));
        proof { names = names + seq!["Alt"@]; }
    } else {
        proof { names = names + Seq::empty(); }
    }
    assert(views(parts@) =~= names);
    if b & 1 == 1 && !upper {
        parts.push(String::from_str("Shift"));
        proof { names = names + seq!["Shift"@]; }
    } else {
        proof { names = names + Seq::empty(); }
    }
    assert(views(parts@) =~= names);
    if b & 8 == 8 {
        parts.push(String::from_str("Super"));
        proof { names = names + seq!["Super"@]; }
    } else {
        proof { names = names + Seq::empty(); }
    }
    assert(views(parts@) =~= names);
    assert(names =~= modifier_names(*combo));
    parts.push(key_label_of(combo.key));
    assert(views(parts@) =~= modifier_names(*combo).push(key_label(combo.key)));
    join_strings(&parts, "+")
}

// ---------------------------------------------------------------------------
// The registry
// ---------------------------------------------------------------------------

/// The bindings of every action: defaults and overrides from the configuration, one slot
/// per action.
pub struct KeybindRegistry {
    defaults: Vec<Option<Vec<KeyCombination>>>,
    overrides: Vec<Option<Vec<KeyCombination>>>,
}

/// The plain value of a slot.
pub open spec fn slot(o: Option<Vec<KeyCombination>>) -> Option<Seq<KeyCombination>> {
    match o {
        Some(v) => Some(v@),
        None => None,
    }
}

impl KeybindRegistry {
    /// One slot per action in each table.
    pub closed spec fn wf(&self) -> bool {
        self.defaults@.len() == ACTION_COUNT && self.overrides@.len() == ACTION_COUNT
    }

    /// The default keys of `a`, if it has any.
    pub closed spec fn default_of(&self, a: KeyAction) -> Option<Seq<KeyCombination>> {
        slot(self.defaults@[action_index(a) as int])
    }

    /// The configured keys of `a`, if any.
    pub closed spec fn override_of(&self, a: KeyAction) -> Option<Seq<KeyCombination>> {
        slot(self.overrides@[action_index(a) as int])
    }

    /// The keys in force for `a`: the configured ones, else the defaults.
    pub open spec fn bindings(&self, a: KeyAction) -> Option<Seq<KeyCombination>> {
        match self.override_of(a) {
            Some(c) => Some(c),
            None => self.default_of(a),
        }
    }

    /// A registry with no bindings.
    pub fn new() -> (r: Self)
        ensures
            r.wf(),
            forall|a: KeyAction| #[trigger] r.default_of(a) is None,
            forall|a: KeyAction| #[trigger] r.override_of(a) is None,
    {
        let mut defaults: Vec<Option<Vec<KeyCombination>>> = Vec::new();
        let mut overrides: Vec<Option<Vec<KeyCombination>>> = Vec::new();
        let mut i: usize = 0;
        while i < ACTION_COUNT
            invariant
                i <= ACTION_COUNT,
                defaults@.len() == i && overrides@.len() == i,
                forall|j: int| 0 <= j < i ==> defaults@[j] is None && overrides@[j] is None,
            decreases ACTION_COUNT - i,
        {
            defaults.push(None);
            overrides.push(None);
            i = i + 1;
        }
        let r = KeybindRegistry { defaults, overrides };
        assert forall|a: KeyAction| #[trigger] r.default_of(a) is None by {
            lemma_action_index(a);
        }
        assert forall|a: KeyAction| #[trigger] r.override_of(a) is None by {
            lemma_action_index(a);
        }
        r
    }

    /// Binds every action to its default key (see `default_combo`).
    pub fn populate_defaults(&mut self)
        requires
            old(self).wf(),
        ensures
            final(self).wf(),
            forall|a: KeyAction| #[trigger] final(self).default_of(a) == Some(seq![default_combo(a)]),
            forall|a: KeyAction| #[trigger] final(self).override_of(a) == old(self).override_of(a),
    {
        let mut i: usize = 0;
        while i < ACTION_COUNT
            invariant
                i <= ACTION_COUNT,
                self.defaults@.len() == ACTION_COUNT,
                self.overrides@ == old(self).overrides@,
                forall|j: int| 0 <= j < i ==> slot(#[trigger] self.defaults@[j]) == Some(seq![default_combo(action_at(j as nat))]),
            decreases ACTION_COUNT - i,
        {
            let a = action_of_index(i);
            let c = default_combo_of(a);
            self.defaults.set(i, Some(single(c)));
            i = i + 1;
        }
        assert forall|a: KeyAction| #[trigger] self.default_of(a) == Some(seq![default_combo(a)]) by {
            lemma_action_index(a);
        }
    }

    /// Applies configuration pairs (`action name`, `key combination`) in order: each pair
    /// whose name and combination both parse replaces that action's configured keys.
    pub fn apply_overrides(&mut self, overrides: &Vec<(String, String)>)
        requires
            old(self).wf(),
        ensures
            final(self).wf(),
            forall|a: KeyAction| #[trigger] final(self).override_of(a)
                == override_after(pair_views(overrides@), a, old(self).override_of(a)),
            forall|a: KeyAction| #[trigger] final(self).default_of(a) == old(self).default_of(a),
    {
        let ghost ps = pair_views(overrides@);
        let ghost start = *self;
        let mut i: usize = 0;
        assert forall|a: KeyAction| #[trigger] self.override_of(a) == override_after(ps.take(0), a, start.override_of(a)) by {
            assert(ps.take(0) =~= Seq::<(Seq<char>, Seq<char>)>::empty());
        }
        while i < overrides.len()
            invariant
                i <= overrides@.len(),
                ps == pair_views(overrides@),
                self.wf(),
                self.defaults@ == start.defaults@,
                start.wf(),
                forall|a: KeyAction| #[trigger] self.override_of(a) == override_after(ps.take(i as int), a, start.override_of(a)),
            decreases overrides@.len() - i,
        {
            proof {
                assert(ps.take(i + 1).drop_last() =~= ps.take(i as int));
                assert(ps.take(i + 1).last() == (overrides@[i as int].0@, overrides@[i as int].1@));
            }
            let ghost before = *self;
            let pair = &overrides[i];
            match parse_action(pair.0.as_str()) {
                Some(action) => match parse_combo(pair.1.as_str()) {
                    Some(combo) => {
                        let k = index_of_action(action);
                        proof {
                            lemma_action_index(action);
                        }
                        self.overrides.set(k, Some(single(combo)));
                        assert forall|a: KeyAction| #[trigger] self.override_of(a) == override_after(ps.take(i + 1), a, start.override_of(a)) by {
                            lemma_action_index(a);
                            if a != action {
                                assert(action_index(a) != action_index(action));
                                assert(self.override_of(a) == before.override_of(a));
                            }
                        }
                    },
                    None => {
                        assert forall|a: KeyAction| #[trigger] self.override_of(a) == override_after(ps.take(i + 1), a, start.override_of(a)) by {
                            assert(self.override_of(a) == before.override_of(a));
                        }
                    },
                },
                None => {
                    assert forall|a: KeyAction| #[trigger] self.override_of(a) == override_after(ps.take(i + 1), a, start.override_of(a)) by {
                        assert(self.override_of(a) == before.override_of(a));
                    }
                },
            }
            i = i + 1;
        }
        assert(ps.take(overrides@.len() as int) =~= ps);
    }

    /// Whether `key` matches one of the keys in force for `action` (configured keys first,
    /// else the defaults).
    pub fn matches(&self, action: &KeyAction, key: &KeyEvent) -> (b: bool)
        requires
            self.wf(),
        ensures
            b == match self.bindings(*action) {
                Some(cs) => any_match(cs, *key),
                None => false,
            },
    {
        let k = index_of_action(*action);
        proof {
            lemma_action_index(*action);
        }
        let combos = match &self.overrides[k] {
            Some(v) => Some(v),
            None => match &self.defaults[k] {
                Some(v) => Some(v),
                None => None,
            },
        };
        match combos {
            Some(cs) => {
                let mut i: usize = 0;
                while i < cs.len()
                    invariant
                        i <= cs@.len(),
                        self.bindings(*action) == Some(cs@),
                        forall|j: int| 0 <= j < i ==> !combo_matches(#[trigger] cs@[j], *key),
                    decreases cs@.len() - i,
                {
                    let c = cs[i];
                    let hit = match c.key {
                        KeyCode::BackTab => key.code == KeyCode::BackTab,
                        _ => key.code == c.key && key.modifiers == c.modifiers,
                    };
                    if hit {
                        assert(combo_matches(cs@[i as int], *key));
                        assert(any_match(cs@, *key));
                        return true;
                    }
                    i = i + 1;
                }
                false
            },
            None => false,
        }
    }

    /// Whether `code` is the key of one of the keys in force for `action`, whatever the
    /// modifiers.
    pub fn matches_key_code(&self, action: &KeyAction, code: KeyCode) -> (b: bool)
        requires
            self.wf(),
        ensures
            b == match self.bindings(*action) {
                Some(cs) => exists|i: int| 0 <= i < cs.len() && (#[trigger] cs[i]).key == code,
                None => false,
            },
    {
        let k = index_of_action(*action);
        proof {
            lemma_action_index(*action);
        }
        let combos = match &self.overrides[k] {
            Some(v) => Some(v),
            None => match &self.defaults[k] {
                Some(v) => Some(v),
                None => None,
            },
        };
        match combos {
            Some(cs) => {
                let mut i: usize = 0;
                while i < cs.len()
                    invariant
                        i <= cs@.len(),
                        self.bindings(*action) == Some(cs@),
                        forall|j: int| 0 <= j < i ==> (#[trigger] cs@[j]).key != code,
                    decreases cs@.len() - i,
                {
                    if cs[i].key == code {
                        assert(cs@[i as int].key == code);
                        return true;
                    }
                    i = i + 1;
                }
                false
            },
            None => false,
        }
    }

    /// The printed form of the first key in force for `action`, or `unbound`.
    pub fn print(&self, action: &KeyAction) -> (r: String)
        requires
            self.wf(),
        ensures
            r@ == match self.bindings(*action) {
                Some(cs) => if cs.len() > 0 { combo_label(cs[0]) } else { "unbound"@ },
                None => "unbound"@,
            },
    {
        let k = index_of_action(*action);
        proof {
            lemma_action_index(*action);
        }
        let combos = match &self.overrides[k] {
            Some(v) => Some(v),
            None => match &self.defaults[k] {
                Some(v) => Some(v),
                None => None,
            },
        };
        match combos {
            Some(cs) => {
                if cs.len() > 0 {
                    format_combo(&cs[0])
                } else {
                    String::from_str("unbound")
                }
            },
            None => String::from_str("unbound"),
        }
    }
}

impl Default for KeybindRegistry {
    /// A registry holding the default key of every action and no configured keys.
    fn default() -> (r: Self)
        ensures
            r.wf(),
            forall|a: KeyAction| #[trigger] r.default_of(a) == Some(seq![default_combo(a)]),
            forall|a: KeyAction| #[trigger] r.override_of(a) is None,
    {
        let mut r = Self::new();
        r.populate_defaults();
        r
    }
}

} // verus!

//! The dialog that asks for a provider's API key: typing the key, submitting it, and the
//! progress of the connection.
use vstd::prelude::*;
use crate::keys::{KeyCode, KeyEvent};
use crate::providers::ProviderKind;
use crate::text::{pop_char, push_char, str_trim, trimmed};

verus! {

/// The progress of a connection attempt.
#[derive(Debug, Clone, PartialEq, Eq)]
pub enum ConnectStatus {
    Pending,
    Connecting,
    Success,
    Error(String),
}

/// What a key in the connection dialog asks of the caller.
#[derive(Debug)]
pub enum ConnectAction {
    Nothing,
    Close,
    Submit(String),
}

/// The narrowest the dialog is drawn.
pub const MIN_WIDTH: u16 = 48;

/// The dialog's height.
pub const MIN_HEIGHT: u16 = 8;

/// The dialog's width: the terminal less 20 columns, kept between 48 and 60.
pub fn dialog_width(term_width: u16) -> (w: u16)
    ensures
        w == (if term_width < 68 { MIN_WIDTH } else if term_width - 20 > 60 { 60 } else { (term_width - 20) as u16 }),
{
    let w = if term_width > 20 { term_width - 20 } else { 0 };
    if w < MIN_WIDTH {
        MIN_WIDTH
    } else if w > 60 {
        60
    } else {
        w
    }
}

/// The dialog's height, whatever the terminal's.
pub fn dialog_height(term_height: u16) -> (h: u16)
    ensures
        h == MIN_HEIGHT,
{
    MIN_HEIGHT
}

/// The connection dialog: the provider, the key typed so far, whether it is masked, and the
/// progress of the attempt.
#[derive(Debug, Clone)]
pub struct ConnectDialogState {
    pub open: bool,
    pub provider_name: String,
    pub provider_kind: ProviderKind,
    pub api_key_input: String,
    pub key_masked: bool,
    pub status: ConnectStatus,
}

impl ConnectDialogState {
    /// Closed, for no provider, with nothing typed.
    pub fn new() -> (s: Self)
        ensures
            !s.open,
            s.provider_name@.len() == 0,
            s.provider_kind == ProviderKind::Anthropic,
            s.api_key_input@.len() == 0,
            s.key_masked,
            s.status == ConnectStatus::Pending,
    {
        ConnectDialogState {
            open: false,
            provider_name: String::new(),
            provider_kind: ProviderKind::Anthropic,
            api_key_input: String::new(),
            key_masked: true,
            status: ConnectStatus::Pending,
        }
    }

    /// Opens the dialog for a provider, with nothing typed.
    pub fn open(&mut self, provider_name: String, kind: ProviderKind)
        ensures
            final(self).open,
            final(self).provider_name == provider_name,
            final(self).provider_kind == kind,
            final(self).api_key_input@.len() == 0,
            final(self).key_masked,
            final(self).status == ConnectStatus::Pending,
    {
        self.open = true;
        self.provider_name = provider_name;
        self.provider_kind = kind;
        self.api_key_input = String::new();
        self.key_masked = true;
        self.status = ConnectStatus::Pending;
    }

    /// Closes the dialog, forgetting the provider's name and the typed key.
    pub fn close(&mut self)
        ensures
            !final(self).open,
            final(self).provider_name@.len() == 0,
            final(self).api_key_input@.len() == 0,
            final(self).status == ConnectStatus::Pending,
            final(self).provider_kind == old(self).provider_kind,
            final(self).key_masked == old(self).key_masked,
    {
        self.open = false;
        self.provider_name = String::new();
        self.api_key_input = String::new();
        self.status = ConnectStatus::Pending;
    }

    /// Answers a key: Esc or Ctrl+C closes; Enter submits the trimmed key when it is not
    /// empty; Backspace and characters edit the key, clearing a reported error.
    pub fn handle_key(&mut self, key: KeyEvent) -> (r: ConnectAction)
        ensures
            key.code == KeyCode::Esc || key.is_ctrl_char('c') ==> r is Close && !final(self).open
                && final(self).provider_name@.len() == 0 && final(self).api_key_input@.len() == 0
                && final(self).status == ConnectStatus::Pending && final(self).provider_kind == old(self).provider_kind
                && final(self).key_masked == old(self).key_masked,
            key.code == KeyCode::Enter ==> (if trimmed(old(self).api_key_input@).len() == 0 {
                r is Nothing && *final(self) == *old(self)
            } else {
                r matches ConnectAction::Submit(k) && k@ == trimmed(old(self).api_key_input@)
                    && final(self).status == ConnectStatus::Connecting && final(self).open == old(self).open
                    && final(self).provider_name == old(self).provider_name
                    && final(self).provider_kind == old(self).provider_kind
                    && final(self).api_key_input == old(self).api_key_input
                    && final(self).key_masked == old(self).key_masked
            }),
            key.code == KeyCode::Backspace ==> r is Nothing && final(self).api_key_input@ == (if old(
                self,
            ).api_key_input@.len() > 0 {
                old(self).api_key_input@.drop_last()
            } else {
                old(self).api_key_input@
            }) && final(self).status == (if old(self).status is Error {
                ConnectStatus::Pending
            } else {
                old(self).status
            }) && final(self).open == old(self).open && final(self).provider_name == old(self).provider_name
                && final(self).provider_kind == old(self).provider_kind && final(self).key_masked == old(self).key_masked,
            (key.code matches KeyCode::Char(c) && !key.is_ctrl_char('c')) ==> r is Nothing
                && final(self).api_key_input@ == old(self).api_key_input@.push(key.code->Char_0)
                && final(self).status == (if old(self).status is Error {
                ConnectStatus::Pending
            } else {
                old(self).status
            }) && final(self).open == old(self).open && final(self).provider_name == old(self).provider_name
                && final(self).provider_kind == old(self).provider_kind && final(self).key_masked == old(self).key_masked,
            !(key.code matches KeyCode::Char(_)) && key.code != KeyCode::Esc && key.code != KeyCode::Enter
                && key.code != KeyCode::Backspace ==> r is Nothing && *final(self) == *old(self),
    {
        if key.code == KeyCode::Esc || (key.modifiers.bits == 2 && key.code == KeyCode::Char('c')) {
            self.close();
            return ConnectAction::Close;
        }
        match key.code {
            KeyCode::Enter => {
                let t = str_trim(self.api_key_input.as_str());
                if t.unicode_len() == 0 {
                    return ConnectAction::Nothing;
                }
                self.status = ConnectStatus::Connecting;
                ConnectAction::Submit(t)
            },
            KeyCode::Backspace => {
                pop_char(&mut self.api_key_input);
                if let ConnectStatus::Error(_) = self.status {
                    self.status = ConnectStatus::Pending;
                }
                ConnectAction::Nothing
            },
            KeyCode::Char(c) => {
                push_char(&mut self.api_key_input, c);
                if let ConnectStatus::Error(_) = self.status {
                    self.status = ConnectStatus::Pending;
                }
                ConnectAction::Nothing
            },
            _ => ConnectAction::Nothing,
        }
    }

    /// Records that the connection succeeded.
    pub fn mark_success(&mut self)
        ensures
            final(self).status == ConnectStatus::Success,
            final(self).open == old(self).open,
            final(self).api_key_input == old(self).api_key_input,
    {
        self.status = ConnectStatus::Success;
    }

    /// Records that the connection failed with `message`.
    pub fn mark_error(&mut self, message: String)
        ensures
            final(self).status == ConnectStatus::Error(message),
            final(self).open == old(self).open,
            final(self).api_key_input == old(self).api_key_input,
    {
        self.status = ConnectStatus::Error(message);
    }
}

impl Default for ConnectDialogState {
    fn default() -> (s: Self)
        ensures
            !s.open,
            s.api_key_input@.len() == 0,
            s.status == ConnectStatus::Pending,
    {
        Self::new()
    }
}

} // verus!

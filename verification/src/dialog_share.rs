//! The share dialog: sharing a session under a link, copying or withdrawing the link, and
//! choosing what the shared page includes.
use vstd::prelude::*;
use crate::frecency::now_millis;
use crate::keys::{KeyCode, KeyModifiers};
use crate::text::{copy_string, decimal, push_decimal, str_starts_with, has_prefix};

verus! {

/// Where shared sessions are published.
pub open spec fn share_base_url() -> Seq<char> {
    "https://icode.example.com/share"@
}

/// How a flag appears in a link.
pub open spec fn flag_text(b: bool) -> Seq<char> {
    if b { "true"@ } else { "false"@ }
}

/// The link of a share: the base, `/`, the share id, then which parts are included.
pub open spec fn share_link(share_id: Seq<char>, thinking: bool, tools: bool) -> Seq<char> {
    share_base_url() + "/"@ + share_id + "?thinking="@ + flag_text(thinking) + "&tools="@ + flag_text(tools)
}

/// What a key asks of the caller.
#[derive(Debug, Clone, Copy, PartialEq, Eq, Structural)]
pub enum ShareAction {
    Nothing,
    Close,
    Share,
    Copy,
    Unshare,
}

/// The labels of the dialog's buttons, in order.
pub fn button_labels() -> (r: [&'static str; 4])
    ensures
        r@[0]@ == "Share"@ && r@[1]@ == "Copy URL"@ && r@[2]@ == "Unshare"@ && r@[3]@ == "Close"@,
{
    ["Share", "Copy URL", "Unshare", "Close"]
}

/// The width of the dialog: half the terminal, at least 50, at most the terminal less 4.
pub fn dialog_width(term_width: u16) -> (w: u16)
    ensures
        w == ({
            let half: int = if term_width / 2 >= 50 { (term_width / 2) as int } else { 50 };
            let cap: int = if term_width >= 4 { term_width - 4 } else { 0 };
            (if half <= cap { half } else { cap }) as u16
        }),
{
    let half = if term_width / 2 >= 50 {
        term_width / 2
    } else {
        50
    };
    let cap = if term_width >= 4 {
        term_width - 4
    } else {
        0
    };
    if half <= cap {
        half
    } else {
        cap
    }
}

/// The height of the dialog.
pub fn dialog_height(term_height: u16) -> (h: u16)
    ensures
        h == 16,
{
    16
}

/// The state of the share dialog.
pub struct ShareDialogState {
    pub open: bool,
    pub is_shared: bool,
    pub share_id: Option<String>,
    pub share_url: Option<String>,
    pub include_thinking: bool,
    pub include_tool_details: bool,
    pub selected_button: usize,
    pub copied: bool,
}

/// The characters of an optional string.
pub open spec fn opt_view(o: Option<String>) -> Option<Seq<char>> {
    match o {
        Some(s) => Some(s@),
        None => None,
    }
}

/// The link of `s` after it was brought up to date: built from its share id and options
/// when it has an id, else as it was.
pub open spec fn url_updated(o: ShareDialogState, s: ShareDialogState) -> bool {
    match o.share_id {
        Some(id) => opt_view(s.share_url) == Some(share_link(id@, o.include_thinking, o.include_tool_details)),
        None => s.share_url == o.share_url,
    }
}

impl ShareDialogState {
    /// A closed, unshared dialog including thinking and tool details, on the first button.
    pub fn new() -> (s: Self)
        ensures
            !s.open && !s.is_shared && s.share_id is None && s.share_url is None,
            s.include_thinking && s.include_tool_details,
            s.selected_button == 0 && !s.copied,
    {
        ShareDialogState {
            open: false,
            is_shared: false,
            share_id: None,
            share_url: None,
            include_thinking: true,
            include_tool_details: true,
            selected_button: 0,
            copied: false,
        }
    }

    /// Opens the dialog for session `session_id`: a share of another session is forgotten.
    pub fn open(&mut self, session_id: &str)
        ensures
            final(self).open && !final(self).copied,
            ({
                let forget = !old(self).is_shared || (old(self).share_id matches Some(sid)
                    && !has_prefix(sid@, session_id@));
                &&& forget ==> !final(self).is_shared && final(self).share_id is None
                    && final(self).share_url is None
                &&& !forget ==> final(self).is_shared == old(self).is_shared && final(self).share_id
                    == old(self).share_id && final(self).share_url == old(self).share_url
            }),
            final(self).include_thinking == old(self).include_thinking,
            final(self).include_tool_details == old(self).include_tool_details,
            final(self).selected_button == old(self).selected_button,
    {
        self.open = true;
        self.copied = false;
        if !self.is_shared {
            self.share_id = None;
            self.share_url = None;
        }
        let forget = match &self.share_id {
            Some(sid) => !str_starts_with(sid.as_str(), session_id),
            None => false,
        };
        if forget {
            self.is_shared = false;
            self.share_id = None;
            self.share_url = None;
        }
    }

    /// Closes the dialog.
    pub fn close(&mut self)
        ensures
            *final(self) == (ShareDialogState { open: false, ..*old(self) }),
    {
        self.open = false;
    }

    /// Shares session `session_id` at time `timestamp` (milliseconds): the share id is the
    /// session id, `-` and the time, and the link is built from it.
    pub fn share_at(&mut self, session_id: &str, timestamp: u128)
        ensures
            final(self).is_shared,
            opt_view(final(self).share_id) == Some(session_id@ + "-"@ + decimal(timestamp as nat)),
            opt_view(final(self).share_url) == Some(
                share_link(
                    session_id@ + "-"@ + decimal(timestamp as nat),
                    old(self).include_thinking,
                    old(self).include_tool_details,
                ),
            ),
            final(self).include_thinking == old(self).include_thinking,
            final(self).include_tool_details == old(self).include_tool_details,
            final(self).open == old(self).open && final(self).copied == old(self).copied,
    {
        let mut id = String::from_str(session_id);
        id.append("-");
        push_decimal(&mut id, timestamp);
        self.share_id = Some(id);
        self.is_shared = true;
        self.update_url();
    }

    /// Shares session `session_id` now (see `share_at`).
    pub fn share(&mut self, session_id: &str)
        ensures
            final(self).is_shared,
            exists|t: u128|
                opt_view(final(self).share_id) == Some(session_id@ + "-"@ + #[trigger] decimal(t as nat))
                    && opt_view(final(self).share_url) == Some(
                    share_link(
                        session_id@ + "-"@ + decimal(t as nat),
                        old(self).include_thinking,
                        old(self).include_tool_details,
                    ),
                ),
            final(self).include_thinking == old(self).include_thinking,
            final(self).include_tool_details == old(self).include_tool_details,
    {
        let now = now_millis();
        self.share_at(session_id, now);
    }

    /// Withdraws the share.
    pub fn unshare(&mut self)
        ensures
            !final(self).is_shared && final(self).share_id is None && final(self).share_url is None,
            !final(self).copied,
            final(self).open == old(self).open,
            final(self).include_thinking == old(self).include_thinking,
            final(self).include_tool_details == old(self).include_tool_details,
    {
        self.is_shared = false;
        self.share_id = None;
        self.share_url = None;
        self.copied = false;
    }

    /// The link, if shared.
    pub fn get_url(&self) -> (r: Option<String>)
        ensures
            opt_view(r) == opt_view(self.share_url),
    {
        match &self.share_url {
            Some(u) => Some(copy_string(u)),
            None => None,
        }
    }

    fn update_url(&mut self)
        ensures
            url_updated(*old(self), *final(self)),
            final(self).share_id == old(self).share_id && final(self).is_shared == old(self).is_shared,
            final(self).include_thinking == old(self).include_thinking,
            final(self).include_tool_details == old(self).include_tool_details,
            final(self).open == old(self).open && final(self).copied == old(self).copied,
    {
        match &self.share_id {
            Some(share_id) => {
                let mut url = String::from_str("https://icode.example.com/share");
                url.append("/");
                url.append(share_id.as_str());
                url.append("?thinking=");
                url.append(if self.include_thinking { "true" } else { "false" });
                url.append("&tools=");
                url.append(if self.include_tool_details { "true" } else { "false" });
                self.share_url = Some(url);
            },
            None => {},
        }
    }

    /// Marks the link as copied and gives it.
    pub fn copy_url(&mut self) -> (r: Option<String>)
        ensures
            final(self).copied,
            opt_view(r) == opt_view(old(self).share_url),
            final(self).share_url == old(self).share_url && final(self).is_shared == old(self).is_shared,
    {
        self.copied = true;
        self.get_url()
    }

    /// Includes or leaves out the thinking; a shared link is rebuilt.
    pub fn toggle_thinking(&mut self)
        ensures
            final(self).include_thinking == !old(self).include_thinking,
            final(self).include_tool_details == old(self).include_tool_details,
            old(self).is_shared ==> url_updated(
                ShareDialogState { include_thinking: !old(self).include_thinking, ..*old(self) },
                *final(self),
            ),
            !old(self).is_shared ==> final(self).share_url == old(self).share_url,
            final(self).share_id == old(self).share_id && final(self).is_shared == old(self).is_shared,
    {
        self.include_thinking = !self.include_thinking;
        if self.is_shared {
            self.update_url();
        }
    }

    /// Includes or leaves out the tool details; a shared link is rebuilt.
    pub fn toggle_tool_details(&mut self)
        ensures
            final(self).include_tool_details == !old(self).include_tool_details,
            final(self).include_thinking == old(self).include_thinking,
            old(self).is_shared ==> url_updated(
                ShareDialogState { include_tool_details: !old(self).include_tool_details, ..*old(self) },
                *final(self),
            ),
            !old(self).is_shared ==> final(self).share_url == old(self).share_url,
            final(self).share_id == old(self).share_id && final(self).is_shared == old(self).is_shared,
    {
        self.include_tool_details = !self.include_tool_details;
        if self.is_shared {
            self.update_url();
        }
    }

    /// Handles a key: Esc closes; Enter asks for the selected button's action; Left and
    /// Right move between the three buttons. Any key clears the copied mark.
    pub fn handle_key(&mut self, key: KeyCode, modifiers: KeyModifiers) -> (a: ShareAction)
        ensures
            !final(self).copied,
            key == KeyCode::Esc ==> a == ShareAction::Close && !final(self).open,
            key == KeyCode::Enter ==> a == match old(self).selected_button {
                0 => ShareAction::Share,
                1 => ShareAction::Copy,
                2 => ShareAction::Unshare,
                _ => ShareAction::Close,
            } && final(self).open == old(self).open,
            key == KeyCode::Left ==> a == ShareAction::Nothing && final(self).selected_button == if old(
                self,
            ).selected_button > 0 {
                (old(self).selected_button - 1) as usize
            } else {
                0
            },
            key == KeyCode::Right ==> a == ShareAction::Nothing && final(self).selected_button == if old(
                self,
            ).selected_button < 2 {
                (old(self).selected_button + 1) as usize
            } else {
                old(self).selected_button
            },
            key != KeyCode::Esc && key != KeyCode::Enter && key != KeyCode::Left && key
                != KeyCode::Right ==> a == ShareAction::Nothing && final(self).open == old(self).open,
            key != KeyCode::Left && key != KeyCode::Right ==> final(self).selected_button == old(
                self,
            ).selected_button,
            final(self).is_shared == old(self).is_shared && final(self).share_url == old(self).share_url,
    {
        self.copied = false;
        match key {
            KeyCode::Esc => {
                self.close();
                ShareAction::Close
            },
            KeyCode::Enter => match self.selected_button {
                0 => ShareAction::Share,
                1 => ShareAction::Copy,
                2 => ShareAction::Unshare,
                _ => ShareAction::Close,
            },
            KeyCode::Left => {
                if self.selected_button > 0 {
                    self.selected_button = self.selected_button - 1;
                }
                ShareAction::Nothing
            },
            KeyCode::Right => {
                if self.selected_button < 2 {
                    self.selected_button = self.selected_button + 1;
                }
                ShareAction::Nothing
            },
            _ => ShareAction::Nothing,
        }
    }

    /// Toggles option `option_idx`: 0 the thinking, 1 the tool details.
    pub fn toggle_option(&mut self, option_idx: usize)
        ensures
            option_idx == 0 ==> final(self).include_thinking == !old(self).include_thinking
                && final(self).include_tool_details == old(self).include_tool_details,
            option_idx == 1 ==> final(self).include_tool_details == !old(self).include_tool_details
                && final(self).include_thinking == old(self).include_thinking,
            option_idx > 1 ==> *final(self) == *old(self),
            option_idx <= 1 && old(self).is_shared ==> url_updated(
                ShareDialogState {
                    include_thinking: final(self).include_thinking,
                    include_tool_details: final(self).include_tool_details,
                    ..*old(self)
                },
                *final(self),
            ),
    {
        match option_idx {
            0 => self.toggle_thinking(),
            1 => self.toggle_tool_details(),
            _ => {},
        }
    }
}

} // verus!

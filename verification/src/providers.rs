//! The provider dialog: the providers with their connection state and models, searching
//! them by name, and what a key asks of the caller (toggle, docs, connect with a key).
//! Finding out which providers have credentials is left to the caller.
use vstd::prelude::*;
use crate::connect::{ConnectAction, ConnectDialogState};
use crate::keys::{KeyCode, KeyEvent};
use crate::dialog_view::{shown_count, view_frame, view_scroll, view_scroll_offset, row_model, DialogView, RowModel, ViewModel, ViewRow, ViewTone};
use crate::text::{concat, concat3, decimal, push_decimal, contains_seq, copy_string, lowercase_of, pop_char, push_char, str_contains, to_lowercase, views};

verus! {

/// The kind of a model provider.
#[derive(Debug, Clone, Copy, PartialEq, Eq, Hash, Structural)]
pub enum ProviderKind {
    Anthropic,
    OpenAi,
    Xai,
    QwenProxy,
    Azure,
    Gemini,
    Bedrock,
    OpenRouter,
    Mistral,
    Groq,
    Unconfigured,
}

/// The state of a provider connection.
#[derive(Debug, Clone, Copy, PartialEq, Eq, Structural)]
pub enum ProviderStatus {
    Connected,
    Disconnected,
    Error,
}

/// The mark shown for a provider: a tick when connected, a circle when not, a cross on error.
pub fn status_icon(status: &ProviderStatus) -> (r: &'static str)
    ensures
        r@ == match *status {
            ProviderStatus::Connected => "\u{2713}"@,
            ProviderStatus::Disconnected => "\u{25cb}"@,
            ProviderStatus::Error => "\u{2717}"@,
        },
{
    match status {
        ProviderStatus::Connected => "\u{2713}",
        ProviderStatus::Disconnected => "\u{25cb}",
        ProviderStatus::Error => "\u{2717}",
    }
}

/// The narrowest the dialog is drawn.
pub const MIN_WIDTH: u16 = 56;

/// The lowest the dialog is drawn.
pub const MIN_HEIGHT: u16 = 14;

/// The dialog's width: 80 from 128 columns, 72 from 96, else 56.
pub fn dialog_width(term_width: u16) -> (w: u16)
    ensures
        w == (if term_width >= 128 { 80 } else if term_width >= 96 { 72 } else { MIN_WIDTH }),
{
    if term_width >= 128 {
        80
    } else if term_width >= 96 {
        72
    } else {
        MIN_WIDTH
    }
}

/// The dialog's height: half the terminal less 6 rows, at least 14.
pub fn dialog_height(term_height: u16) -> (h: u16)
    ensures
        h == (if term_height / 2 < 6 + MIN_HEIGHT { MIN_HEIGHT } else { (term_height / 2 - 6) as u16 }),
{
    let half = term_height / 2;
    let h = if half > 6 { half - 6 } else { 0 };
    if h < MIN_HEIGHT {
        MIN_HEIGHT
    } else {
        h
    }
}

/// A provider as listed: its name, kind, connection state, whether it has credentials, and
/// its models.
#[derive(Debug, Clone)]
pub struct ProviderEntry {
    pub name: String,
    pub kind: ProviderKind,
    pub status: ProviderStatus,
    pub configured: bool,
    pub models: Vec<String>,
}

/// Whether a provider has credentials, as found by the caller.
#[derive(Debug, Clone)]
pub struct ProviderAuth {
    pub display_name: String,
    pub kind: ProviderKind,
    pub has_auth: bool,
}

/// The models of kind `k`, in the order listed.
pub open spec fn models_of(models: Seq<(ProviderKind, Seq<char>)>, k: ProviderKind) -> Seq<Seq<char>>
    decreases models.len(),
{
    if models.len() == 0 {
        Seq::empty()
    } else {
        let rest = models_of(models.drop_last(), k);
        if models.last().0 == k {
            rest.push(models.last().1)
        } else {
            rest
        }
    }
}

/// The plain values of listed models.
pub open spec fn model_views(v: Seq<(ProviderKind, String)>) -> Seq<(ProviderKind, Seq<char>)> {
    v.map_values(|m: (ProviderKind, String)| (m.0, m.1@))
}

fn models_for(models: &Vec<(ProviderKind, String)>, k: ProviderKind) -> (r: Vec<String>)
    ensures
        views(r@) == models_of(model_views(models@), k),
{
    let ghost ms = model_views(models@);
    let mut r: Vec<String> = Vec::new();
    let mut i: usize = 0;
    while i < models.len()
        invariant
            i <= models@.len(),
            ms == model_views(models@),
            views(r@) == models_of(ms.take(i as int), k),
        decreases models@.len() - i,
    {
        assert(ms.take(i + 1).drop_last() =~= ms.take(i as int));
        assert(ms.take(i + 1).last() == (models@[i as int].0, models@[i as int].1@));
        if models[i].0 == k {
            let ghost before = r@;
            r.push(copy_string(&models[i].1));
            assert(views(r@) =~= views(before).push(models@[i as int].1@));
        }
        i = i + 1;
    }
    assert(ms.take(models@.len() as int) =~= ms);
    r
}

/// The providers listed for the credentials found: one entry per provider, connected when
/// it has credentials, with the models of its kind.
pub fn detect_providers(auth: Vec<ProviderAuth>, models: &Vec<(ProviderKind, String)>) -> (r: Vec<ProviderEntry>)
    ensures
        r@.len() == auth@.len(),
        forall|i: int| 0 <= i < r@.len() ==> {
            &&& (#[trigger] r@[i]).name@ == auth@[i].display_name@
            &&& r@[i].kind == auth@[i].kind
            &&& r@[i].configured == auth@[i].has_auth
            &&& r@[i].status == (if auth@[i].has_auth { ProviderStatus::Connected } else { ProviderStatus::Disconnected })
            &&& views(r@[i].models@) == models_of(model_views(models@), auth@[i].kind)
        },
{
    let mut r: Vec<ProviderEntry> = Vec::new();
    let mut i: usize = 0;
    while i < auth.len()
        invariant
            i <= auth@.len(),
            r@.len() == i,
            forall|j: int| 0 <= j < i ==> {
                &&& (#[trigger] r@[j]).name@ == auth@[j].display_name@
                &&& r@[j].kind == auth@[j].kind
                &&& r@[j].configured == auth@[j].has_auth
                &&& r@[j].status == (if auth@[j].has_auth { ProviderStatus::Connected } else { ProviderStatus::Disconnected })
                &&& views(r@[j].models@) == models_of(model_views(models@), auth@[j].kind)
            },
        decreases auth@.len() - i,
    {
        let a = &auth[i];
        let entry = ProviderEntry {
            name: copy_string(&a.display_name),
            kind: a.kind,
            status: if a.has_auth { ProviderStatus::Connected } else { ProviderStatus::Disconnected },
            configured: a.has_auth,
            models: models_for(models, a.kind),
        };
        r.push(entry);
        i = i + 1;
    }
    r
}

/// What a key in the provider dialog asks of the caller.
#[derive(Debug)]
pub enum ProviderAction {
    Nothing,
    Close,
    Toggle(usize),
    ViewDocs(usize),
    ConnectProvider(ProviderKind, String, String),
}

/// The plain values of the providers' names.
pub open spec fn provider_names(ps: Seq<ProviderEntry>) -> Seq<Seq<char>> {
    ps.map_values(|p: ProviderEntry| p.name@)
}

/// The providers shown for `search`: all when it is empty, else those whose lower-cased
/// name contains the lower-cased search, as indices in order.
pub open spec fn filter_matches(names: Seq<Seq<char>>, search: Seq<char>) -> Seq<usize>
    decreases names.len(),
{
    if names.len() == 0 {
        Seq::empty()
    } else {
        let rest = filter_matches(names.drop_last(), search);
        if search.len() == 0 || contains_seq(lowercase_of(names.last()), lowercase_of(search)) {
            rest.push((names.len() - 1) as usize)
        } else {
            rest
        }
    }
}

/// The index of the last row of `n` rows (0 when there are none).
pub open spec fn last_row(n: nat) -> nat {
    if n == 0 {
        0
    } else {
        (n - 1) as nat
    }
}

/// The provider dialog.
#[derive(Debug, Clone)]
pub struct ProviderDialogState {
    pub open: bool,
    pub providers: Vec<ProviderEntry>,
    pub selected: usize,
    pub scroll_offset: usize,
    pub search: String,
    pub filtered: Vec<usize>,
    pub connect_dialog: ConnectDialogState,
}

impl ProviderDialogState {
    /// Every shown row stands for a listed provider.
    pub open spec fn wf(&self) -> bool {
        forall|i: int| 0 <= i < self.filtered@.len() ==> #[trigger] self.filtered@[i] < self.providers@.len()
    }

    /// A closed dialog listing `providers`, nothing shown yet.
    pub fn new(providers: Vec<ProviderEntry>) -> (s: Self)
        ensures
            !s.open,
            s.providers == providers,
            s.selected == 0 && s.scroll_offset == 0,
            s.search@.len() == 0,
            s.filtered@.len() == 0,
            !s.connect_dialog.open,
            s.wf(),
    {
        ProviderDialogState {
            open: false,
            providers,
            selected: 0,
            scroll_offset: 0,
            search: String::new(),
            filtered: Vec::new(),
            connect_dialog: ConnectDialogState::new(),
        }
    }

    /// Opens the dialog on `providers`, all shown, the first selected.
    pub fn open(&mut self, providers: Vec<ProviderEntry>)
        ensures
            final(self).open,
            final(self).providers == providers,
            final(self).selected == 0 && final(self).scroll_offset == 0,
            final(self).search@.len() == 0,
            final(self).filtered@ == filter_matches(provider_names(providers@), Seq::empty()),
            final(self).connect_dialog == old(self).connect_dialog,
            final(self).wf(),
    {
        self.open = true;
        self.selected = 0;
        self.scroll_offset = 0;
        self.search = String::new();
        self.providers = providers;
        self.apply_filter();
    }

    /// Closes the dialog and the connection dialog.
    pub fn close(&mut self)
        ensures
            !final(self).open,
            !final(self).connect_dialog.open,
            final(self).providers == old(self).providers,
            final(self).filtered == old(self).filtered,
            final(self).selected == old(self).selected,
            final(self).search == old(self).search,
    {
        self.open = false;
        self.connect_dialog.close();
    }

    /// Shows the providers matching the search (see `filter_matches`), keeping the selection
    /// on a shown row.
    pub fn apply_filter(&mut self)
        ensures
            final(self).filtered@ == filter_matches(provider_names(old(self).providers@), old(self).search@),
            final(self).selected == (if old(self).selected < last_row(final(self).filtered@.len()) {
                old(self).selected
            } else {
                last_row(final(self).filtered@.len()) as usize
            }),
            final(self).providers == old(self).providers,
            final(self).search == old(self).search,
            final(self).open == old(self).open,
            final(self).connect_dialog == old(self).connect_dialog,
            final(self).scroll_offset == old(self).scroll_offset,
            final(self).wf(),
    {
        let ghost names = provider_names(self.providers@);
        let lower_search = to_lowercase(self.search.as_str());
        let empty = self.search.unicode_len() == 0;
        let mut filtered: Vec<usize> = Vec::new();
        let mut i: usize = 0;
        while i < self.providers.len()
            invariant
                i <= self.providers@.len(),
                names == provider_names(self.providers@),
                lower_search@ == lowercase_of(self.search@),
                empty == (self.search@.len() == 0),
                filtered@ == filter_matches(names.take(i as int), self.search@),
                forall|j: int| 0 <= j < filtered@.len() ==> #[trigger] filtered@[j] < i,
            decreases self.providers@.len() - i,
        {
            assert(names.take(i + 1).drop_last() =~= names.take(i as int));
            assert(names.take(i + 1).last() == self.providers@[i as int].name@);
            let keep = if empty {
                true
            } else {
                let lower_name = to_lowercase(self.providers[i].name.as_str());
                str_contains(lower_name.as_str(), lower_search.as_str())
            };
            if keep {
                filtered.push(i);
            }
            i = i + 1;
        }
        assert(names.take(self.providers@.len() as int) =~= names);
        let last = if filtered.len() > 0 { filtered.len() - 1 } else { 0 };
        self.filtered = filtered;
        if self.selected > last {
            self.selected = last;
        }
    }

    /// Answers a key. While the connection dialog is open it gets the key: a submitted key
    /// asks to connect its provider; closing it closes it. Otherwise: Esc or Ctrl+C closes;
    /// Enter toggles a provider with credentials or opens the connection dialog for one
    /// without; arrows and page keys move the selection; `/` clears the search; Backspace
    /// and characters edit it; `d` asks for the selected provider's docs.
    pub fn handle_key(&mut self, key: KeyEvent) -> (r: ProviderAction)
        requires
            old(self).wf(),
            old(self).selected <= usize::MAX - 10,
        ensures
            final(self).wf(),
            final(self).providers == old(self).providers,
            old(self).connect_dialog.open ==> match r {
                ProviderAction::ConnectProvider(k, name, api_key) => k == old(self).connect_dialog.provider_kind
                    && name@ == old(self).connect_dialog.provider_name@
                    && (key.code == KeyCode::Enter && api_key@ == crate::text::trimmed(old(self).connect_dialog.api_key_input@)),
                ProviderAction::Nothing => final(self).filtered == old(self).filtered && final(self).selected == old(self).selected,
                _ => false,
            },
            !old(self).connect_dialog.open ==> {
                let n = old(self).filtered@.len();
                let sel = old(self).selected;
                if key.code == KeyCode::Esc || key.is_ctrl_char('c') {
                    r is Close && !final(self).open && !final(self).connect_dialog.open
                } else {
                    match key.code {
                        KeyCode::Enter => if sel < n {
                            let idx = old(self).filtered@[sel as int];
                            let p = old(self).providers@[idx as int];
                            if p.configured {
                                r == ProviderAction::Toggle(idx) && *final(self) == *old(self)
                            } else {
                                r is Nothing && final(self).connect_dialog.open
                                    && final(self).connect_dialog.provider_name@ == p.name@
                                    && final(self).connect_dialog.provider_kind == p.kind
                                    && final(self).connect_dialog.api_key_input@.len() == 0
                                    && final(self).selected == sel && final(self).filtered == old(self).filtered
                            }
                        } else {
                            r is Nothing && *final(self) == *old(self)
                        },
                        KeyCode::Up => r is Nothing && final(self).selected == (if sel > 0 { (sel - 1) as usize } else { sel })
                            && final(self).filtered == old(self).filtered,
                        KeyCode::Down => r is Nothing && final(self).selected == (if sel < last_row(n) { (sel + 1) as usize } else { sel })
                            && final(self).filtered == old(self).filtered,
                        KeyCode::PageUp => r is Nothing && final(self).selected == (if sel >= 10 { (sel - 10) as usize } else { 0 })
                            && final(self).filtered == old(self).filtered,
                        KeyCode::PageDown => r is Nothing && final(self).selected == (if sel + 10 < last_row(n) { (sel + 10) as usize } else { last_row(n) as usize })
                            && final(self).filtered == old(self).filtered,
                        KeyCode::Backspace => r is Nothing && (if old(self).search@.len() > 0 {
                            final(self).search@ == old(self).search@.drop_last()
                                && final(self).filtered@ == filter_matches(provider_names(old(self).providers@), final(self).search@)
                                && final(self).selected == 0
                        } else {
                            *final(self) == *old(self)
                        }),
                        KeyCode::Char(c) => if c == '/' {
                            r is Nothing && final(self).search@.len() == 0 && final(self).filtered == old(self).filtered
                                && final(self).selected == sel
                        } else if c == 'd' {
                            (if sel < n { r == ProviderAction::ViewDocs(old(self).filtered@[sel as int]) } else { r is Nothing })
                                && *final(self) == *old(self)
                        } else {
                            r is Nothing && final(self).search@ == old(self).search@.push(c)
                                && final(self).filtered@ == filter_matches(provider_names(old(self).providers@), final(self).search@)
                                && final(self).selected == 0
                        },
                        _ => r is Nothing && *final(self) == *old(self),
                    }
                }
            },
    {
        if self.connect_dialog.open {
            match self.connect_dialog.handle_key(key) {
                ConnectAction::Submit(api_key) => {
                    let kind = self.connect_dialog.provider_kind;
                    let display = copy_string(&self.connect_dialog.provider_name);
                    return ProviderAction::ConnectProvider(kind, display, api_key);
                },
                ConnectAction::Close => {
                    self.connect_dialog.close();
                    return ProviderAction::Nothing;
                },
                ConnectAction::Nothing => return ProviderAction::Nothing,
            }
        }
        if key.code == KeyCode::Esc || (key.modifiers.bits == 2 && key.code == KeyCode::Char('c')) {
            self.close();
            return ProviderAction::Close;
        }
        let n = self.filtered.len();
        let last = if n > 0 { n - 1 } else { 0 };
        match key.code {
            KeyCode::Enter => {
                if self.selected < n {
                    let idx = self.filtered[self.selected];
                    if self.providers[idx].configured {
                        ProviderAction::Toggle(idx)
                    } else {
                        let name = copy_string(&self.providers[idx].name);
                        let kind = self.providers[idx].kind;
                        self.connect_dialog.open(name, kind);
                        ProviderAction::Nothing
                    }
                } else {
                    ProviderAction::Nothing
                }
            },
            KeyCode::Up => {
                if self.selected > 0 {
                    self.selected = self.selected - 1;
                }
                ProviderAction::Nothing
            },
            KeyCode::Down => {
                if self.selected < last {
                    self.selected = self.selected + 1;
                }
                ProviderAction::Nothing
            },
            KeyCode::PageUp => {
                self.selected = if self.selected >= 10 { self.selected - 10 } else { 0 };
                ProviderAction::Nothing
            },
            KeyCode::PageDown => {
                let target = self.selected + 10;
                self.selected = if target < last { target } else { last };
                ProviderAction::Nothing
            },
            KeyCode::Backspace => {
                if self.search.unicode_len() > 0 {
                    pop_char(&mut self.search);
                    self.selected = 0;
                    self.apply_filter();
                }
                ProviderAction::Nothing
            },
            KeyCode::Char(c) => {
                if c == '/' {
                    self.search = String::new();
                    ProviderAction::Nothing
                } else if c == 'd' {
                    if self.selected < n {
                        ProviderAction::ViewDocs(self.filtered[self.selected])
                    } else {
                        ProviderAction::Nothing
                    }
                } else {
                    push_char(&mut self.search, c);
                    self.selected = 0;
                    self.apply_filter();
                    ProviderAction::Nothing
                }
            },
            _ => ProviderAction::Nothing,
        }
    }

    /// Replaces the listed providers and shows those matching the search.
    pub fn refresh_providers(&mut self, providers: Vec<ProviderEntry>)
        ensures
            final(self).providers == providers,
            final(self).filtered@ == filter_matches(provider_names(providers@), old(self).search@),
            final(self).search == old(self).search,
            final(self).wf(),
    {
        self.providers = providers;
        self.apply_filter();
    }
}

/// The first row shown in a list of `visible_lines` rows so that the selection stays in
/// view: it scrolls up to the selection, or down until the selection is on the last row.
pub fn compute_scroll_offset(state: &ProviderDialogState, visible_lines: usize) -> (r: usize)
    requires
        state.scroll_offset + visible_lines <= usize::MAX,
    ensures
        r == (if state.selected < state.scroll_offset {
            state.selected
        } else if visible_lines > 0 && state.selected >= state.scroll_offset + visible_lines - 1 {
            (state.selected - (visible_lines - 1)) as usize
        } else {
            state.scroll_offset
        }),
{
    let pos = state.selected;
    if pos < state.scroll_offset {
        return pos;
    }
    let vis = if visible_lines > 0 { visible_lines - 1 } else { 0 };
    let end = state.scroll_offset + vis;
    if pos >= end && visible_lines > 0 {
        return pos - vis;
    }
    state.scroll_offset
}


// ---------------------------------------------------------------------------
// What the dialog shows
// ---------------------------------------------------------------------------

/// The icon of a status (see `status_icon`).
pub open spec fn status_icon_of(st: ProviderStatus) -> Seq<char> {
    match st {
        ProviderStatus::Connected => "\u{2713}"@,
        ProviderStatus::Disconnected => "\u{25cb}"@,
        ProviderStatus::Error => "\u{2717}"@,
    }
}

/// Row `r` shows listed provider `i`: its status icon and name, whether it is configured, and
/// how many models it offers.
pub open spec fn provider_row(s: ProviderDialogState, i: int, r: RowModel) -> bool {
    let p = s.providers@[s.filtered@[i] as int];
    &&& r.index == i && r.heading is None && r.selected == (i == s.selected) && !r.warning
    &&& r.label == status_icon_of(p.status) + " "@ + p.name@
    &&& r.detail == " ("@ + (if p.configured { "configured"@ } else { "connect"@ }) + ") "@
        + decimal(p.models@.len()) + " models"@
    &&& r.trailing.len() == 0
}

/// `v` is what the dialog shows with room for `rows` rows: its title, the search line, the
/// hint and the footer (the number listed); while a connection is being set up, no list (that
/// dialog is shown instead); with nothing listed, a note; otherwise the rows in view from the
/// position that keeps the selection in view.
pub open spec fn provider_view(s: ProviderDialogState, rows: usize, v: ViewModel) -> bool {
    let len = s.filtered@.len();
    &&& v.title == " Provider Connections "@
    &&& (v.input, v.input_tone) == (if s.search@.len() == 0 { ("Type to search..."@, ViewTone::Muted) } else {
        ("> "@ + s.search@, ViewTone::Normal)
    })
    &&& v.hint == (if s.connect_dialog.open { "Connect to provider..."@ } else {
        "Enter: connect  \u{2022}  d: docs  \u{2022}  /: search  \u{2022}  Esc: close"@
    })
    &&& v.footer == " "@ + decimal(len as nat) + " provider(s) "@
    &&& if s.connect_dialog.open || len == 0 {
        &&& v.empty == (if s.connect_dialog.open { None } else { Some("No providers match search"@) })
        &&& v.rows.len() == 0
        &&& v.scroll_offset == s.scroll_offset
    } else {
        &&& v.empty is None
        &&& v.scroll_offset == view_scroll(s.selected, s.scroll_offset, rows)
        &&& v.rows.len() == shown_count(v.scroll_offset, rows, len)
        &&& forall|k: int| 0 <= k < v.rows.len() ==> provider_row(s, v.scroll_offset + k, #[trigger] v.rows[k])
    }
}

/// What the provider dialog shows with room for `rows` rows (see `provider_view`). The caller
/// keeps the scroll position shown.
pub fn provider_dialog_view(s: &ProviderDialogState, rows: usize) -> (v: DialogView)
    requires
        s.wf(),
    ensures
        provider_view(*s, rows, v.model()),
{
    let input = if s.search.unicode_len() == 0 {
        (String::from_str("Type to search..."), ViewTone::Muted)
    } else {
        (concat("> ", s.search.as_str()), ViewTone::Normal)
    };
    let len = s.filtered.len();
    let mut footer = String::from_str(" ");
    push_decimal(&mut footer, len as u128);
    footer.append(" provider(s) ");
    let hint = if s.connect_dialog.open {
        "Connect to provider..."
    } else {
        "Enter: connect  \u{2022}  d: docs  \u{2022}  /: search  \u{2022}  Esc: close"
    };
    let mut v = view_frame(" Provider Connections ", input.0, input.1, hint, footer);
    if s.connect_dialog.open || len == 0 {
        if !s.connect_dialog.open {
            v.empty = Some(String::from_str("No providers match search"));
        }
        v.scroll_offset = s.scroll_offset;
        return v;
    }
    let off = view_scroll_offset(s.selected, s.scroll_offset, rows);
    v.scroll_offset = off;
    let mut i = off;
    while i < len && i - off < rows
        invariant
            s.wf(),
            len == s.filtered@.len(),
            off <= i,
            i - off <= rows,
            off >= len ==> i == off,
            off < len ==> i <= len,
            v.model().rows.len() == i - off,
            v.scroll_offset == off,
            off == view_scroll(s.selected, s.scroll_offset, rows),
            v.model().title == " Provider Connections "@,
            (v.model().input, v.model().input_tone) == (if s.search@.len() == 0 { ("Type to search..."@, ViewTone::Muted) } else {
                ("> "@ + s.search@, ViewTone::Normal)
            }),
            v.model().hint == "Enter: connect  \u{2022}  d: docs  \u{2022}  /: search  \u{2022}  Esc: close"@,
            !s.connect_dialog.open,
            v.model().footer == " "@ + decimal(len as nat) + " provider(s) "@,
            v.model().empty is None,
            forall|k: int| 0 <= k < v.model().rows.len() ==> provider_row(*s, off + k, #[trigger] v.model().rows[k]),
        decreases len - i,
    {
        let p = &s.providers[s.filtered[i]];
        let label = concat3(status_icon(&p.status), " ", p.name.as_str());
        let mut detail = concat3(" (", if p.configured { "configured" } else { "connect" }, ") ");
        push_decimal(&mut detail, p.models.len() as u128);
        detail.append(" models");
        let row = ViewRow { index: i, heading: None, label, detail, trailing: String::new(), selected: i == s.selected, warning: false };
        let ghost before = v.model().rows;
        v.rows.push(row);
        assert(v.model().rows =~= before.push(row_model(row)));
        i = i + 1;
    }
    proof {
        if off >= len {
            assert(i == off);
        } else if i == len {
            assert(len - off <= rows);
        } else {
            assert(i - off == rows);
        }
    }
    v
}

} // verus!

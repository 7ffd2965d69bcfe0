//! The export options dialog: which parts of a conversation to export, in which format, to
//! which file. The keys are interpreted over a plain model of the dialog (`ExportModel`).
use vstd::prelude::*;
use crate::frecency::now_millis;
use crate::keys::{is_ctrl_char, KeyCode, KeyEvent, KeyModifiers};
use crate::text::{chars_of, decimal, pop_char, push_char, push_decimal, string_of_range};

verus! {

/// The number of options that can be ticked.
pub const OPTION_COUNT: usize = 4;

/// The label of option `i`.
pub open spec fn option_label(i: int) -> Seq<char> {
    if i == 0 {
        "Include thinking content"@
    } else if i == 1 {
        "Include tool call details"@
    } else if i == 2 {
        "Include session metadata"@
    } else {
        "Include timestamps"@
    }
}

/// The labels of the options, in display order.
pub fn option_labels() -> (r: Vec<&'static str>)
    ensures
        r@.len() == OPTION_COUNT,
        forall|i: int| 0 <= i < 4 ==> #[trigger] r@[i]@ == option_label(i),
{
    let mut r: Vec<&'static str> = Vec::new();
    r.push("Include thinking content");
    r.push("Include tool call details");
    r.push("Include session metadata");
    r.push("Include timestamps");
    r
}

/// The label of format `i`; an unknown format reads as the first.
pub open spec fn format_label(i: usize) -> Seq<char> {
    if i == 1 {
        "Markdown (.md)"@
    } else if i == 2 {
        "JSON (.json)"@
    } else {
        "Plain text (.txt)"@
    }
}

/// The file extension of format `i`.
pub open spec fn format_ext(i: usize) -> Seq<char> {
    if i == 1 {
        ".md"@
    } else if i == 2 {
        ".json"@
    } else {
        ".txt"@
    }
}

/// The position of the last `.` in `s`.
pub open spec fn last_dot(s: Seq<char>) -> Option<int>
    decreases s.len(),
{
    if s.len() == 0 {
        None
    } else if s.last() == '.' {
        Some(s.len() - 1)
    } else {
        last_dot(s.drop_last())
    }
}

/// `s` without its extension: what comes before its last `.`, or all of it.
pub open spec fn base_name(s: Seq<char>) -> Seq<char> {
    match last_dot(s) {
        Some(p) => s.take(p),
        None => s,
    }
}

/// What a key asks of the caller.
#[derive(Debug)]
pub enum ExportAction {
    Nothing,
    Close,
    Confirm,
    Toggle(usize),
    EditFilename,
}

/// The state of the dialog. The rows are the four options, the format (4) and the file
/// name (5).
#[derive(Debug, Clone)]
pub struct ExportOptionsState {
    pub open: bool,
    pub filename: String,
    pub format_idx: usize,
    pub include_thinking: bool,
    pub include_tool_details: bool,
    pub include_metadata: bool,
    pub include_timestamps: bool,
    pub selected: usize,
    pub editing_filename: bool,
}

/// The dialog as plain values.
pub struct ExportModel {
    pub open: bool,
    pub filename: Seq<char>,
    pub format_idx: usize,
    pub thinking: bool,
    pub tools: bool,
    pub metadata: bool,
    pub timestamps: bool,
    pub selected: usize,
    pub editing: bool,
}

/// Whether option `i` is ticked; false for any other row.
pub open spec fn checkbox_m(m: ExportModel, i: usize) -> bool {
    if i == 0 {
        m.thinking
    } else if i == 1 {
        m.tools
    } else if i == 2 {
        m.metadata
    } else if i == 3 {
        m.timestamps
    } else {
        false
    }
}

/// `m` with option `i` set to `v`; other rows are left alone.
pub open spec fn set_checkbox_m(m: ExportModel, i: usize, v: bool) -> ExportModel {
    if i == 0 {
        ExportModel { thinking: v, ..m }
    } else if i == 1 {
        ExportModel { tools: v, ..m }
    } else if i == 2 {
        ExportModel { metadata: v, ..m }
    } else if i == 3 {
        ExportModel { timestamps: v, ..m }
    } else {
        m
    }
}

/// `m` with the next format, the file name's extension following it.
pub open spec fn cycle_m(m: ExportModel) -> ExportModel {
    let idx = ((m.format_idx + 1) % 3) as usize;
    ExportModel { format_idx: idx, filename: base_name(m.filename) + format_ext(idx), ..m }
}

/// A key: Esc or Ctrl+C closes; Enter ends editing the file name or confirms; Up and Down
/// move between the rows; space ticks or unticks the option row; `x` moves to the next
/// format; `f` on the file name row starts editing it; while editing, characters and
/// backspace edit the name; backspace on an option row unticks it.
pub open spec fn export_key_m(m: ExportModel, key: KeyEvent) -> (ExportModel, ExportAction) {
    if key.code == KeyCode::Esc || key.is_ctrl_char('c') {
        (ExportModel { open: false, editing: false, ..m }, ExportAction::Close)
    } else {
        match key.code {
            KeyCode::Enter => if m.editing {
                (ExportModel { editing: false, ..m }, ExportAction::Nothing)
            } else {
                (ExportModel { open: false, editing: false, ..m }, ExportAction::Confirm)
            },
            KeyCode::Up => if !m.editing && m.selected > 0 {
                (ExportModel { selected: (m.selected - 1) as usize, ..m }, ExportAction::Nothing)
            } else {
                (m, ExportAction::Nothing)
            },
            KeyCode::Down => if !m.editing && m.selected < OPTION_COUNT + 1 {
                (ExportModel { selected: (m.selected + 1) as usize, ..m }, ExportAction::Nothing)
            } else {
                (m, ExportAction::Nothing)
            },
            KeyCode::Backspace => if m.editing {
                (
                    ExportModel {
                        filename: if m.filename.len() > 0 { m.filename.drop_last() } else { m.filename },
                        ..m
                    },
                    ExportAction::Nothing,
                )
            } else if m.selected < OPTION_COUNT {
                (set_checkbox_m(m, m.selected, false), ExportAction::Toggle(m.selected))
            } else {
                (m, ExportAction::Nothing)
            },
            KeyCode::Char(c) => if c == ' ' {
                if !m.editing && m.selected < OPTION_COUNT {
                    (set_checkbox_m(m, m.selected, !checkbox_m(m, m.selected)), ExportAction::Toggle(m.selected))
                } else {
                    (m, ExportAction::Nothing)
                }
            } else if c == 'x' {
                (cycle_m(m), ExportAction::Nothing)
            } else if c == 'f' {
                if !m.editing && m.selected == OPTION_COUNT + 1 {
                    (ExportModel { editing: true, ..m }, ExportAction::EditFilename)
                } else {
                    (m, ExportAction::Nothing)
                }
            } else if m.editing {
                (ExportModel { filename: m.filename.push(c), ..m }, ExportAction::Nothing)
            } else {
                (m, ExportAction::Nothing)
            },
            _ => (m, ExportAction::Nothing),
        }
    }
}

/// Space on an option row, with the file name not being edited, unticks what it ticked:
/// pressing it twice leaves the dialog as it was.
pub proof fn lemma_space_twice_restores(m: ExportModel, modifiers: KeyModifiers)
    requires
        !m.editing,
        m.selected < OPTION_COUNT,
    ensures
        ({
            let key = KeyEvent { code: KeyCode::Char(' '), modifiers };
            let once = export_key_m(m, key);
            &&& once.1 == ExportAction::Toggle(m.selected)
            &&& checkbox_m(once.0, m.selected) == !checkbox_m(m, m.selected)
            &&& export_key_m(once.0, key).0 == m
        }),
{
}

/// The default file name for an export made at `secs` seconds since the epoch.
pub open spec fn default_filename_for(secs: u128) -> Seq<char> {
    "export-"@ + decimal(secs as nat) + ".txt"@
}

impl ExportOptionsState {
    /// The dialog as plain values.
    pub open spec fn model(&self) -> ExportModel {
        ExportModel {
            open: self.open,
            filename: self.filename@,
            format_idx: self.format_idx,
            thinking: self.include_thinking,
            tools: self.include_tool_details,
            metadata: self.include_metadata,
            timestamps: self.include_timestamps,
            selected: self.selected,
            editing: self.editing_filename,
        }
    }

    /// A closed dialog at time `secs`: everything included, Markdown, on the first row,
    /// with the default file name for that time.
    pub fn new_at(secs: u128) -> (s: Self)
        ensures
            !s.open && s.format_idx == 1,
            s.include_thinking && s.include_tool_details && s.include_metadata && s.include_timestamps,
            s.selected == 0 && !s.editing_filename,
            s.filename@ == default_filename_for(secs),
    {
        let mut filename = String::from_str("export-");
        push_decimal(&mut filename, secs);
        filename.append(".txt");
        ExportOptionsState {
            open: false,
            filename,
            format_idx: 1,
            include_thinking: true,
            include_tool_details: true,
            include_metadata: true,
            include_timestamps: true,
            selected: 0,
            editing_filename: false,
        }
    }

    /// A closed dialog now (see `new_at`).
    pub fn new() -> (s: Self)
        ensures
            !s.open && s.format_idx == 1,
            s.include_thinking && s.include_tool_details && s.include_metadata && s.include_timestamps,
            s.selected == 0 && !s.editing_filename,
            exists|t: u128| s.filename@ == #[trigger] default_filename_for(t),
    {
        let secs = now_millis() / 1000;
        Self::new_at(secs)
    }

    /// Opens the dialog on the first row.
    pub fn open(&mut self)
        ensures
            final(self).model() == (ExportModel { open: true, selected: 0, editing: false, ..old(self).model() }),
    {
        self.open = true;
        self.selected = 0;
        self.editing_filename = false;
    }

    /// Closes the dialog, ending any editing.
    pub fn close(&mut self)
        ensures
            final(self).model() == (ExportModel { open: false, editing: false, ..old(self).model() }),
    {
        self.open = false;
        self.editing_filename = false;
    }

    /// Whether option `idx` is ticked.
    pub fn checkbox_value(&self, idx: usize) -> (b: bool)
        ensures
            b == checkbox_m(self.model(), idx),
    {
        match idx {
            0 => self.include_thinking,
            1 => self.include_tool_details,
            2 => self.include_metadata,
            3 => self.include_timestamps,
            _ => false,
        }
    }

    /// Ticks or unticks option `idx`.
    pub fn set_checkbox(&mut self, idx: usize, value: bool)
        ensures
            final(self).model() == set_checkbox_m(old(self).model(), idx, value),
    {
        match idx {
            0 => self.include_thinking = value,
            1 => self.include_tool_details = value,
            2 => self.include_metadata = value,
            3 => self.include_timestamps = value,
            _ => {},
        }
    }

    /// The label of the chosen format.
    pub fn selected_format(&self) -> (r: &'static str)
        ensures
            r@ == format_label(self.format_idx),
    {
        if self.format_idx == 1 {
            "Markdown (.md)"
        } else if self.format_idx == 2 {
            "JSON (.json)"
        } else {
            "Plain text (.txt)"
        }
    }

    /// Moves to the next format and gives the file name its extension.
    pub fn cycle_format(&mut self)
        ensures
            final(self).model() == cycle_m(old(self).model()),
    {
        let f0 = self.format_idx;
        let f1 = (f0 % 3 + 1) % 3;
        assert(f1 == (f0 + 1) % 3) by (nonlinear_arith)
            requires
                f1 == (f0 % 3 + 1) % 3,
        {
        }
        self.format_idx = f1;
        let ext = if self.format_idx == 0 {
            ".txt"
        } else if self.format_idx == 1 {
            ".md"
        } else {
            ".json"
        };
        let v = chars_of(self.filename.as_str());
        let mut p: usize = v.len();
        assert(v@.take(p as int) =~= v@);
        while p > 0 && v[p - 1] != '.'
            invariant
                p <= v@.len(),
                last_dot(v@.take(p as int)) == last_dot(v@),
            decreases p,
        {
            assert(v@.take(p as int).drop_last() =~= v@.take(p - 1));
            p = p - 1;
        }
        let base = if p > 0 {
            proof {
                assert(v@.take(p as int).last() == '.');
            }
            string_of_range(&v, 0, p - 1)
        } else {
            string_of_range(&v, 0, v.len())
        };
        proof {
            if p > 0 {
                assert(v@.subrange(0, p - 1) =~= v@.take(p - 1));
            } else {
                assert(v@.subrange(0, v@.len() as int) =~= v@);
                assert(v@.take(0) =~= Seq::<char>::empty());
            }
        }
        let mut name = base;
        name.append(ext);
        self.filename = name;
    }

    /// Handles a key (see `export_key_m`).
    pub fn handle_key(&mut self, key: KeyEvent) -> (a: ExportAction)
        ensures
            (final(self).model(), a) == export_key_m(old(self).model(), key),
    {
        if key.code == KeyCode::Esc || is_ctrl_char(&key, 'c') {
            self.close();
            return ExportAction::Close;
        }
        match key.code {
            KeyCode::Enter => {
                if self.editing_filename {
                    self.editing_filename = false;
                    ExportAction::Nothing
                } else {
                    self.close();
                    ExportAction::Confirm
                }
            },
            KeyCode::Up => {
                if !self.editing_filename && self.selected > 0 {
                    self.selected = self.selected - 1;
                }
                ExportAction::Nothing
            },
            KeyCode::Down => {
                if !self.editing_filename && self.selected < OPTION_COUNT + 1 {
                    self.selected = self.selected + 1;
                }
                ExportAction::Nothing
            },
            KeyCode::Backspace => {
                if self.editing_filename {
                    let _ = pop_char(&mut self.filename);
                    ExportAction::Nothing
                } else if self.selected < OPTION_COUNT {
                    let sel = self.selected;
                    self.set_checkbox(sel, false);
                    ExportAction::Toggle(sel)
                } else {
                    ExportAction::Nothing
                }
            },
            KeyCode::Char(c) => {
                if c == ' ' {
                    if !self.editing_filename && self.selected < OPTION_COUNT {
                        let sel = self.selected;
                        let current = self.checkbox_value(sel);
                        self.set_checkbox(sel, !current);
                        ExportAction::Toggle(sel)
                    } else {
                        ExportAction::Nothing
                    }
                } else if c == 'x' {
                    self.cycle_format();
                    ExportAction::Nothing
                } else if c == 'f' {
                    if !self.editing_filename && self.selected == OPTION_COUNT + 1 {
                        self.editing_filename = true;
                        ExportAction::EditFilename
                    } else {
                        ExportAction::Nothing
                    }
                } else {
                    if self.editing_filename {
                        push_char(&mut self.filename, c);
                    }
                    ExportAction::Nothing
                }
            },
            _ => ExportAction::Nothing,
        }
    }
}

impl Default for ExportOptionsState {
    fn default() -> (s: Self)
        ensures
            !s.open && s.format_idx == 1,
            s.include_thinking && s.include_tool_details && s.include_metadata && s.include_timestamps,
            s.selected == 0 && !s.editing_filename,
    {
        Self::new()
    }
}

/// The width of the dialog: 80 from 128 columns, 72 from 96, else 56.
pub fn dialog_width(term_width: u16) -> (w: u16)
    ensures
        w == if term_width >= 128 { 80u16 } else if term_width >= 96 { 72u16 } else { 56u16 },
{
    if term_width >= 128 {
        80
    } else if term_width >= 96 {
        72
    } else {
        56
    }
}

} // verus!

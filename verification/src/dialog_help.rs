//! The help dialog: the key bindings, in sections, and a cursor over them.
use vstd::prelude::*;

verus! {

/// A key and what it does.
#[derive(Debug, Clone)]
pub struct HelpKeyBinding {
    pub key: &'static str,
    pub desc: &'static str,
}

/// A titled group of key bindings.
#[derive(Debug, Clone)]
pub struct HelpSection {
    pub title: &'static str,
    pub bindings: Vec<HelpKeyBinding>,
}

/// The plain values of a section: title, then each key with its description.
pub open spec fn section_model(s: HelpSection) -> (Seq<char>, Seq<(Seq<char>, Seq<char>)>) {
    (s.title@, s.bindings@.map_values(|b: HelpKeyBinding| (b.key@, b.desc@)))
}

/// The help text, section by section.
pub open spec fn help_table() -> Seq<(Seq<char>, Seq<(Seq<char>, Seq<char>)>)> {
    seq![
        ("Navigation"@, seq![
            ("\u{2191}/\u{2193}"@, "Scroll messages"@),
            ("Tab"@, "Complete prompt"@),
            ("Esc"@, "Close dialogs"@),
        ]),
        ("Session"@, seq![
            ("Ctrl+M"@, "Switch model"@),
            ("Ctrl+X L"@, "Switch session"@),
            ("Ctrl+L"@, "Clear conversation"@),
            ("Alt+S"@, "Toggle sidebar"@),
            ("PgUp/PgDn"@, "Undo/Redo"@),
        ]),
        ("Commands"@, seq![
            ("Ctrl+Space"@, "Open command palette"@),
            ("/"@, "Search (in dialogs)"@),
            ("Enter"@, "Select/confirm"@),
        ]),
        ("Theme"@, seq![
            ("(cmd palette)"@, "Toggle theme"@),
            ("(cmd palette)"@, "Switch theme"@),
        ]),
        ("System"@, seq![("Ctrl+C"@, "Exit"@)]),
    ]
}

fn binding(key: &'static str, desc: &'static str) -> (b: HelpKeyBinding)
    ensures
        b.key@ == key@ && b.desc@ == desc@,
{
    HelpKeyBinding { key, desc }
}

/// The help text, section by section.
pub fn sections() -> (r: Vec<HelpSection>)
    ensures
        r@.map_values(|s: HelpSection| section_model(s)) == help_table(),
{
    let mut nav: Vec<HelpKeyBinding> = Vec::new();
    nav.push(binding("\u{2191}/\u{2193}", "Scroll messages"));
    nav.push(binding("Tab", "Complete prompt"));
    nav.push(binding("Esc", "Close dialogs"));
    let mut session: Vec<HelpKeyBinding> = Vec::new();
    session.push(binding("Ctrl+M", "Switch model"));
    session.push(binding("Ctrl+X L", "Switch session"));
    session.push(binding("Ctrl+L", "Clear conversation"));
    session.push(binding("Alt+S", "Toggle sidebar"));
    session.push(binding("PgUp/PgDn", "Undo/Redo"));
    let mut commands: Vec<HelpKeyBinding> = Vec::new();
    commands.push(binding("Ctrl+Space", "Open command palette"));
    commands.push(binding("/", "Search (in dialogs)"));
    commands.push(binding("Enter", "Select/confirm"));
    let mut theme: Vec<HelpKeyBinding> = Vec::new();
    theme.push(binding("(cmd palette)", "Toggle theme"));
    theme.push(binding("(cmd palette)", "Switch theme"));
    let mut system: Vec<HelpKeyBinding> = Vec::new();
    system.push(binding("Ctrl+C", "Exit"));
    let mut r: Vec<HelpSection> = Vec::new();
    r.push(HelpSection { title: "Navigation", bindings: nav });
    r.push(HelpSection { title: "Session", bindings: session });
    r.push(HelpSection { title: "Commands", bindings: commands });
    r.push(HelpSection { title: "Theme", bindings: theme });
    r.push(HelpSection { title: "System", bindings: system });
    proof {
        let m = r@.map_values(|s: HelpSection| section_model(s));
        assert(m[0].1 =~= help_table()[0].1);
        assert(m[1].1 =~= help_table()[1].1);
        assert(m[2].1 =~= help_table()[2].1);
        assert(m[3].1 =~= help_table()[3].1);
        assert(m[4].1 =~= help_table()[4].1);
        assert(m =~= help_table());
    }
    r
}

/// The number of bindings in all sections.
pub open spec fn binding_count(secs: Seq<HelpSection>) -> int
    decreases secs.len(),
{
    if secs.len() == 0 {
        0
    } else {
        binding_count(secs.drop_last()) + secs.last().bindings@.len()
    }
}

/// The number of bindings in all sections.
pub fn total_bindings(secs: &Vec<HelpSection>) -> (n: usize)
    requires
        binding_count(secs@) <= usize::MAX,
    ensures
        n == binding_count(secs@),
{
    let mut n: usize = 0;
    let mut i: usize = 0;
    while i < secs.len()
        invariant
            i <= secs@.len(),
            n == binding_count(secs@.take(i as int)),
            binding_count(secs@) <= usize::MAX,
        decreases secs@.len() - i,
    {
        assert(secs@.take(i + 1).drop_last() =~= secs@.take(i as int));
        proof {
            lemma_binding_count_prefix(secs@, i + 1);
        }
        n = n + secs[i].bindings.len();
        i = i + 1;
    }
    assert(secs@.take(secs@.len() as int) =~= secs@);
    n
}

/// A prefix holds no more bindings than the whole list.
pub proof fn lemma_binding_count_prefix(secs: Seq<HelpSection>, k: int)
    requires
        0 <= k <= secs.len(),
    ensures
        binding_count(secs.take(k)) <= binding_count(secs),
    decreases secs.len() - k,
{
    if k < secs.len() {
        lemma_binding_count_prefix(secs, k + 1);
        assert(secs.take(k + 1).drop_last() =~= secs.take(k));
    } else {
        assert(secs.take(k) =~= secs);
    }
}

/// The state of the help dialog.
#[derive(Debug, Clone)]
pub struct HelpDialogState {
    pub open: bool,
    pub cursor: usize,
}

impl HelpDialogState {
    /// A closed dialog at the top.
    pub fn new() -> (s: Self)
        ensures
            !s.open && s.cursor == 0,
    {
        HelpDialogState { open: false, cursor: 0 }
    }

    /// Opens the dialog at the top.
    pub fn open(&mut self)
        ensures
            final(self).open && final(self).cursor == 0,
    {
        self.open = true;
        self.cursor = 0;
    }

    /// Closes the dialog and goes back to the top.
    pub fn close(&mut self)
        ensures
            !final(self).open && final(self).cursor == 0,
    {
        self.open = false;
        self.cursor = 0;
    }

    /// Moves to the row above.
    pub fn cursor_up(&mut self, total: usize)
        ensures
            final(self).cursor == if old(self).cursor > 0 { (old(self).cursor - 1) as usize } else { 0 },
            final(self).open == old(self).open,
    {
        if self.cursor > 0 {
            self.cursor = self.cursor - 1;
        }
    }

    /// Moves to the row below, staying within `total` rows.
    pub fn cursor_down(&mut self, total: usize)
        ensures
            final(self).cursor == if old(self).cursor + 1 < total {
                (old(self).cursor + 1) as usize
            } else {
                old(self).cursor
            },
            final(self).open == old(self).open,
    {
        if total > 0 && self.cursor < total - 1 {
            self.cursor = self.cursor + 1;
        }
    }
}

} // verus!

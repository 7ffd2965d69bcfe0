//! The context window dialog: whether it is shown (what it shows is drawn by the caller).
use vstd::prelude::*;

verus! {

/// The state of the context window dialog.
#[derive(Debug, Clone)]
pub struct ContextVizDialogState {
    pub open: bool,
}

impl ContextVizDialogState {
    /// A closed dialog.
    pub fn new() -> (s: Self)
        ensures
            !s.open,
    {
        ContextVizDialogState { open: false }
    }

    /// Shows the dialog.
    pub fn open(&mut self)
        ensures
            final(self).open,
    {
        self.open = true;
    }

    /// Hides the dialog.
    pub fn close(&mut self)
        ensures
            !final(self).open,
    {
        self.open = false;
    }
}

impl Default for ContextVizDialogState {
    fn default() -> (s: Self)
        ensures
            !s.open,
    {
        Self::new()
    }
}

/// The height of the dialog.
pub fn dialog_height(term_height: u16) -> (h: u16)
    ensures
        h == 28,
{
    28
}

} // verus!

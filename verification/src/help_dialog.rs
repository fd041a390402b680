//! The About dialog's open state.
use vstd::prelude::*;

verus! {

/// Whether the About dialog is shown.
#[derive(Debug, Default)]
pub struct HelpDialog {
    open: bool,
}

impl HelpDialog {
    /// A closed dialog.
    pub fn new() -> (r: HelpDialog)
        ensures
            !r.is_open_spec(),
    {
        HelpDialog { open: false }
    }

    pub closed spec fn is_open_spec(&self) -> bool {
        self.open
    }

    /// Open the dialog.
    pub fn show(&mut self)
        ensures
            final(self).is_open_spec(),
    {
        self.open = true;
    }

    /// Whether the dialog is shown.
    pub fn is_open(&self) -> (r: bool)
        ensures
            r == self.is_open_spec(),
    {
        self.open
    }

    /// After a frame of the open dialog: it stays open while the window was
    /// kept open and Close was not clicked.
    pub fn after_frame(&mut self, keep_open: bool, dismissed: bool)
        ensures
            final(self).is_open_spec() == (keep_open && !dismissed),
    {
        self.open = keep_open && !dismissed;
    }
}

} // verus!

//! The Replace Pattern dialog's state: a search pattern and its replacement.
use vstd::prelude::*;

use crate::hex::field_box::TextInput;

verus! {

/// The Replace dialog's two fields and its messages.
pub struct ReplaceDialog {
    pub search_input: TextInput,
    pub replace_input: TextInput,
    /// Where a Shift-selection in the focused field started; switching fields
    /// drops it.
    pub anchor: Option<usize>,
    /// The field with the keyboard: 0 for the pattern, 1 for the replacement.
    pub active_field: usize,
    pub error_message: Option<String>,
    pub status_message: Option<String>,
}

/// A dialog with both fields empty, the pattern field focused and no messages.
pub open spec fn fresh_replace_dialog(d: ReplaceDialog) -> bool {
    &&& d.search_input.value@.len() == 0 && d.search_input.cursor == 0
    &&& d.replace_input.value@.len() == 0 && d.replace_input.cursor == 0
    &&& d.anchor is None
    &&& d.active_field == 0
    &&& d.error_message is None
    &&& d.status_message is None
}

impl ReplaceDialog {
    pub fn new() -> (d: Self)
        ensures
            fresh_replace_dialog(d),
    {
        ReplaceDialog {
            search_input: TextInput::empty(),
            replace_input: TextInput::empty(),
            anchor: None,
            active_field: 0,
            error_message: None,
            status_message: None,
        }
    }

    /// Back to the state [`ReplaceDialog::new`] gives.
    pub fn reset(&mut self)
        ensures
            fresh_replace_dialog(*final(self)),
    {
        *self = ReplaceDialog::new();
    }
}

} // verus!

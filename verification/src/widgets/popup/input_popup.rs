//! Single-line input popup.

use crate::widgets::input::Input;
use vstd::prelude::*;

verus! {

/// Modal popup wrapping a single `Input` widget.
pub struct InputPopup {
    /// Popup title shown in the border.
    pub title: String,
    /// Inner editable input.
    pub input: Input,
}

impl InputPopup {
    /// Constructs an input popup with the supplied title and initial value;
    /// the cursor starts at the end of the value.
    pub fn new(title: String, value: String) -> (r: Self)
        ensures
            r.title == title,
            r.input.value@ == value@,
            r.input.cursor == value@.len(),
            r.input.placeholder_key is None,
    {
        InputPopup { title, input: Input::with(value) }
    }
}

} // verus!

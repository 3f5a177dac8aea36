//! Visibility of the shortcut help overlay.

use vstd::prelude::*;

verus! {

/// Whether the shortcut help overlay is shown.
#[derive(Clone, Copy, Debug, PartialEq, Eq, Structural)]
pub enum HelpVisibility {
    /// The overlay is closed.
    Hidden,
    /// The overlay covers the page.
    Visible,
}

impl HelpVisibility {
    /// Shows the overlay.
    pub fn show(&mut self)
        ensures
            *final(self) == HelpVisibility::Visible,
    {
        *self = HelpVisibility::Visible;
    }

    /// Hides the overlay.
    pub fn close(&mut self)
        ensures
            *final(self) == HelpVisibility::Hidden,
    {
        *self = HelpVisibility::Hidden;
    }

    /// Whether the overlay is shown.
    pub fn visible(self) -> (result: bool)
        ensures
            result == (self == HelpVisibility::Visible),
    {
        match self {
            HelpVisibility::Visible => true,
            HelpVisibility::Hidden => false,
        }
    }
}

} // verus!

//! What the user can ask for from the tray menu.

use vstd::prelude::*;

verus! {

/// A choice from the tray menu.
#[derive(Debug, Clone, Copy, PartialEq, Eq, Structural)]
pub enum TrayAction {
    /// Switch the injection of input on or off.
    ToggleInput,
    /// Show the history.
    ShowHistory,
    /// Show the settings.
    ShowSettings,
    /// Quit.
    Quit,
}

/// What a choice from the tray menu does to the injection of input:
/// `ToggleInput` turns it round, every other choice leaves it.
pub open spec fn input_after(action: TrayAction, enabled: bool) -> bool {
    if action is ToggleInput {
        !enabled
    } else {
        enabled
    }
}

/// Whether input is injected after a choice from the tray menu.
pub fn apply_tray_action(action: TrayAction, enabled: bool) -> (now: bool)
    ensures
        now == input_after(action, enabled),
{
    match action {
        TrayAction::ToggleInput => !enabled,
        _ => enabled,
    }
}

/// A handle on the tray. The tray redraws itself when its menu is opened,
/// so there is nothing to push.
#[derive(Debug, Clone, Copy)]
pub struct TrayHandle {}

impl TrayHandle {
    /// Asks the tray to show the present state. Nothing has to be done.
    pub fn update(&self) {
    }
}

} // verus!

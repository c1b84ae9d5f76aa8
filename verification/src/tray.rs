//! The tray menu: item ids, labels and what a click on each does.

use vstd::prelude::*;

verus! {

/// Id of "Show main window".
pub const ID_SHOW: &'static str = "phonemic.tray.show";

/// Id of "Pause injection" / "Resume injection".
pub const ID_TOGGLE_PAUSE: &'static str = "phonemic.tray.toggle_pause";

/// Id of "Restart service".
pub const ID_RESTART: &'static str = "phonemic.tray.restart";

/// Id of "Quit".
pub const ID_QUIT: &'static str = "phonemic.tray.quit";

/// What a tray click asks for.
#[derive(Debug, Clone, Copy, PartialEq, Eq, Structural)]
pub enum MenuAction {
    /// Bring the main window to the front.
    ShowWindow,
    /// Flip the pause switch; the new state is `paused`.
    SetPaused { paused: bool },
    /// Ask the shell to restart the service.
    RequestRestart,
    /// Leave the application.
    Quit,
    /// An id this menu does not have.
    Ignore,
}

/// The action for a click on item `id`, while injection is `paused` or not.
pub open spec fn action_for(id: Seq<char>, paused: bool) -> MenuAction {
    if id == ID_SHOW@ {
        MenuAction::ShowWindow
    } else if id == ID_TOGGLE_PAUSE@ {
        MenuAction::SetPaused { paused: !paused }
    } else if id == ID_RESTART@ {
        MenuAction::RequestRestart
    } else if id == ID_QUIT@ {
        MenuAction::Quit
    } else {
        MenuAction::Ignore
    }
}

/// What a click on item `id` does.
pub fn menu_action(id: &str, paused: bool) -> (r: MenuAction)
    ensures
        r == action_for(id@, paused),
{
    if crate::text::same_text(id, ID_SHOW) {
        MenuAction::ShowWindow
    } else if crate::text::same_text(id, ID_TOGGLE_PAUSE) {
        MenuAction::SetPaused { paused: !paused }
    } else if crate::text::same_text(id, ID_RESTART) {
        MenuAction::RequestRestart
    } else if crate::text::same_text(id, ID_QUIT) {
        MenuAction::Quit
    } else {
        MenuAction::Ignore
    }
}

/// The label of the pause item: what a click would do.
pub fn pause_label(paused: bool) -> (r: &'static str)
    ensures
        r@ == (if paused {
            "Resume injection"@
        } else {
            "Pause injection"@
        }),
{
    if paused {
        "Resume injection"
    } else {
        "Pause injection"
    }
}

} // verus!

//! What the application decides on an event from the tray's menu.

use vstd::prelude::*;
use vstd::string::*;

verus! {

/// Seconds between two polls of the battery.
pub const UPDATE_SLEEP_SECONDS: u64 = 10;

/// What a menu item asks for.
#[derive(Debug, Clone, Copy, PartialEq, Eq, Structural)]
pub enum MenuAction {
    /// End the program.
    Quit,
    /// Nothing: the item is none of this program's.
    Ignore,
}

/// The action of the menu item with the given id: only "quit" quits.
pub fn menu_action(id: &str) -> (action: MenuAction)
    ensures
        action == if id@ == "quit"@ {
            MenuAction::Quit
        } else {
            MenuAction::Ignore
        },
{
    proof {
        reveal_strlit("quit");
    }
    if id.unicode_len() != 4 {
        return MenuAction::Ignore;
    }
    if id.get_char(0) == 'q' && id.get_char(1) == 'u' && id.get_char(2) == 'i' && id.get_char(3)
        == 't' {
        assert(id@ =~= "quit"@);
        MenuAction::Quit
    } else {
        MenuAction::Ignore
    }
}

} // verus!

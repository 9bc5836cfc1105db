//! The tray menu: its entries and the hotkey pause switch.
use vstd::prelude::*;

verus! {

/// Menu entry that shows the manager window.
pub const MENU_SHOW: &'static str = "show_manager";

/// Menu entry that pauses or resumes the hotkey.
pub const MENU_PAUSE_RESUME: &'static str = "pause_resume_hotkey";

/// Menu entry that quits.
pub const MENU_QUIT: &'static str = "quit";

/// What a menu entry does.
#[derive(Debug, Clone, Copy, PartialEq, Eq, Structural)]
pub enum MenuAction {
    ShowManager,
    TogglePause,
    Quit,
}

/// The action of a menu entry id, if it is one of the menu's.
pub fn menu_action(id: &str) -> (r: Option<MenuAction>)
    ensures
        id@ == MENU_SHOW@ ==> r == Some(MenuAction::ShowManager),
        id@ == MENU_PAUSE_RESUME@ ==> r == Some(MenuAction::TogglePause),
        id@ == MENU_QUIT@ ==> r == Some(MenuAction::Quit),
        id@ != MENU_SHOW@ && id@ != MENU_PAUSE_RESUME@ && id@ != MENU_QUIT@ ==> r is None,
{
    proof {
        reveal_strlit("show_manager");
        reveal_strlit("pause_resume_hotkey");
        reveal_strlit("quit");
        assert(MENU_SHOW@.len() != MENU_QUIT@.len());
        assert(MENU_SHOW@.len() != MENU_PAUSE_RESUME@.len());
        assert(MENU_QUIT@.len() != MENU_PAUSE_RESUME@.len());
    }
    let v = crate::chars::to_chars(id);
    if crate::chars::chars_eq(&v, &crate::chars::to_chars(MENU_SHOW)) {
        Some(MenuAction::ShowManager)
    } else if crate::chars::chars_eq(&v, &crate::chars::to_chars(MENU_PAUSE_RESUME)) {
        Some(MenuAction::TogglePause)
    } else if crate::chars::chars_eq(&v, &crate::chars::to_chars(MENU_QUIT)) {
        Some(MenuAction::Quit)
    } else {
        None
    }
}

/// The menu text and tray tooltip for a pause state.
pub fn pause_labels(paused: bool) -> (r: (&'static str, &'static str))
    ensures
        paused ==> r.0@ == "恢复热键"@ && r.1@ == "择言 SelTalk（热键已暂停）"@,
        !paused ==> r.0@ == "暂停热键"@ && r.1@ == "择言 SelTalk"@,
{
    if paused {
        ("恢复热键", "择言 SelTalk（热键已暂停）")
    } else {
        ("暂停热键", "择言 SelTalk")
    }
}

/// The pause state after the switch: flipped, except that a failed
/// re-registration when resuming leaves the hotkey paused.
pub fn toggled_pause(was_paused: bool, register_ok: bool) -> (r: bool)
    ensures
        !was_paused ==> r,
        was_paused ==> r == !register_ok,
{
    if !was_paused {
        true
    } else {
        !register_ok
    }
}

} // verus!

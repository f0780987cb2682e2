//! The decisions behind the tray icon: what a menu entry does, what a
//! click does (with a short pause against double handling), and how a quit
//! request ends the application.

use vstd::prelude::*;
use crate::text::{chars_of, same_chars};

verus! {

/// What a tray menu entry asks for.
#[derive(PartialEq, Eq, Structural, Clone, Copy, Debug)]
pub enum MenuAction {
    /// Quit the application.
    Quit,
    /// Bring the main window to the front.
    Show,
    /// Open the support page.
    Support,
    /// Nothing (an unknown entry).
    Ignore,
}

/// A click on the tray icon.
#[derive(PartialEq, Eq, Structural, Clone, Copy, Debug)]
pub enum TrayClick {
    /// A single click of the left button.
    Left,
    /// A double click.
    Double,
    /// Any other click or event (the right button opens the menu).
    Other,
}

/// What a click on the tray icon does.
#[derive(PartialEq, Eq, Structural, Clone, Copy, Debug)]
pub struct TrayReaction {
    /// Bring the main window to the front.
    pub show_window: bool,
    /// Ignore further left clicks for a moment.
    pub start_pause: bool,
}

/// How a quit request ends the application.
#[derive(PartialEq, Eq, Structural, Clone, Copy, Debug)]
pub enum QuitPlan {
    /// Tell the main window that the tray asks to quit, and close it; the
    /// window's own shutdown cleans up.
    CloseWindow,
    /// Clean up and exit directly.
    ExitApp,
}

/// What the menu entry with this id asks for.
pub open spec fn menu_action_for(id: Seq<char>) -> MenuAction {
    if id == "quit"@ {
        MenuAction::Quit
    } else if id == "show"@ {
        MenuAction::Show
    } else if id == "support"@ {
        MenuAction::Support
    } else {
        MenuAction::Ignore
    }
}

/// What a click does while a pause is (or is not) under way.
pub open spec fn tray_reaction_for(pausing: bool, click: TrayClick) -> TrayReaction {
    match click {
        TrayClick::Left => if pausing {
            TrayReaction { show_window: false, start_pause: false }
        } else {
            TrayReaction { show_window: true, start_pause: true }
        },
        TrayClick::Double => TrayReaction { show_window: true, start_pause: false },
        TrayClick::Other => TrayReaction { show_window: false, start_pause: false },
    }
}

/// What the menu entry with this id asks for.
pub fn menu_action(id: &str) -> (action: MenuAction)
    ensures
        action == menu_action_for(id@),
{
    let id_chars = chars_of(id);
    if same_chars(&id_chars, &chars_of("quit")) {
        MenuAction::Quit
    } else if same_chars(&id_chars, &chars_of("show")) {
        MenuAction::Show
    } else if same_chars(&id_chars, &chars_of("support")) {
        MenuAction::Support
    } else {
        MenuAction::Ignore
    }
}

/// What a click does while a pause is (or is not) under way.
pub fn tray_reaction(pausing: bool, click: TrayClick) -> (reaction: TrayReaction)
    ensures
        reaction == tray_reaction_for(pausing, click),
{
    match click {
        TrayClick::Left => if pausing {
            TrayReaction { show_window: false, start_pause: false }
        } else {
            TrayReaction { show_window: true, start_pause: true }
        },
        TrayClick::Double => TrayReaction { show_window: true, start_pause: false },
        TrayClick::Other => TrayReaction { show_window: false, start_pause: false },
    }
}

/// How a quit request from the tray ends the application.
pub fn quit_plan(has_main_window: bool) -> (plan: QuitPlan)
    ensures
        plan == (if has_main_window {
            QuitPlan::CloseWindow
        } else {
            QuitPlan::ExitApp
        }),
{
    if has_main_window {
        QuitPlan::CloseWindow
    } else {
        QuitPlan::ExitApp
    }
}

/// While a pause is under way, left clicks do nothing; outside a pause a
/// left click shows the window and starts one; a double click always shows
/// the window.
pub proof fn left_clicks_pause(click: TrayClick)
    ensures
        tray_reaction_for(true, TrayClick::Left) == (TrayReaction {
            show_window: false,
            start_pause: false,
        }),
        tray_reaction_for(false, TrayClick::Left) == (TrayReaction {
            show_window: true,
            start_pause: true,
        }),
        tray_reaction_for(true, TrayClick::Double).show_window,
        tray_reaction_for(false, TrayClick::Double).show_window,
        tray_reaction_for(true, click).start_pause == false,
{
}

/// Only a left click outside a pause starts a pause; a double click never
/// does. The window is shown on a double click, and on a left click outside
/// a pause; nothing else shows it.
pub proof fn only_idle_left_clicks_pause(pausing: bool, click: TrayClick)
    ensures
        tray_reaction_for(pausing, click).start_pause <==> (click == TrayClick::Left && !pausing),
        tray_reaction_for(pausing, click).show_window <==> (click == TrayClick::Double || (click
            == TrayClick::Left && !pausing)),
        !tray_reaction_for(pausing, TrayClick::Double).start_pause,
{
}

/// The menu ids written out: `quit` quits, `show` shows the window,
/// `support` opens the support page, and every other id does nothing.
pub proof fn menu_ids(id: Seq<char>)
    ensures
        menu_action_for(id) == MenuAction::Quit <==> id == "quit"@,
        menu_action_for(id) == MenuAction::Show <==> id == "show"@ && id != "quit"@,
        menu_action_for(id) == MenuAction::Support <==> id == "support"@ && id != "quit"@ && id
            != "show"@,
        menu_action_for(id) == MenuAction::Ignore <==> id != "quit"@ && id != "show"@ && id
            != "support"@,
{
}

} // verus!

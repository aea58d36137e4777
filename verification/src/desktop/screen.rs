//! The views of the desktop window and what the assistant is doing.

use vstd::prelude::*;
use crate::desktop::chat::ShortcutAction;

verus! {

/// The main views of the desktop window.
#[derive(Clone, Copy, Debug, PartialEq, Eq, Structural)]
pub enum View {
    Hud,
    Trading,
    Conversations,
}

impl Default for View {
    fn default() -> (r: View)
        ensures
            r == View::Hud,
    {
        View::Hud
    }
}

/// What the assistant is doing.
#[derive(Clone, Copy, Debug, PartialEq, Eq, Structural)]
pub enum State {
    Idle,
    Listening,
    Thinking,
    Working,
    Speaking,
}

impl Default for State {
    fn default() -> (r: State)
        ensures
            r == State::Idle,
    {
        State::Idle
    }
}

/// What the window shows: the view, whether the sphere panel is open over
/// it, whether the sidebar is open, and whether the voice is muted.
#[derive(Clone, Copy, Debug, PartialEq, Eq, Structural)]
pub struct Screen {
    pub view: View,
    pub sphere_selected: bool,
    pub sidebar_open: bool,
    pub muted: bool,
}

impl Screen {
    /// The HUD, with the sphere panel and the sidebar closed and the voice on.
    pub fn new() -> (r: Screen)
        ensures
            r == (Screen { view: View::Hud, sphere_selected: false, sidebar_open: false, muted: false }),
    {
        Screen { view: View::Hud, sphere_selected: false, sidebar_open: false, muted: false }
    }

    /// Switches to view `v` from the top bar; going to the HUD closes the
    /// sphere panel.
    pub fn show_view(&mut self, v: View)
        ensures
            *final(self) == (Screen {
                view: v,
                sphere_selected: if v == View::Hud { false } else { old(self).sphere_selected },
                ..*old(self)
            }),
    {
        self.view = v;
        if v == View::Hud {
            self.sphere_selected = false;
        }
    }

    /// Escape closes the sidebar and the sphere panel.
    pub fn escape(&mut self)
        ensures
            *final(self) == (Screen { sidebar_open: false, sphere_selected: false, ..*old(self) }),
    {
        self.sidebar_open = false;
        self.sphere_selected = false;
    }

    /// A click on the sphere opens or closes its panel.
    pub fn click_sphere(&mut self)
        ensures
            *final(self) == (Screen { sphere_selected: !old(self).sphere_selected, ..*old(self) }),
    {
        self.sphere_selected = !self.sphere_selected;
    }

    /// The frame's drawing: outside the HUD the sphere panel is closed, so
    /// afterwards the panel is open only over the HUD.
    pub fn settle_sphere(&mut self)
        ensures
            *final(self) == (Screen {
                sphere_selected: old(self).sphere_selected && old(self).view == View::Hud,
                ..*old(self)
            }),
            final(self).sphere_selected ==> final(self).view == View::Hud,
    {
        if self.view != View::Hud {
            self.sphere_selected = false;
        }
    }

    /// Opens or closes the sidebar.
    pub fn toggle_sidebar(&mut self)
        ensures
            *final(self) == (Screen { sidebar_open: !old(self).sidebar_open, ..*old(self) }),
    {
        self.sidebar_open = !self.sidebar_open;
    }

    /// Mutes or unmutes the voice.
    pub fn toggle_mute(&mut self)
        ensures
            *final(self) == (Screen { muted: !old(self).muted, ..*old(self) }),
    {
        self.muted = !self.muted;
    }

    /// Carries out a keyboard shortcut: the sidebar and mute toggles act
    /// here; the result tells whether the window is to be recentered.
    pub fn apply_shortcut(&mut self, a: ShortcutAction) -> (recenter: bool)
        ensures
            recenter == (a == ShortcutAction::RecenterWindow),
            *final(self) == match a {
                ShortcutAction::ToggleSidebar => Screen { sidebar_open: !old(self).sidebar_open, ..*old(self) },
                ShortcutAction::ToggleMute => Screen { muted: !old(self).muted, ..*old(self) },
                _ => *old(self),
            },
    {
        match a {
            ShortcutAction::ToggleSidebar => {
                self.toggle_sidebar();
                false
            },
            ShortcutAction::ToggleMute => {
                self.toggle_mute();
                false
            },
            ShortcutAction::RecenterWindow => true,
            ShortcutAction::Other => false,
        }
    }
}

} // verus!

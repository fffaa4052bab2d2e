//! Which transition each wallpaper action uses.

use crate::protocol::{Transition, WallpaperAction};
use vstd::prelude::*;

verus! {

/// The actions that a transition is configured for.
#[derive(Clone, Copy, Debug, PartialEq, Eq, Structural)]
pub enum ActionKind {
    Next,
    Back,
    ShiftForward,
    ShiftBack,
    Replace,
    Quarantine,
    Startup,
}

impl ActionKind {
    /// The kind of an action that changes what is shown.
    pub open spec fn of_action(action: WallpaperAction) -> Option<Self> {
        match action {
            WallpaperAction::Next => Some(ActionKind::Next),
            WallpaperAction::Back => Some(ActionKind::Back),
            WallpaperAction::ShiftForward => Some(ActionKind::ShiftForward),
            WallpaperAction::ShiftBack => Some(ActionKind::ShiftBack),
            WallpaperAction::Replace { .. } => Some(ActionKind::Replace),
            WallpaperAction::Quarantine { .. } => Some(ActionKind::Quarantine),
            _ => None,
        }
    }

    /// The kind of an action that changes what is shown.
    pub fn from_wallpaper_action(action: &WallpaperAction) -> (kind: Option<Self>)
        ensures
            kind == Self::of_action(*action),
    {
        match action {
            WallpaperAction::Next => Some(ActionKind::Next),
            WallpaperAction::Back => Some(ActionKind::Back),
            WallpaperAction::ShiftForward => Some(ActionKind::ShiftForward),
            WallpaperAction::ShiftBack => Some(ActionKind::ShiftBack),
            WallpaperAction::Replace { .. } => Some(ActionKind::Replace),
            WallpaperAction::Quarantine { .. } => Some(ActionKind::Quarantine),
            WallpaperAction::Favorite { .. }
            | WallpaperAction::Unfavorite { .. }
            | WallpaperAction::Favorites
            | WallpaperAction::Current
            | WallpaperAction::Rescan => None,
        }
    }
}

/// The transition of each kind of action.
#[derive(Clone, Copy, Debug, PartialEq, Eq, Structural)]
pub struct ActionTransitions {
    pub next: Transition,
    pub back: Transition,
    pub shift_forward: Transition,
    pub shift_back: Transition,
    pub replace: Transition,
    pub quarantine: Transition,
    pub startup: Transition,
}

impl ActionTransitions {
    /// The transition of a kind of action.
    pub open spec fn of_kind(self, kind: ActionKind) -> Transition {
        match kind {
            ActionKind::Next => self.next,
            ActionKind::Back => self.back,
            ActionKind::ShiftForward => self.shift_forward,
            ActionKind::ShiftBack => self.shift_back,
            ActionKind::Replace => self.replace,
            ActionKind::Quarantine => self.quarantine,
            ActionKind::Startup => self.startup,
        }
    }

    /// The transition of an action: an action that changes nothing on screen cuts.
    pub open spec fn of_action(self, action: WallpaperAction) -> Transition {
        match ActionKind::of_action(action) {
            Some(kind) => self.of_kind(kind),
            None => Transition::Cut,
        }
    }

    /// All the transitions, in the order of the kinds.
    pub open spec fn listed(self) -> Seq<Transition> {
        seq![
            self.next,
            self.back,
            self.shift_forward,
            self.shift_back,
            self.replace,
            self.quarantine,
            self.startup,
        ]
    }

    /// The transition of a kind of action.
    pub fn transition_for_kind(&self, kind: ActionKind) -> (transition: Transition)
        ensures
            transition == self.of_kind(kind),
    {
        match kind {
            ActionKind::Next => self.next,
            ActionKind::Back => self.back,
            ActionKind::ShiftForward => self.shift_forward,
            ActionKind::ShiftBack => self.shift_back,
            ActionKind::Replace => self.replace,
            ActionKind::Quarantine => self.quarantine,
            ActionKind::Startup => self.startup,
        }
    }

    /// The transition of a wallpaper action.
    pub fn transition_for_wallpaper_action(&self, action: &WallpaperAction) -> (transition:
        Transition)
        ensures
            transition == self.of_action(*action),
    {
        match ActionKind::from_wallpaper_action(action) {
            Some(kind) => self.transition_for_kind(kind),
            None => Transition::Cut,
        }
    }

    /// All the transitions, in the order of the kinds.
    pub fn transitions(&self) -> (list: Vec<Transition>)
        ensures
            list@ == self.listed(),
    {
        vec![
            self.next,
            self.back,
            self.shift_forward,
            self.shift_back,
            self.replace,
            self.quarantine,
            self.startup,
        ]
    }
}

} // verus!

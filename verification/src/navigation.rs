//! Keyboard routing and focus movement between the launcher's regions.
//!
//! The window holds a search entry above two swappable grids: the
//! results grid, and the actions grid of the application whose details
//! are shown.  A key press is turned into a [`KeyOutcome`]: what to do,
//! and whether the toolkit should still see the event.  An arrow key
//! becomes a focus move on the active grid; when focus sits in the
//! search entry, focus first jumps to the grid's selected child.

use vstd::prelude::*;

verus! {

/// A direction of focus movement, from an arrow key.
#[derive(Clone, Copy, Debug, PartialEq, Eq, Structural)]
pub enum MoveDirection {
    Up,
    Down,
    Left,
    Right,
}

/// Which grid is active: the results grid, or the actions grid of the
/// details pane.
#[derive(Clone, Copy, Debug, PartialEq, Eq, Structural)]
pub enum Region {
    Results,
    Actions,
}

/// The keys the launcher reacts to; everything else is `Other`.
#[derive(Clone, Copy, Debug, PartialEq, Eq, Structural)]
pub enum Key {
    Escape,
    Space,
    ArrowUp,
    ArrowDown,
    ArrowLeft,
    ArrowRight,
    Other,
}

/// What the window knows when a key arrives.
#[derive(Clone, Copy, Debug, PartialEq, Eq, Structural)]
pub struct UiState {
    /// The search entry holds the keyboard focus.
    pub search_has_focus: bool,
    /// The details pane has replaced the results grid.
    pub details_visible: bool,
    /// Some child of the results grid is selected.
    pub has_selection: bool,
}

/// What a key press asks the launcher to do.
#[derive(Clone, Copy, Debug, PartialEq, Eq, Structural)]
pub enum UiAction {
    /// Close the launcher.
    Quit,
    /// Show the details pane for the selected application.
    ShowDetails,
    /// Move focus on the active grid.
    MoveFocus(MoveDirection),
    /// Do nothing.
    Ignore,
}

/// The decision for one key press: the action, and whether the event
/// is consumed (inhibited) rather than handed on to the toolkit.
#[derive(Clone, Copy, Debug, PartialEq, Eq, Structural)]
pub struct KeyOutcome {
    pub action: UiAction,
    pub inhibit: bool,
}

/// The grid that directional movement applies to: the actions grid
/// while the details pane is shown, otherwise the results grid.
pub open spec fn active_region_spec(s: UiState) -> Region {
    if s.details_visible {
        Region::Actions
    } else {
        Region::Results
    }
}

/// Decide which grid is active.
pub fn active_region(s: &UiState) -> (r: Region)
    ensures
        r == active_region_spec(*s),
{
    if s.details_visible {
        Region::Actions
    } else {
        Region::Results
    }
}

/// How a directional request is carried out: on which grid, and
/// whether focus must first leave the search entry for the grid's
/// selected child.
#[derive(Clone, Copy, Debug, PartialEq, Eq, Structural)]
pub struct NavigationPlan {
    /// Focus the selected child of the grid before moving.
    pub focus_selected_first: bool,
    /// The grid whose focus is moved.
    pub grid: Region,
}

/// Plan a directional focus move for the current state.
pub fn navigation_plan(s: &UiState) -> (p: NavigationPlan)
    ensures
        p.focus_selected_first == s.search_has_focus,
        p.grid == active_region_spec(*s),
{
    NavigationPlan { focus_selected_first: s.search_has_focus, grid: active_region(s) }
}

/// The launcher's reaction to one key press.
///
/// Escape closes the launcher.  Space opens the details of the
/// selected application when Ctrl is held or the search entry does not
/// have focus; a plain Space while typing stays with the entry.  Arrow
/// keys move focus on the active grid.  Any other key is left to the
/// toolkit.
pub open spec fn key_outcome_spec(s: UiState, key: Key, ctrl: bool) -> KeyOutcome {
    match key {
        Key::Escape => KeyOutcome { action: UiAction::Quit, inhibit: true },
        Key::Space => if ctrl || !s.search_has_focus {
            KeyOutcome {
                action: if s.has_selection {
                    UiAction::ShowDetails
                } else {
                    UiAction::Ignore
                },
                inhibit: true,
            }
        } else {
            KeyOutcome { action: UiAction::Ignore, inhibit: false }
        },
        Key::ArrowUp => KeyOutcome { action: UiAction::MoveFocus(MoveDirection::Up), inhibit: true },
        Key::ArrowDown => KeyOutcome {
            action: UiAction::MoveFocus(MoveDirection::Down),
            inhibit: true,
        },
        Key::ArrowLeft => KeyOutcome {
            action: UiAction::MoveFocus(MoveDirection::Left),
            inhibit: true,
        },
        Key::ArrowRight => KeyOutcome {
            action: UiAction::MoveFocus(MoveDirection::Right),
            inhibit: true,
        },
        Key::Other => KeyOutcome { action: UiAction::Ignore, inhibit: false },
    }
}

/// Decide the reaction to a key press.
pub fn key_outcome(s: &UiState, key: Key, ctrl: bool) -> (r: KeyOutcome)
    ensures
        r == key_outcome_spec(*s, key, ctrl),
{
    match key {
        Key::Escape => KeyOutcome { action: UiAction::Quit, inhibit: true },
        Key::Space => {
            if ctrl || !s.search_has_focus {
                let action = if s.has_selection {
                    UiAction::ShowDetails
                } else {
                    UiAction::Ignore
                };
                KeyOutcome { action, inhibit: true }
            } else {
                KeyOutcome { action: UiAction::Ignore, inhibit: false }
            }
        },
        Key::ArrowUp => KeyOutcome {
            action: UiAction::MoveFocus(MoveDirection::Up),
            inhibit: true,
        },
        Key::ArrowDown => KeyOutcome {
            action: UiAction::MoveFocus(MoveDirection::Down),
            inhibit: true,
        },
        Key::ArrowLeft => KeyOutcome {
            action: UiAction::MoveFocus(MoveDirection::Left),
            inhibit: true,
        },
        Key::ArrowRight => KeyOutcome {
            action: UiAction::MoveFocus(MoveDirection::Right),
            inhibit: true,
        },
        Key::Other => KeyOutcome { action: UiAction::Ignore, inhibit: false },
    }
}

/// The selection the results grid takes after a search: its first
/// child when there is one.
pub fn selection_after_search(result_count: usize) -> (r: Option<usize>)
    ensures
        r == if result_count > 0 {
            Some(0usize)
        } else {
            None::<usize>
        },
{
    if result_count > 0 {
        Some(0)
    } else {
        None
    }
}

} // verus!

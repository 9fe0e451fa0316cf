use launcher::navigation::{
    active_region, key_outcome, navigation_plan, selection_after_search, Key, KeyOutcome,
    MoveDirection, Region, UiAction, UiState,
};

fn state(search_has_focus: bool, details_visible: bool, has_selection: bool) -> UiState {
    UiState {
        search_has_focus,
        details_visible,
        has_selection,
    }
}

#[test]
fn escape_always_quits() {
    for &focus in &[false, true] {
        let s = state(focus, false, true);
        let out = key_outcome(&s, Key::Escape, false);
        assert_eq!(
            out,
            KeyOutcome {
                action: UiAction::Quit,
                inhibit: true
            }
        );
    }
}

#[test]
fn plain_space_while_typing_is_passed_on() {
    let s = state(true, false, true);
    let out = key_outcome(&s, Key::Space, false);
    assert_eq!(
        out,
        KeyOutcome {
            action: UiAction::Ignore,
            inhibit: false
        }
    );
}

#[test]
fn ctrl_space_opens_details_of_selection() {
    let s = state(true, false, true);
    let out = key_outcome(&s, Key::Space, true);
    assert_eq!(
        out,
        KeyOutcome {
            action: UiAction::ShowDetails,
            inhibit: true
        }
    );
}

#[test]
fn space_outside_the_entry_opens_details() {
    let s = state(false, false, true);
    let out = key_outcome(&s, Key::Space, false);
    assert_eq!(
        out,
        KeyOutcome {
            action: UiAction::ShowDetails,
            inhibit: true
        }
    );
}

#[test]
fn space_without_selection_is_swallowed() {
    let s = state(false, false, false);
    let out = key_outcome(&s, Key::Space, false);
    assert_eq!(
        out,
        KeyOutcome {
            action: UiAction::Ignore,
            inhibit: true
        }
    );
}

#[test]
fn arrows_move_focus() {
    let s = state(false, false, true);
    let cases = [
        (Key::ArrowUp, MoveDirection::Up),
        (Key::ArrowDown, MoveDirection::Down),
        (Key::ArrowLeft, MoveDirection::Left),
        (Key::ArrowRight, MoveDirection::Right),
    ];
    for &(key, dir) in &cases {
        let out = key_outcome(&s, key, false);
        assert_eq!(
            out,
            KeyOutcome {
                action: UiAction::MoveFocus(dir),
                inhibit: true
            }
        );
    }
}

#[test]
fn other_keys_are_passed_on() {
    let s = state(true, true, true);
    let out = key_outcome(&s, Key::Other, false);
    assert_eq!(
        out,
        KeyOutcome {
            action: UiAction::Ignore,
            inhibit: false
        }
    );
}

#[test]
fn active_grid_follows_details_pane() {
    assert_eq!(active_region(&state(false, false, false)), Region::Results);
    assert_eq!(active_region(&state(false, true, false)), Region::Actions);
}

#[test]
fn navigation_leaves_search_entry_first() {
    let p = navigation_plan(&state(true, false, true));
    assert!(p.focus_selected_first);
    assert_eq!(p.grid, Region::Results);

    let p = navigation_plan(&state(false, true, true));
    assert!(!p.focus_selected_first);
    assert_eq!(p.grid, Region::Actions);
}

#[test]
fn first_result_is_selected_after_search() {
    assert_eq!(selection_after_search(3), Some(0));
    assert_eq!(selection_after_search(1), Some(0));
    assert_eq!(selection_after_search(0), None);
}

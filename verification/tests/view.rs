use kas_verified::view::clerk::TokenChanges;
use kas_verified::view::filter::{
    apply_set_filter, AflGuard, ContainsCaseInsensitive, ContainsString, Filter, KeystrokeGuard, SetFilter,
};
use kas_verified::view::index::{child_to_data, data_to_child};
use kas_verified::view::list::{command_target, nav_step, widget_action, Command, Update};
use kas_verified::view::grid::{grid_command_event, GridIndex};
use kas_verified::view::selection::{press_end_selects, Selection, SelectionMode, SelectionMsg};

#[test]
fn selection_single_mode_keeps_one() {
    let mut s = Selection::new();
    assert_eq!(s.selection_mode(), SelectionMode::Disabled);
    assert_eq!(s.activate(3), None);
    assert!(!s.is_selected(3));
    s.set_selection_mode(SelectionMode::Single);
    assert_eq!(s.activate(3), Some(SelectionMsg::Select(3)));
    assert_eq!(s.activate(5), Some(SelectionMsg::Select(5)));
    assert_eq!(s.selected_keys(), vec![5]);
    assert_eq!(s.selected_flag(5), Some(true));
    assert_eq!(s.selected_flag(3), None);
}

#[test]
fn selection_multiple_toggle_twice_restores() {
    let mut s = Selection::new().with_selection_mode(SelectionMode::Multiple);
    assert!(s.select(1));
    assert!(s.select(2));
    assert!(!s.select(2));
    let before = s.selected_keys();
    assert_eq!(s.activate(7), Some(SelectionMsg::Select(7)));
    assert_eq!(s.activate(7), Some(SelectionMsg::Deselect(7)));
    assert_eq!(s.selected_keys(), before);
    assert_eq!(s.selected_flag(9), Some(false));
    // select then deselect restores the selection
    assert!(s.select(4));
    assert!(s.deselect(4));
    assert_eq!(s.selected_keys(), vec![1, 2]);
    assert!(s.deselect_unavailable(&vec![2, 3]));
    assert_eq!(s.selected_keys(), vec![2]);
    assert!(s.clear_selected());
    assert!(s.selected_keys().is_empty());
}

#[test]
fn selection_mode_change_trims() {
    let mut s = Selection::new().with_selection_mode(SelectionMode::Multiple);
    s.select(1);
    s.select(2);
    assert!(s.set_selection_mode(SelectionMode::Disabled));
    assert!(s.selected_keys().is_empty());
}

#[test]
fn filters_match_substrings() {
    let mut f = ContainsString::new();
    assert!(f.matches(&"anything"));
    assert!(apply_set_filter(&mut f, SetFilter("bc".to_string())));
    assert!(!apply_set_filter(&mut f, SetFilter("bc".to_string())));
    assert!(f.matches(&"abcd"));
    assert!(!f.matches(&"ABCD"));
    assert!(!f.matches(&"acbd".to_string()));

    let mut g = ContainsCaseInsensitive::new();
    assert!(apply_set_filter(&mut g, SetFilter("bC".to_string())));
    assert!(!apply_set_filter(&mut g, SetFilter("Bc".to_string())));
    assert!(g.matches(&"ABCD"));
    assert!(g.matches(&"xbcx".to_string()));
    assert!(!g.matches(&"b c"));
}

#[test]
fn edit_guards() {
    assert_eq!(KeystrokeGuard::edit("ab").map(|m| m.0), Some("ab".to_string()));
    assert!(KeystrokeGuard::focus_lost("ab").is_none());
    assert!(AflGuard::edit("ab").is_none());
    assert_eq!(AflGuard::focus_lost("cd").map(|m| m.0), Some("cd".to_string()));
}

#[test]
fn child_data_roundtrip() {
    // widgets 0..4 show data 6..10
    let shown: Vec<usize> = (0..4).map(|i| child_to_data(6, 4, i)).collect();
    assert_eq!(shown, vec![8, 9, 6, 7]);
    for i in 0..4 {
        assert_eq!(data_to_child(child_to_data(6, 4, i), 4), i);
    }
    assert_eq!(data_to_child(13, 4), 1);
}

#[test]
fn list_commands() {
    assert_eq!(command_target(Command::Home, true, 5, 9, 4), Some(0));
    assert_eq!(command_target(Command::End, true, 5, 9, 4), Some(9));
    assert_eq!(command_target(Command::Up, true, 5, 9, 4), Some(4));
    assert_eq!(command_target(Command::Up, false, 5, 9, 4), None);
    assert_eq!(command_target(Command::Left, false, 0, 9, 4), None);
    assert_eq!(command_target(Command::Right, false, 5, 9, 4), Some(6));
    assert_eq!(command_target(Command::Down, true, 9, 9, 4), None);
    assert_eq!(command_target(Command::PageUp, true, 1, 9, 6), Some(0));
    assert_eq!(command_target(Command::PageDown, true, 8, 9, 6), Some(9));
    assert_eq!(command_target(Command::PageDown, true, 2, 9, 6), Some(5));
}

#[test]
fn list_navigation_steps() {
    assert_eq!(nav_step(None, false, 3), Some(0));
    assert_eq!(nav_step(None, true, 3), Some(2));
    assert_eq!(nav_step(Some(1), false, 3), Some(2));
    assert_eq!(nav_step(Some(2), false, 3), None);
    assert_eq!(nav_step(Some(0), true, 3), None);
}

#[test]
fn update_order_and_widget_actions() {
    assert_eq!(Update::Token.max(Update::NoUpdate), Update::Token);
    assert_eq!(Update::Token.max(Update::Configure), Update::Configure);
    let a = widget_action(TokenChanges::Any, Update::NoUpdate, false);
    assert!(a.configure && !a.update && a.set_rect);
    let b = widget_action(TokenChanges::SameKey, Update::NoUpdate, false);
    assert!(!b.configure && b.update && !b.set_rect);
    let c = widget_action(TokenChanges::NoChange, Update::Configure, false);
    assert!(c.configure && !c.update && c.set_rect);
    let d = widget_action(TokenChanges::NoChange, Update::NoUpdate, true);
    assert!(!d.configure && !d.update && d.set_rect);
}

#[test]
fn single_select_of_selected_key_is_false() {
    let mut s = Selection::new().with_selection_mode(SelectionMode::Single);
    assert!(s.select(3));
    assert!(!s.select(3));
    assert_eq!(s.selected_keys(), vec![3]);
    assert!(s.select(4));
    assert_eq!(s.selected_keys(), vec![4]);
}

#[test]
fn grid_command_event_guards() {
    let gi = |col, row| GridIndex { col, row };
    // an empty grid or no focused child: the command is unused
    assert_eq!(grid_command_event(Command::DocEnd, gi(0, 0), None, 4), None);
    assert_eq!(grid_command_event(Command::DocEnd, gi(3, 5), None, 4), None);
    assert_eq!(grid_command_event(Command::DocEnd, gi(3, 5), Some(gi(1, 1)), 4), Some(gi(2, 4)));
    assert_eq!(grid_command_event(Command::Left, gi(3, 5), Some(gi(0, 1)), 4), None);
    assert_eq!(grid_command_event(Command::PageDown, gi(3, 5), Some(gi(1, 1)), 4), Some(gi(1, 3)));
    assert_eq!(grid_command_event(Command::PageDown, gi(3, 5), Some(gi(1, 3)), 4), Some(gi(1, 4)));
    assert_eq!(grid_command_event(Command::Other, gi(3, 5), Some(gi(1, 1)), 4), None);
}

#[test]
fn press_end_selection_decision() {
    assert!(press_end_selects(true, SelectionMode::Single, false, true, true));
    assert!(!press_end_selects(false, SelectionMode::Single, false, true, true));
    assert!(!press_end_selects(true, SelectionMode::Disabled, false, true, true));
    assert!(!press_end_selects(true, SelectionMode::Multiple, true, true, true));
    assert!(!press_end_selects(true, SelectionMode::Multiple, false, false, true));
    assert!(!press_end_selects(true, SelectionMode::Multiple, false, true, false));
}

use mightty::keystroke::{Keystroke, KeystrokeModifiers};
use mightty::pane_container::{
    shortcut_action, short_dir_title, CloseOutcome, PaneContainer, SelectTab, ShortcutAction,
    MAX_SELECTABLE_TABS,
};
use mightty::split::{Split, SplitDirection, SplitNode};

fn keystroke(key: &str, shift: bool, alt: bool, control: bool) -> Keystroke {
    Keystroke {
        key: key.to_string(),
        key_char: None,
        modifiers: KeystrokeModifiers { shift, alt, control, platform: false },
    }
}

#[test]
fn split_places_new_pane_after_active_and_activates_it() {
    let mut split = Split::with_pane(1);
    assert_eq!(split.pane_count(), 1);
    split.split_active(SplitDirection::Row, 2, None);
    assert_eq!(split.panes(), vec![1, 2]);
    assert_eq!(split.focus_active(), Some(2));
    split.split_active(SplitDirection::Column, 3, Some(1));
    assert_eq!(split.panes(), vec![1, 3, 2]);
    assert_eq!(split.focus_active(), Some(3));
    assert_eq!(split.pane_count(), 3);
}

#[test]
fn split_then_close_restores_layout() {
    let mut split = Split::with_pane(7);
    split.split_active(SplitDirection::Row, 8, None);
    split.split_active(SplitDirection::Column, 9, Some(7));
    let before = split.panes();
    assert_eq!(before, vec![7, 9, 8]);
    split.split_active(SplitDirection::Row, 10, Some(8));
    assert_eq!(split.panes(), vec![7, 9, 8, 10]);
    assert_eq!(split.remove_active_pane(None), Some(8));
    assert_eq!(split.panes(), before);
}

#[test]
fn closing_focuses_the_next_pane_or_the_previous_at_the_end() {
    let mut split = Split::with_pane(1);
    split.split_active(SplitDirection::Row, 2, None);
    split.split_active(SplitDirection::Row, 3, None);
    assert_eq!(split.panes(), vec![1, 2, 3]);
    assert_eq!(split.remove_pane_by_id(2, None), Some(3));
    assert_eq!(split.panes(), vec![1, 3]);
    assert_eq!(split.remove_active_pane(None), Some(1));
    assert_eq!(split.panes(), vec![1]);
}

#[test]
fn the_last_pane_is_never_closed() {
    let mut split = Split::with_pane(5);
    assert_eq!(split.remove_active_pane(None), None);
    assert_eq!(split.remove_pane_by_id(5, None), None);
    assert_eq!(split.panes(), vec![5]);
}

#[test]
fn closing_an_unknown_pane_changes_nothing() {
    let mut split = Split::with_pane(1);
    split.split_active(SplitDirection::Row, 2, None);
    assert_eq!(split.remove_pane_by_id(42, None), None);
    assert_eq!(split.panes(), vec![1, 2]);
    assert!(split.contains_pane(2));
    assert!(!split.contains_pane(42));
}

#[test]
fn exited_panes_close_in_turn() {
    let mut split = Split::with_pane(1);
    split.split_active(SplitDirection::Row, 2, None);
    split.split_active(SplitDirection::Column, 3, None);
    assert_eq!(split.remove_exited(&vec![1, 3], None), Some(2));
    assert_eq!(split.panes(), vec![2]);
    assert_eq!(split.focus_active(), Some(2));
}

#[test]
fn first_focused_pane_in_layout_order() {
    let mut split = Split::with_pane(1);
    split.split_active(SplitDirection::Row, 2, None);
    split.split_active(SplitDirection::Row, 3, None);
    assert_eq!(split.focused_pane_id(&vec![false, true, true]), Some(2));
    assert_eq!(split.focused_pane_id(&vec![false, false, false]), None);
}

#[test]
fn a_new_tab_becomes_active() {
    let mut tabs = PaneContainer::new(1, "one".to_string());
    assert_eq!(tabs.tab_count(), 1);
    assert!(tabs.take_focus_request());
    assert!(!tabs.take_focus_request());
    assert!(tabs.new_tab(2, "two".to_string()));
    assert_eq!(tabs.tab_count(), 2);
    assert_eq!(tabs.active_tab_index(), 1);
    assert_eq!(tabs.tab_title(1), "two");
    assert_eq!(tabs.active_split().panes(), vec![2]);
    assert!(tabs.take_focus_request());
}

#[test]
fn at_most_nine_tabs_open() {
    let mut tabs = PaneContainer::new(0, "0".to_string());
    for i in 1..MAX_SELECTABLE_TABS as u64 {
        assert!(tabs.new_tab(i, i.to_string()));
    }
    assert_eq!(tabs.tab_count(), 9);
    assert!(!tabs.can_open_tab());
    assert!(!tabs.new_tab(100, "x".to_string()));
    assert_eq!(tabs.tab_count(), 9);
    assert_eq!(tabs.active_tab_index(), 8);
}

#[test]
fn selecting_a_missing_tab_changes_nothing() {
    let mut tabs = PaneContainer::new(1, "one".to_string());
    tabs.new_tab(2, "two".to_string());
    tabs.activate_tab(0);
    assert_eq!(tabs.active_tab_index(), 0);
    tabs.activate_tab(5);
    assert_eq!(tabs.active_tab_index(), 0);
}

#[test]
fn ctrl_d_closes_pane_then_tab_and_keeps_the_last() {
    let mut tabs = PaneContainer::new(1, "one".to_string());
    tabs.new_tab(2, "two".to_string());
    assert_eq!(tabs.split_active(SplitDirection::Column, 3, None), Some(3));
    assert_eq!(tabs.active_split().panes(), vec![2, 3]);
    assert_eq!(tabs.close_active(None), CloseOutcome::PaneClosed(Some(2)));
    assert_eq!(tabs.active_split().panes(), vec![2]);
    assert_eq!(tabs.close_active(None), CloseOutcome::TabClosed);
    assert_eq!(tabs.tab_count(), 1);
    assert_eq!(tabs.active_tab_index(), 0);
    assert_eq!(tabs.active_split().panes(), vec![1]);
    assert_eq!(tabs.close_active(None), CloseOutcome::Ignored);
    assert_eq!(tabs.tab_count(), 1);
}

#[test]
fn closing_the_first_tab_shows_the_next() {
    let mut tabs = PaneContainer::new(1, "one".to_string());
    tabs.new_tab(2, "two".to_string());
    tabs.new_tab(3, "three".to_string());
    tabs.activate_tab(0);
    assert_eq!(tabs.close_active(None), CloseOutcome::TabClosed);
    assert_eq!(tabs.active_tab_index(), 0);
    assert_eq!(tabs.tab_title(0), "two");
    tabs.activate_tab(1);
    assert_eq!(tabs.close_active(None), CloseOutcome::TabClosed);
    assert_eq!(tabs.active_tab_index(), 0);
    assert_eq!(tabs.tab_title(0), "two");
}

#[test]
fn sidebar_toggle_keeps_tabs() {
    let mut tabs = PaneContainer::new(1, "one".to_string());
    tabs.new_tab(2, "two".to_string());
    assert!(tabs.is_sidebar_visible());
    tabs.toggle_sidebar();
    assert!(!tabs.is_sidebar_visible());
    assert_eq!(tabs.tab_count(), 2);
    assert_eq!(tabs.active_tab_index(), 1);
    tabs.toggle_sidebar();
    assert!(tabs.is_sidebar_visible());
    assert_eq!(tabs.tab_split(0).panes(), vec![1]);
}

#[test]
fn exits_close_panes_of_tabs_with_several() {
    let mut tabs = PaneContainer::new(1, "one".to_string());
    tabs.split_active(SplitDirection::Row, 2, None);
    tabs.new_tab(3, "three".to_string());
    tabs.activate_tab(0);
    let focus = tabs.check_for_exits(&vec![vec![2], vec![3]], None);
    assert_eq!(focus, Some(1));
    assert_eq!(tabs.tab_split(0).panes(), vec![1]);
    assert_eq!(tabs.tab_split(1).panes(), vec![3]);
}

#[test]
fn focus_active_tab_names_its_active_pane() {
    let mut tabs = PaneContainer::new(1, "one".to_string());
    tabs.split_active(SplitDirection::Row, 2, None);
    assert_eq!(tabs.focus_active_tab(), Some(2));
}

#[test]
fn window_shortcuts() {
    assert_eq!(shortcut_action(&keystroke("t", false, false, true)), Some(ShortcutAction::NewTab));
    assert_eq!(
        shortcut_action(&keystroke("d", false, false, true)),
        Some(ShortcutAction::CloseActive)
    );
    assert_eq!(
        shortcut_action(&keystroke("b", false, false, true)),
        Some(ShortcutAction::ToggleSidebar)
    );
    assert_eq!(
        shortcut_action(&keystroke("enter", false, true, false)),
        Some(ShortcutAction::SplitRight)
    );
    assert_eq!(
        shortcut_action(&keystroke("enter", true, true, false)),
        Some(ShortcutAction::SplitDown)
    );
    assert_eq!(
        shortcut_action(&keystroke("1", false, false, true)),
        Some(ShortcutAction::SelectTab(SelectTab { index: 0 }))
    );
    assert_eq!(
        shortcut_action(&keystroke("9", false, false, true)),
        Some(ShortcutAction::SelectTab(SelectTab { index: 8 }))
    );
    assert_eq!(shortcut_action(&keystroke("0", false, false, true)), None);
    assert_eq!(shortcut_action(&keystroke("t", true, false, true)), None);
    assert_eq!(shortcut_action(&keystroke("t", false, false, false)), None);
    assert_eq!(shortcut_action(&keystroke("enter", false, false, false)), None);
}

#[test]
fn tab_titles_from_directories() {
    assert_eq!(short_dir_title(true, Some("alice")), "~");
    assert_eq!(short_dir_title(false, Some("src")), "src");
    assert_eq!(short_dir_title(false, Some("")), "term");
    assert_eq!(short_dir_title(false, None), "term");
}

fn shape(node: &SplitNode) -> String {
    match node {
        SplitNode::Pane(id) => id.to_string(),
        SplitNode::Split { direction, children } => {
            let tag = if *direction == SplitDirection::Row { "row" } else { "col" };
            let inner: Vec<String> = children.iter().map(shape).collect();
            format!("{}[{}]", tag, inner.join(","))
        }
    }
}

#[test]
fn splits_follow_the_requested_direction() {
    let mut split = Split::with_pane(1);
    assert_eq!(shape(split.layout()), "1");
    split.split_active(SplitDirection::Row, 2, None);
    assert_eq!(shape(split.layout()), "row[1,2]");
    split.split_active(SplitDirection::Column, 3, None);
    assert_eq!(shape(split.layout()), "row[1,col[2,3]]");
    split.split_active(SplitDirection::Column, 4, Some(3));
    assert_eq!(shape(split.layout()), "row[1,col[2,3,4]]");
    split.split_active(SplitDirection::Row, 5, Some(1));
    assert_eq!(shape(split.layout()), "row[1,5,col[2,3,4]]");
}

#[test]
fn closing_collapses_single_child_splits() {
    let mut split = Split::with_pane(1);
    split.split_active(SplitDirection::Row, 2, None);
    split.split_active(SplitDirection::Column, 3, None);
    assert_eq!(shape(split.layout()), "row[1,col[2,3]]");
    split.remove_pane_by_id(3, None);
    assert_eq!(shape(split.layout()), "row[1,2]");
    split.remove_pane_by_id(1, None);
    assert_eq!(shape(split.layout()), "2");
}

#[test]
fn tabs_split_in_the_requested_direction() {
    let mut tabs = PaneContainer::new(1, "one".to_string());
    tabs.split_active(SplitDirection::Column, 2, None);
    assert_eq!(shape(tabs.active_split().layout()), "col[1,2]");
    tabs.split_active(SplitDirection::Row, 3, None);
    assert_eq!(shape(tabs.active_split().layout()), "col[1,row[2,3]]");
}

#[test]
fn exits_never_close_the_last_pane() {
    let mut split = Split::with_pane(1);
    split.split_active(SplitDirection::Row, 2, None);
    split.split_active(SplitDirection::Column, 3, None);
    split.remove_exited(&vec![1, 2, 3], None);
    assert_eq!(split.panes(), vec![3]);
}

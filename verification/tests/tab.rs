use minal::pane::{Pane, PaneId};
use minal::tab::{DividerRatio, PaneNode, RemoveResult, SplitDirection, Tab, TabAction, TabId, TabManager};

fn make_dummy_pane(id: u64) -> Pane<()> {
    Pane { id: PaneId(id), title: format!("pane-{id}"), session: () }
}

#[test]
fn focus_cycling() {
    let pane1 = make_dummy_pane(1);
    let pane2 = make_dummy_pane(2);
    let pane3 = make_dummy_pane(3);
    let mut tab = Tab::new(TabId(1), pane1);
    tab.split_focused(SplitDirection::Vertical, pane2);
    tab.focused_pane = PaneId(2);
    tab.split_focused(SplitDirection::Horizontal, pane3);

    tab.focused_pane = PaneId(1);

    tab.focus_next_pane();
    assert_eq!(tab.focused_pane, PaneId(2));

    tab.focus_next_pane();
    assert_eq!(tab.focused_pane, PaneId(3));

    tab.focus_next_pane();
    assert_eq!(tab.focused_pane, PaneId(1)); // wraps around

    tab.focus_prev_pane();
    assert_eq!(tab.focused_pane, PaneId(3)); // wraps back
}

#[test]
fn close_pane_promotes_sibling() {
    let pane1 = make_dummy_pane(1);
    let pane2 = make_dummy_pane(2);
    let mut tab = Tab::new(TabId(1), pane1);
    tab.split_focused(SplitDirection::Vertical, pane2);

    tab.focused_pane = PaneId(1);
    let remaining = tab.close_focused_pane();
    assert_eq!(remaining, 1);
    assert_eq!(tab.focused_pane, PaneId(2));

    assert_eq!(tab.pane_ids(), vec![PaneId(2)]);
}

#[test]
fn close_last_pane_returns_zero() {
    let pane = make_dummy_pane(1);
    let mut tab = Tab::new(TabId(1), pane);
    let remaining = tab.close_focused_pane();
    assert_eq!(remaining, 0);
}

#[test]
fn tab_manager_basics() {
    let mut mgr: TabManager<()> = TabManager::new();
    assert!(mgr.is_empty());

    let pane1 = make_dummy_pane(1);
    mgr.add_tab(pane1);
    assert_eq!(mgr.tab_count(), 1);
    assert_eq!(mgr.active_index(), 0);

    let pane2 = make_dummy_pane(2);
    mgr.add_tab(pane2);
    assert_eq!(mgr.tab_count(), 2);

    mgr.switch_to_tab(1);
    assert_eq!(mgr.active_index(), 1);

    mgr.close_tab(0);
    assert_eq!(mgr.tab_count(), 1);
    assert_eq!(mgr.active_index(), 0);
}

#[test]
fn split_inserts_after_target_with_half_ratio() {
    let mut tab = Tab::new(TabId(1), make_dummy_pane(1));
    assert!(tab.split_focused(SplitDirection::Horizontal, make_dummy_pane(2)));
    tab.focused_pane = PaneId(1);
    assert!(tab.split_focused(SplitDirection::Vertical, make_dummy_pane(3)));
    assert_eq!(tab.pane_ids(), vec![PaneId(1), PaneId(3), PaneId(2)]);
    match &tab.root {
        PaneNode::Split { direction, ratio, first, .. } => {
            assert_eq!(*direction, SplitDirection::Horizontal);
            assert_eq!(*ratio, DividerRatio(0.5f32.to_bits()));
            match &**first {
                PaneNode::Split { direction, .. } => assert_eq!(*direction, SplitDirection::Vertical),
                PaneNode::Leaf(_) => panic!("first child should be a split"),
            }
        }
        PaneNode::Leaf(_) => panic!("root should be a split"),
    }
}

#[test]
fn split_of_missing_pane_is_refused() {
    let mut tab = Tab::new(TabId(1), make_dummy_pane(1));
    tab.focused_pane = PaneId(9);
    assert!(!tab.split_focused(SplitDirection::Vertical, make_dummy_pane(2)));
    assert_eq!(tab.pane_ids(), vec![PaneId(1)]);
}

#[test]
fn remove_pane_results() {
    let mut root = PaneNode::Leaf(Box::new(make_dummy_pane(1)));
    assert_eq!(root.remove_pane(PaneId(1)), RemoveResult::RemoveSelf);
    assert_eq!(root.remove_pane(PaneId(5)), RemoveResult::NotFound);
    assert!(root.split(PaneId(1), SplitDirection::Vertical, make_dummy_pane(2)));
    assert!(root.split(PaneId(2), SplitDirection::Vertical, make_dummy_pane(3)));
    assert_eq!(root.remove_pane(PaneId(2)), RemoveResult::Removed);
    assert_eq!(root.pane_ids(), vec![PaneId(1), PaneId(3)]);
    assert!(root.contains(PaneId(3)));
    assert!(!root.contains(PaneId(2)));
}

#[test]
fn find_pane_and_mutate() {
    let mut root = PaneNode::Leaf(Box::new(make_dummy_pane(1)));
    root.split(PaneId(1), SplitDirection::Horizontal, make_dummy_pane(2));
    assert_eq!(root.find_pane(PaneId(2)).map(|p| p.title.clone()), Some("pane-2".to_string()));
    assert!(root.find_pane(PaneId(7)).is_none());
    if let Some(p) = root.find_pane_mut(PaneId(2)) {
        p.title = "renamed".to_string();
    }
    assert_eq!(root.find_pane(PaneId(2)).map(|p| p.title.clone()), Some("renamed".to_string()));
}

#[test]
fn set_divider_ratio_follows_path() {
    let mut root = PaneNode::Leaf(Box::new(make_dummy_pane(1)));
    root.split(PaneId(1), SplitDirection::Horizontal, make_dummy_pane(2));
    root.split(PaneId(1), SplitDirection::Vertical, make_dummy_pane(3));
    root.set_divider_ratio_at_path(1, DividerRatio(0.25f32.to_bits()));
    root.set_divider_ratio_at_path(0, DividerRatio(0.75f32.to_bits()));
    match &root {
        PaneNode::Split { ratio, first, .. } => {
            assert_eq!(*ratio, DividerRatio(0.75f32.to_bits()));
            match &**first {
                PaneNode::Split { ratio, .. } => assert_eq!(*ratio, DividerRatio(0.25f32.to_bits())),
                PaneNode::Leaf(_) => panic!("expected split"),
            }
        }
        PaneNode::Leaf(_) => panic!("expected split"),
    }
    root.set_divider_ratio_at_path(2, DividerRatio(0));
    assert_eq!(root.pane_ids(), vec![PaneId(1), PaneId(3), PaneId(2)]);
}

#[test]
fn tab_manager_navigation_wraps() {
    let mut mgr: TabManager<()> = TabManager::new();
    assert!(mgr.active_tab().is_none());
    let p = mgr.next_pane_id();
    assert_eq!(p, PaneId(1));
    assert_eq!(mgr.next_pane_id(), PaneId(2));
    assert_eq!(mgr.add_tab(make_dummy_pane(1)), 0);
    assert_eq!(mgr.add_tab(make_dummy_pane(2)), 1);
    assert_eq!(mgr.add_tab(make_dummy_pane(3)), 2);
    mgr.prev_tab();
    assert_eq!(mgr.active_index(), 2);
    mgr.next_tab();
    assert_eq!(mgr.active_index(), 0);
    mgr.switch_to_tab(9);
    assert_eq!(mgr.active_index(), 0);
    let info = mgr.tab_render_info();
    assert_eq!(info.len(), 3);
    assert!(info[0].is_active && !info[1].is_active);
    assert_eq!(info[2].title, "pane-3");
    assert_eq!(mgr.active_tab().map(|t| t.id), Some(TabId(1)));
}

#[test]
fn tab_manager_remove_pane() {
    let mut mgr: TabManager<()> = TabManager::new();
    mgr.add_tab(make_dummy_pane(1));
    mgr.add_tab(make_dummy_pane(2));
    if let Some(tab) = mgr.active_tab_mut() {
        tab.split_focused(SplitDirection::Vertical, make_dummy_pane(3));
    }
    assert!(!mgr.remove_pane(PaneId(3)));
    assert_eq!(mgr.tab_count(), 2);
    assert!(mgr.remove_pane(PaneId(1)));
    assert_eq!(mgr.tab_count(), 1);
    assert!(!mgr.remove_pane(PaneId(42)));
    assert_eq!(mgr.find_pane_mut(PaneId(2)).map(|(i, p)| (i, p.id)), Some((0, PaneId(2))));
    mgr.close_active_tab();
    assert!(mgr.is_empty());
}

fn deep_tree() -> PaneNode<()> {
    let mut root = PaneNode::Leaf(Box::new(make_dummy_pane(1)));
    root.split(PaneId(1), SplitDirection::Vertical, make_dummy_pane(4));
    root.split(PaneId(1), SplitDirection::Horizontal, make_dummy_pane(2));
    root.split(PaneId(2), SplitDirection::Vertical, make_dummy_pane(3));
    root
}

fn ratio_of(node: &PaneNode<()>) -> Option<DividerRatio> {
    match node {
        PaneNode::Split { ratio, .. } => Some(*ratio),
        PaneNode::Leaf(_) => None,
    }
}

#[test]
fn dividers_are_numbered_from_the_root() {
    let root = deep_tree();
    assert_eq!(root.divider_paths(), vec![0, 1, 4]);
    assert!(root.is_shallower_than(4));
    assert!(!root.is_shallower_than(3));
    let leaf = PaneNode::Leaf(Box::new(make_dummy_pane(9)));
    assert!(leaf.divider_paths().is_empty());
}

#[test]
fn divider_number_sets_its_own_split() {
    let mut root = deep_tree();
    let quarter = DividerRatio(0.25f32.to_bits());
    root.set_divider_ratio_at_path(4, quarter);
    let half = DividerRatio::half();
    assert_eq!(ratio_of(&root), Some(half));
    match &root {
        PaneNode::Split { first, second, .. } => {
            assert_eq!(ratio_of(second), None);
            assert_eq!(ratio_of(first), Some(half));
            match &**first {
                PaneNode::Split { first: inner_first, second: inner_second, .. } => {
                    assert_eq!(ratio_of(inner_first), None);
                    assert_eq!(ratio_of(inner_second), Some(quarter));
                }
                PaneNode::Leaf(_) => panic!("expected split"),
            }
        }
        PaneNode::Leaf(_) => panic!("expected split"),
    }
    assert_eq!(root.pane_ids(), vec![PaneId(1), PaneId(2), PaneId(3), PaneId(4)]);
    assert_eq!(root.divider_paths(), vec![0, 1, 4]);
}

#[test]
fn divider_number_without_a_split_changes_nothing() {
    let mut root = deep_tree();
    root.set_divider_ratio_at_path(3, DividerRatio(0));
    root.set_divider_ratio_at_path(2, DividerRatio(0));
    root.set_divider_ratio_at_path(9, DividerRatio(0));
    let half = DividerRatio::half();
    assert_eq!(ratio_of(&root), Some(half));
    if let PaneNode::Split { first, .. } = &root {
        assert_eq!(ratio_of(first), Some(half));
        if let PaneNode::Split { second, .. } = &**first {
            assert_eq!(ratio_of(second), Some(half));
        }
    }
}

#[test]
fn as_many_next_tabs_as_tabs_come_back() {
    let mut mgr: TabManager<()> = TabManager::new();
    for id in 1..=4 {
        mgr.add_tab(make_dummy_pane(id));
    }
    mgr.switch_to_tab(1);
    for _ in 0..mgr.tab_count() {
        mgr.next_tab();
    }
    assert_eq!(mgr.active_index(), 1);
    mgr.next_tab();
    assert_eq!(mgr.active_index(), 2);
}

#[test]
fn tab_actions_close_panes_then_tabs() {
    let mut mgr: TabManager<()> = TabManager::new();
    mgr.add_tab(make_dummy_pane(1));
    mgr.add_tab(make_dummy_pane(2));
    mgr.split_active_tab(SplitDirection::Vertical, make_dummy_pane(3));
    assert_eq!(mgr.active_tab().map(|t| t.focused_pane), Some(PaneId(3)));
    assert_eq!(mgr.active_tab().map(|t| t.pane_ids()), Some(vec![PaneId(1), PaneId(3)]));
    assert!(!mgr.apply_tab_action(TabAction::FocusNextPane));
    assert_eq!(mgr.active_tab().map(|t| t.focused_pane), Some(PaneId(1)));
    assert!(!mgr.apply_tab_action(TabAction::CloseFocused));
    assert_eq!(mgr.tab_count(), 2);
    assert_eq!(mgr.active_tab().map(|t| t.pane_ids()), Some(vec![PaneId(3)]));
    assert!(!mgr.apply_tab_action(TabAction::SwitchTab(1)));
    assert_eq!(mgr.active_index(), 0);
    assert!(!mgr.apply_tab_action(TabAction::SwitchTab(9)));
    assert_eq!(mgr.active_index(), 0);
    assert!(!mgr.apply_tab_action(TabAction::PrevTab));
    assert_eq!(mgr.active_index(), 1);
    assert!(!mgr.apply_tab_action(TabAction::CloseFocused));
    assert_eq!(mgr.tab_count(), 1);
    assert_eq!(mgr.active_index(), 0);
    assert!(mgr.apply_tab_action(TabAction::CloseFocused));
    assert!(mgr.is_empty());
    assert!(!mgr.apply_tab_action(TabAction::NextTab));
}

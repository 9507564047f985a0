use nterm::ui::pane::{
    close_leaf, count_leaves, find_enclosing_paned, first_terminal_rc, leaf_contains,
    search_bar_for_leaf, split_pane, Closed, LeafSlot, Orientation, Pane, PaneWidget, SplitDir,
};

fn leaf(id: u64) -> Pane {
    Pane::Leaf(id)
}

fn split(paned: u64, a: Pane, b: Pane) -> Pane {
    Pane::Split { dir: SplitDir::Vertical, paned, first: Box::new(a), second: Box::new(b) }
}

#[test]
fn split_root_leaf_then_close_new_leaf_restores() {
    let mut t = leaf(1);
    let r = split_pane(&mut t, 1, 2, 10, SplitDir::Horizontal);
    assert_eq!(r, Some((2, None)));
    assert_eq!(
        t,
        Pane::Split {
            dir: SplitDir::Horizontal,
            paned: 10,
            first: Box::new(leaf(1)),
            second: Box::new(leaf(2)),
        }
    );
    assert_eq!(count_leaves(&t), 2);
    let c = close_leaf(&mut t, 2);
    assert_eq!(
        c,
        Ok(Closed::Collapsed {
            new_focus: Some(1),
            removed_paned: 10,
            survivor: PaneWidget::LeafBox(1),
            placement: None,
        })
    );
    assert_eq!(t, leaf(1));
}

#[test]
fn split_nested_leaf_reports_enclosing_slot() {
    let mut t = split(10, leaf(1), split(11, leaf(2), leaf(3)));
    let r = split_pane(&mut t, 3, 4, 12, SplitDir::Vertical);
    assert_eq!(r, Some((4, Some((11, LeafSlot::Second)))));
    assert_eq!(t, split(10, leaf(1), split(11, leaf(2), split(12, leaf(3), leaf(4)))));
    assert_eq!(count_leaves(&t), 4);
    assert!(leaf_contains(&t, 4));
}

#[test]
fn split_missing_focus_changes_nothing() {
    let mut t = split(10, leaf(1), leaf(2));
    assert_eq!(split_pane(&mut t, 9, 4, 12, SplitDir::Vertical), None);
    assert_eq!(t, split(10, leaf(1), leaf(2)));
}

#[test]
fn close_first_child_keeps_sibling_subtree() {
    let mut t = split(10, split(11, leaf(1), leaf(2)), split(12, leaf(3), leaf(4)));
    let c = close_leaf(&mut t, 1);
    assert_eq!(
        c,
        Ok(Closed::Collapsed {
            new_focus: Some(2),
            removed_paned: 11,
            survivor: PaneWidget::LeafBox(2),
            placement: Some((10, LeafSlot::First)),
        })
    );
    assert_eq!(t, split(10, leaf(2), split(12, leaf(3), leaf(4))));
    assert_eq!(count_leaves(&t), 3);
    assert!(!leaf_contains(&t, 1));
}

#[test]
fn close_leaf_whose_sibling_is_a_split() {
    let mut t = split(10, leaf(1), split(11, leaf(2), leaf(3)));
    let c = close_leaf(&mut t, 1);
    assert_eq!(
        c,
        Ok(Closed::Collapsed {
            new_focus: Some(2),
            removed_paned: 10,
            survivor: PaneWidget::Paned(11),
            placement: None,
        })
    );
    assert_eq!(t, split(11, leaf(2), leaf(3)));
}

#[test]
fn close_single_leaf_closes_tab_and_unknown_is_error() {
    let mut t = leaf(7);
    assert_eq!(close_leaf(&mut t, 7), Ok(Closed::LastLeaf));
    assert_eq!(t, leaf(7));
    assert_eq!(close_leaf(&mut t, 8), Err(()));
    let mut t = split(10, leaf(1), leaf(2));
    assert_eq!(close_leaf(&mut t, 3), Err(()));
    assert_eq!(t, split(10, leaf(1), leaf(2)));
}

#[test]
fn walks_over_a_tree() {
    let t = split(10, split(11, leaf(5), leaf(6)), leaf(7));
    assert_eq!(count_leaves(&t), 3);
    assert_eq!(first_terminal_rc(&t), Some(5));
    assert!(leaf_contains(&t, 6));
    assert!(!leaf_contains(&t, 8));
    assert_eq!(search_bar_for_leaf(&t, 7), Some(7));
    assert_eq!(search_bar_for_leaf(&t, 8), None);
    assert_eq!(find_enclosing_paned(&t, PaneWidget::Paned(11)), Some((10, LeafSlot::First)));
    assert_eq!(find_enclosing_paned(&t, PaneWidget::LeafBox(7)), Some((10, LeafSlot::Second)));
    assert_eq!(find_enclosing_paned(&t, PaneWidget::LeafBox(6)), Some((11, LeafSlot::Second)));
    assert_eq!(find_enclosing_paned(&t, PaneWidget::Paned(10)), None);
    assert_eq!(t.widget(), PaneWidget::Paned(10));
    assert_eq!(SplitDir::Vertical.orientation(), Orientation::Horizontal);
    assert_eq!(SplitDir::Horizontal.orientation(), Orientation::Vertical);
}

fn chain(depth: u64) -> Pane {
    // A tree whose first leaf sits `depth` levels down.
    let mut t = leaf(0);
    for i in 1..=depth {
        t = split(1000 + i, t, leaf(i));
    }
    t
}

#[test]
fn walks_stop_below_the_depth_limit() {
    // Leaf i sits at depth 1025 - i + 1; leaves 0 and 1 are beyond reach.
    let t = chain(1025);
    assert!(!leaf_contains(&t, 0));
    assert!(!leaf_contains(&t, 1));
    assert!(leaf_contains(&t, 2));
    assert_eq!(first_terminal_rc(&t), None);
    assert_eq!(count_leaves(&t), 1024);
    let t = chain(1024);
    assert!(leaf_contains(&t, 0));
    assert_eq!(first_terminal_rc(&t), Some(0));
    assert_eq!(count_leaves(&t), 1025);
}

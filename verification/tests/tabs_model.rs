use nterm::pane_tree::{focus_scan_fits, FocusAxis, Rect};
use nterm::ui::focus::focus_move_in_range;
use nterm::ui::pane::{Closed, LeafSlot, Pane, PaneWidget, SplitDir};
use nterm::ui::tabs::{
    close_pane, close_pane_enabled, split_in_tab, tab_holding, tab_position, TabState,
};

fn tab(container: u64, leaf: u64) -> TabState {
    TabState { container, pane: Pane::Leaf(leaf), primary_terminal: leaf }
}

#[test]
fn split_then_close_in_a_tab() {
    let mut tabs = vec![tab(100, 1), tab(200, 2)];
    assert!(!close_pane_enabled(&tabs, Some(200)));
    let r = split_in_tab(&mut tabs, 200, 2, 3, 50, SplitDir::Vertical);
    assert_eq!(r, Some((3, None)));
    assert_eq!(tabs[1].primary_terminal, 3);
    assert_eq!(tabs[0], tab(100, 1));
    assert!(close_pane_enabled(&tabs, Some(200)));
    assert!(!close_pane_enabled(&tabs, Some(100)));
    assert!(!close_pane_enabled(&tabs, Some(300)));
    assert!(!close_pane_enabled(&tabs, None));
    assert_eq!(tab_holding(&tabs, 3), Some(1));
    assert_eq!(tab_holding(&tabs, 1), Some(0));
    assert_eq!(tab_holding(&tabs, 9), None);

    let c = close_pane(&mut tabs, 200, 3);
    assert_eq!(
        c,
        Some(Ok(Closed::Collapsed {
            new_focus: Some(2),
            removed_paned: 50,
            survivor: PaneWidget::LeafBox(2),
            placement: None,
        }))
    );
    assert_eq!(tabs.len(), 2);
    assert_eq!(tabs[1], tab(200, 2));
}

#[test]
fn closing_the_last_pane_drops_the_tab() {
    let mut tabs = vec![tab(100, 1), tab(200, 2)];
    assert_eq!(close_pane(&mut tabs, 100, 1), Some(Ok(Closed::LastLeaf)));
    assert_eq!(tabs, vec![tab(200, 2)]);
    assert_eq!(close_pane(&mut tabs, 200, 7), Some(Err(())));
    assert_eq!(tabs, vec![tab(200, 2)]);
    assert_eq!(close_pane(&mut tabs, 300, 2), None);
    assert_eq!(tab_position(&tabs, 200), Some(0));
    assert_eq!(tab_position(&tabs, 100), None);
}

#[test]
fn split_in_missing_tab_or_pane() {
    let mut tabs = vec![tab(100, 1)];
    assert_eq!(split_in_tab(&mut tabs, 999, 1, 2, 10, SplitDir::Horizontal), None);
    assert_eq!(split_in_tab(&mut tabs, 100, 5, 2, 10, SplitDir::Horizontal), None);
    assert_eq!(tabs, vec![tab(100, 1)]);
    let r = split_in_tab(&mut tabs, 100, 1, 2, 10, SplitDir::Horizontal);
    assert_eq!(r, Some((2, None)));
    let r = split_in_tab(&mut tabs, 100, 2, 3, 11, SplitDir::Vertical);
    assert_eq!(r, Some((3, Some((10, LeafSlot::Second)))));
}

#[test]
fn focus_ranges() {
    let r = Rect { x: 0, y: 0, w: 10, h: 10 };
    assert!(focus_scan_fits(&r, &[(Rect { x: 20, y: 0, w: 10, h: 10 }, ())], FocusAxis::Right));
    let huge = Rect { x: i32::MAX, y: 0, w: 10, h: 10 };
    assert!(!focus_scan_fits(&huge, &[] as &[(Rect, ())], FocusAxis::Right));
    let far = Rect { x: i32::MIN + 5, y: 0, w: 0, h: 10 };
    let beyond = Rect { x: i32::MIN, y: 0, w: 0, h: 10 };
    assert!(!focus_scan_fits(&r, &[(beyond, ())], FocusAxis::Right));
    assert!(!focus_scan_fits(&r, &[(far, ())], FocusAxis::Left));
    assert!(focus_scan_fits(&r, &[(far, ())], FocusAxis::Right));
    assert!(focus_move_in_range(&[(1, r), (2, far)], 1, FocusAxis::Up));
    assert!(!focus_move_in_range(&[(1, r), (2, far)], 1, FocusAxis::Left));
}

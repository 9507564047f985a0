use nterm::pane_tree::{count_leaves_rec, find_best_focus, FocusAxis, Rect};

fn rect(x: i32, y: i32, w: i32, h: i32) -> Rect {
    Rect { x, y, w, h }
}

#[test]
fn find_best_focus_left_picks_candidate_with_overlap() {
    let from = rect(100, 0, 20, 20);
    let candidates = vec![(rect(0, 0, 20, 20), "left")];
    assert_eq!(find_best_focus(&from, &candidates, FocusAxis::Left), Some("left"));
}

#[test]
fn find_best_focus_right_no_overlap_returns_none() {
    let from = rect(0, 0, 20, 20);
    let candidates = vec![(rect(100, 100, 20, 20), "right")];
    assert_eq!(find_best_focus(&from, &candidates, FocusAxis::Right), None);
}

#[test]
fn find_best_focus_picks_closest_among_multiple() {
    let from = rect(100, 0, 20, 20);
    let candidates = vec![(rect(0, 0, 20, 20), "far"), (rect(50, 0, 20, 20), "near")];
    assert_eq!(find_best_focus(&from, &candidates, FocusAxis::Left), Some("near"));
}

#[test]
fn find_best_focus_up_ignores_candidates_below() {
    let from = rect(0, 100, 20, 20);
    let candidates = vec![(rect(0, 200, 20, 20), "below")];
    assert_eq!(find_best_focus(&from, &candidates, FocusAxis::Up), None);
}

#[test]
fn count_leaves_rec_single_leaf() {
    let n = count_leaves_rec(|| true, None::<fn() -> usize>, None::<fn() -> usize>, 0);
    assert_eq!(n, 1);
}

#[test]
fn count_leaves_rec_split_two_leaves() {
    let left = count_leaves_rec(|| true, None::<fn() -> usize>, None::<fn() -> usize>, 0);
    let right = count_leaves_rec(|| true, None::<fn() -> usize>, None::<fn() -> usize>, 0);
    let n = count_leaves_rec(
        || false,
        Some(move || left),
        Some(move || right),
        0,
    );
    assert_eq!(n, 2);
}

#[test]
fn count_leaves_rec_recursive_split_three_leaves() {
    let leaf = || count_leaves_rec(|| true, None::<fn() -> usize>, None::<fn() -> usize>, 0);
    let split_with_two = count_leaves_rec(
        || false,
        Some(leaf),
        Some(leaf),
        0,
    );
    let total = count_leaves_rec(
        || false,
        Some(move || split_with_two),
        Some(leaf),
        0,
    );
    assert_eq!(total, 3);
}

#[test]
fn count_leaves_rec_beyond_depth_limit_counts_nothing() {
    assert_eq!(count_leaves_rec(|| true, None::<fn() -> usize>, None::<fn() -> usize>, 1025), 0);
    assert_eq!(count_leaves_rec(|| true, None::<fn() -> usize>, None::<fn() -> usize>, 1024), 1);
}

#[test]
fn count_leaves_rec_split_missing_child_counts_nothing() {
    let n = count_leaves_rec(|| false, Some(|| 4usize), None::<fn() -> usize>, 0);
    assert_eq!(n, 0);
}

#[test]
fn rect_centres_and_edges() {
    let r = rect(10, 20, 31, -5);
    assert_eq!(r.cx(), 25);
    assert_eq!(r.cy(), 18); // -5 / 2 rounds towards zero
    assert_eq!(r.right(), 41);
    assert_eq!(r.bottom(), 15);
}

#[test]
fn find_best_focus_exact_scores_and_ties() {
    // Right: dx = 50, dy = 10 -> 50010; dx = 50, dy = -10 -> 50010 (tie: first wins)
    let from = rect(0, 0, 20, 20);
    let candidates = vec![
        (rect(50, 10, 20, 20), "a"),
        (rect(50, -10, 20, 20), "b"),
        (rect(200, 0, 20, 20), "c"),
    ];
    assert_eq!(find_best_focus(&from, &candidates, FocusAxis::Right), Some("a"));
    // Down prefers the smallest vertical distance even if far sideways.
    let candidates = vec![(rect(0, 100, 20, 20), "near"), (rect(15, 30, 20, 20), "side")];
    assert_eq!(find_best_focus(&from, &candidates, FocusAxis::Down), Some("side"));
    // Up ignores candidates without column overlap.
    let from = rect(0, 100, 20, 20);
    let candidates = vec![(rect(40, 0, 20, 20), "away")];
    assert_eq!(find_best_focus(&from, &candidates, FocusAxis::Up), None);
    let candidates: Vec<(Rect, &str)> = vec![];
    assert_eq!(find_best_focus(&from, &candidates, FocusAxis::Down), None);
}

use nterm::explosion::Rng;
use nterm::pane_tree::{FocusAxis, Rect};
use nterm::ui::focus::focus_direction;
use nterm::ui::leaf::url_for_match;
use nterm::ui::process::{foreground_program, stat_would_panic};
use nterm::ui::tabs::{next_tab, prev_tab};

fn rect(x: i32, y: i32, w: i32, h: i32) -> Rect {
    Rect { x, y, w, h }
}

#[test]
fn focus_moves_between_listed_terminals() {
    let leaves = vec![(1u64, rect(0, 0, 100, 100)), (2, rect(100, 0, 100, 50)), (3, rect(100, 50, 100, 50))];
    assert_eq!(focus_direction(&leaves, 1, FocusAxis::Right), Some(2));
    assert_eq!(focus_direction(&leaves, 3, FocusAxis::Up), Some(2));
    assert_eq!(focus_direction(&leaves, 2, FocusAxis::Left), Some(1));
    assert_eq!(focus_direction(&leaves, 1, FocusAxis::Left), None);
    assert_eq!(focus_direction(&leaves, 9, FocusAxis::Left), None);
}

#[test]
fn tab_navigation_wraps() {
    assert_eq!(prev_tab(3, Some(0)), Some(2));
    assert_eq!(prev_tab(3, Some(2)), Some(1));
    assert_eq!(next_tab(3, Some(2)), Some(0));
    assert_eq!(next_tab(3, Some(0)), Some(1));
    assert_eq!(next_tab(1, Some(0)), None);
    assert_eq!(prev_tab(4, None), None);
    for n in 2..6u32 {
        for c in 0..n {
            assert_eq!(next_tab(n, prev_tab(n, Some(c))), Some(c));
            assert_eq!(prev_tab(n, next_tab(n, Some(c))), Some(c));
        }
    }
}

#[test]
fn foreground_program_from_stat() {
    assert_eq!(foreground_program("1234 (vim) S 1 2 3"), Some("vim".to_string()));
    assert_eq!(foreground_program("1234 (bash) S 1 2 3"), None);
    assert_eq!(foreground_program("1234 (tcsh) S"), None);
    assert_eq!(foreground_program("77 (my (odd) prog) R 1"), Some("my (odd) prog".to_string()));
    assert_eq!(foreground_program("no parens"), None);
    assert_eq!(foreground_program("1 () S"), Some(String::new()));
    assert!(stat_would_panic(") then ("));
    assert!(!stat_would_panic("1 (a) S"));
}

#[test]
fn url_for_matched_text() {
    assert_eq!(url_for_match("https://example.org"), "https://example.org");
    assert_eq!(url_for_match("ftp://host/file"), "ftp://host/file");
    assert_eq!(url_for_match("me@example.org"), "mailto:me@example.org");
    assert_eq!(url_for_match("http://a@b"), "http://a@b");
    assert_eq!(url_for_match("plain"), "plain");
}

#[test]
fn rng_is_xorshift64() {
    let mut r = Rng::new(0);
    // seed 0 becomes 1
    let mut x: u64 = 1;
    for _ in 0..100 {
        x ^= x << 13;
        x ^= x >> 7;
        x ^= x << 17;
        assert_eq!(r.next_u64(), x);
        assert_ne!(x, 0);
    }
}

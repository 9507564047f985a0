//! Moving focus between the panes of a tab.
use vstd::prelude::*;

use crate::pane_tree::{
    centre_fits, find_best_focus, focus_arith_ok, focus_scan_fits, is_best_focus, no_focus_target,
    FocusAxis, Rect,
};
use crate::ui::pane::LeafId;

verus! {

/// The rectangle recorded for the first entry of terminal `from`.
pub open spec fn rect_of(leaves: Seq<(LeafId, Rect)>, from: LeafId) -> Option<Rect>
    decreases leaves.len(),
{
    if leaves.len() == 0 {
        None
    } else if leaves[0].0 == from {
        Some(leaves[0].1)
    } else {
        rect_of(leaves.skip(1), from)
    }
}

/// The entries of every other terminal, in order, rectangle first.
pub open spec fn other_leaves(leaves: Seq<(LeafId, Rect)>, from: LeafId) -> Seq<(Rect, LeafId)>
    decreases leaves.len(),
{
    if leaves.len() == 0 {
        Seq::empty()
    } else {
        let rest = other_leaves(leaves.drop_last(), from);
        let e = leaves.last();
        if e.0 != from {
            rest.push((e.1, e.0))
        } else {
            rest
        }
    }
}

/// The candidates for a focus move are exactly the other terminals:
/// `from` is never among them, and every entry of another terminal is.
pub proof fn law_candidates_are_the_other_terminals(leaves: Seq<(LeafId, Rect)>, from: LeafId)
    ensures
        forall|i: int|
            0 <= i < other_leaves(leaves, from).len() ==> (#[trigger] other_leaves(
                leaves,
                from,
            )[i]).1 != from,
        forall|j: int|
            0 <= j < leaves.len() && (#[trigger] leaves[j]).0 != from ==> other_leaves(
                leaves,
                from,
            ).contains((leaves[j].1, leaves[j].0)),
    decreases leaves.len(),
{
    if leaves.len() > 0 {
        let init = leaves.drop_last();
        law_candidates_are_the_other_terminals(init, from);
        let rest = other_leaves(init, from);
        let e = leaves.last();
        assert forall|j: int| 0 <= j < leaves.len() && (#[trigger] leaves[j]).0 != from implies other_leaves(
            leaves,
            from,
        ).contains((leaves[j].1, leaves[j].0)) by {
            if j < leaves.len() - 1 {
                assert(leaves[j] == init[j]);
                let k = choose|k: int| 0 <= k < rest.len() && rest[k] == (init[j].1, init[j].0);
                assert(other_leaves(leaves, from)[k] == rest[k]);
            } else {
                assert(other_leaves(leaves, from).last() == (e.1, e.0));
            }
        }
    }
}

/// Every step of scoring the other terminals from `from` stays in range.
pub open spec fn focus_move_fits(leaves: Seq<(LeafId, Rect)>, from: LeafId, axis: FocusAxis) -> bool {
    rect_of(leaves, from) matches Some(fr) ==> {
        &&& centre_fits(fr)
        &&& forall|i: int|
            0 <= i < other_leaves(leaves, from).len() ==> focus_arith_ok(
                fr,
                #[trigger] other_leaves(leaves, from)[i].0,
                axis,
            )
    }
}

fn find_rect(leaves: &[(LeafId, Rect)], from: LeafId) -> (r: Option<Rect>)
    ensures
        r == rect_of(leaves@, from),
{
    let n = leaves.len();
    let mut i: usize = 0;
    assert(leaves@.skip(0) =~= leaves@);
    while i < n
        invariant
            i <= n,
            n == leaves@.len(),
            rect_of(leaves@, from) == rect_of(leaves@.skip(i as int), from),
        decreases n - i,
    {
        if leaves[i].0 == from {
            return Some(leaves[i].1);
        }
        assert(leaves@.skip(i as int).skip(1) =~= leaves@.skip(i + 1));
        i = i + 1;
    }
    None
}

fn collect_others(leaves: &[(LeafId, Rect)], from: LeafId) -> (r: Vec<(Rect, LeafId)>)
    ensures
        r@ == other_leaves(leaves@, from),
{
    let n = leaves.len();
    let mut out: Vec<(Rect, LeafId)> = Vec::new();
    let mut i: usize = 0;
    assert(leaves@.take(0) =~= Seq::<(LeafId, Rect)>::empty());
    while i < n
        invariant
            i <= n,
            n == leaves@.len(),
            out@ == other_leaves(leaves@.take(i as int), from),
        decreases n - i,
    {
        assert(leaves@.take(i + 1).drop_last() =~= leaves@.take(i as int));
        let (id, rect) = leaves[i];
        if id != from {
            out.push((rect, id));
        }
        i = i + 1;
    }
    assert(leaves@.take(n as int) =~= leaves@);
    out
}

/// Whether `focus_direction` can score these inputs within the range of
/// `i32` (its precondition).
pub fn focus_move_in_range(leaves: &[(LeafId, Rect)], from: LeafId, axis: FocusAxis) -> (r: bool)
    ensures
        r == focus_move_fits(leaves@, from, axis),
{
    let from_rect = match find_rect(leaves, from) {
        Some(fr) => fr,
        None => {
            return true;
        },
    };
    let candidates = collect_others(leaves, from);
    focus_scan_fits(&from_rect, candidates.as_slice(), axis)
}

/// Move focus from terminal `from` towards `axis`, given each terminal of
/// the tab with its rectangle in page coordinates. `None` when `from` is
/// not listed or no other terminal lies that way.
pub fn focus_direction(leaves: &[(LeafId, Rect)], from: LeafId, axis: FocusAxis) -> (r: Option<
    LeafId,
>)
    requires
        focus_move_fits(leaves@, from, axis),
    ensures
        match rect_of(leaves@, from) {
            None => r is None,
            Some(fr) => {
                &&& r is None <==> no_focus_target(fr, other_leaves(leaves@, from), axis)
                &&& r matches Some(t) ==> exists|i: int|
                    is_best_focus(fr, other_leaves(leaves@, from), axis, i)
                        && other_leaves(leaves@, from)[i].1 == t
            },
        },
{
    let from_rect = match find_rect(leaves, from) {
        Some(fr) => fr,
        None => {
            return None;
        },
    };
    let candidates = collect_others(leaves, from);
    find_best_focus(&from_rect, candidates.as_slice(), axis)
}

} // verus!

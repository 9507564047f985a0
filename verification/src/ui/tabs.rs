//! The tabs of the window: which pane tree each page holds, and how
//! splitting, closing and moving between tabs change them.
use vstd::prelude::*;

use crate::ui::pane::{
    close_leaf, close_outcome, close_tree, contains, contains_at, count_at, count_leaves,
    has_paned, leaf_contains, split_outcome, split_pane, split_tree, wf, Closed, LeafId, LeafSlot,
    Pane, PanedId, SplitDir,
};

verus! {

/// The page that "previous tab" switches to.
pub open spec fn prev_tab_spec(n_pages: u32, current: Option<u32>) -> Option<u32> {
    match current {
        Some(cur) => if n_pages > 1 {
            Some(
                if cur == 0 {
                    (n_pages - 1) as u32
                } else {
                    (cur - 1) as u32
                },
            )
        } else {
            None
        },
        None => None,
    }
}

/// The page that "next tab" switches to.
pub open spec fn next_tab_spec(n_pages: u32, current: Option<u32>) -> Option<u32> {
    match current {
        Some(cur) => if n_pages > 1 {
            Some(
                if cur >= n_pages - 1 {
                    0
                } else {
                    (cur + 1) as u32
                },
            )
        } else {
            None
        },
        None => None,
    }
}

/// The tab to switch to for "previous tab": one to the left, the last tab
/// from the first. `None` (stay) with fewer than two tabs or no current
/// tab.
pub fn prev_tab(n_pages: u32, current: Option<u32>) -> (r: Option<u32>)
    ensures
        r == prev_tab_spec(n_pages, current),
{
    match current {
        Some(cur) => {
            if n_pages > 1 {
                if cur == 0 {
                    Some(n_pages - 1)
                } else {
                    Some(cur - 1)
                }
            } else {
                None
            }
        },
        None => None,
    }
}

/// The tab to switch to for "next tab": one to the right, the first tab
/// from the last. `None` (stay) with fewer than two tabs or no current
/// tab.
pub fn next_tab(n_pages: u32, current: Option<u32>) -> (r: Option<u32>)
    ensures
        r == next_tab_spec(n_pages, current),
{
    match current {
        Some(cur) => {
            if n_pages > 1 {
                if cur >= n_pages - 1 {
                    Some(0)
                } else {
                    Some(cur + 1)
                }
            } else {
                None
            }
        },
        None => None,
    }
}

/// With two or more tabs, "previous" moves one tab to the left and
/// "next" one to the right; both stay among the tabs and undo each other;
/// from the first tab "previous" wraps to the last, and from the last
/// "next" wraps to the first.
pub proof fn law_tab_cycle(n_pages: u32, cur: u32)
    requires
        n_pages > 1,
        cur < n_pages,
    ensures
        prev_tab_spec(n_pages, Some(cur)) matches Some(p) && p < n_pages && next_tab_spec(
            n_pages,
            Some(p),
        ) == Some(cur),
        next_tab_spec(n_pages, Some(cur)) matches Some(q) && q < n_pages && prev_tab_spec(
            n_pages,
            Some(q),
        ) == Some(cur),
        cur == 0 ==> prev_tab_spec(n_pages, Some(cur)) == Some((n_pages - 1) as u32),
        cur == n_pages - 1 ==> next_tab_spec(n_pages, Some(cur)) == Some(0u32),
        cur > 0 ==> prev_tab_spec(n_pages, Some(cur)) == Some((cur - 1) as u32),
        cur + 1 < n_pages ==> next_tab_spec(n_pages, Some(cur)) == Some((cur + 1) as u32),
{
}

/// Names the page container of a tab.
pub type PageId = u64;

/// Information needed to manipulate a single tab's pane tree.
#[derive(Debug, PartialEq, Eq)]
pub struct TabState {
    /// The page container that holds the tab's pane tree.
    pub container: PageId,
    /// The tab's pane tree.
    pub pane: Pane,
    /// Terminal used for tab title updates and the tab-close confirmation.
    pub primary_terminal: LeafId,
}

/// `i` is the first tab whose page container is `container`.
pub open spec fn is_tab_of(tabs: Seq<TabState>, container: PageId, i: int) -> bool {
    &&& 0 <= i < tabs.len()
    &&& tabs[i].container == container
    &&& forall|j: int| 0 <= j < i ==> tabs[j].container != container
}

/// Position of the first tab whose page container is `container`.
pub open spec fn tab_index(tabs: Seq<TabState>, container: PageId) -> Option<int> {
    if exists|i: int| is_tab_of(tabs, container, i) {
        Some(choose|i: int| is_tab_of(tabs, container, i))
    } else {
        None
    }
}

/// `i` is the first tab whose pane tree holds terminal `focus`.
pub open spec fn is_tab_holding(tabs: Seq<TabState>, focus: LeafId, i: int) -> bool {
    &&& 0 <= i < tabs.len()
    &&& contains_at(tabs[i].pane, focus, 0)
    &&& forall|j: int| 0 <= j < i ==> !contains_at(#[trigger] tabs[j].pane, focus, 0)
}

/// Every tab's pane tree is well-formed.
pub open spec fn tabs_wf(tabs: Seq<TabState>) -> bool {
    forall|i: int| 0 <= i < tabs.len() ==> wf(#[trigger] tabs[i].pane)
}

/// No tab uses terminal `leaf` or split container `paned`.
pub open spec fn fresh_in_tabs(tabs: Seq<TabState>, leaf: LeafId, paned: PanedId) -> bool {
    forall|i: int|
        0 <= i < tabs.len() ==> !contains(#[trigger] tabs[i].pane, leaf) && !has_paned(
            tabs[i].pane,
            paned,
        )
}

/// Position of the tab whose page container is `container`.
pub fn tab_position(tabs: &Vec<TabState>, container: PageId) -> (r: Option<usize>)
    ensures
        match r {
            Some(i) => tab_index(tabs@, container) == Some(i as int),
            None => tab_index(tabs@, container) is None,
        },
{
    let n = tabs.len();
    let mut i: usize = 0;
    while i < n
        invariant
            i <= n,
            n == tabs@.len(),
            forall|j: int| 0 <= j < i ==> tabs@[j].container != container,
        decreases n - i,
    {
        if tabs[i].container == container {
            assert(is_tab_of(tabs@, container, i as int));
            proof {
                let k = choose|k: int| is_tab_of(tabs@, container, k);
                assert(k == i);
            }
            return Some(i);
        }
        i = i + 1;
    }
    assert(!exists|k: int| is_tab_of(tabs@, container, k));
    None
}

/// The first tab whose pane tree holds terminal `focus` (the tab whose
/// search bar the search toggle acts on).
pub fn tab_holding(tabs: &Vec<TabState>, focus: LeafId) -> (r: Option<usize>)
    ensures
        match r {
            Some(i) => is_tab_holding(tabs@, focus, i as int),
            None => forall|j: int| 0 <= j < tabs@.len() ==> !contains_at(#[trigger] tabs@[j].pane, focus, 0),
        },
{
    let n = tabs.len();
    let mut i: usize = 0;
    while i < n
        invariant
            i <= n,
            n == tabs@.len(),
            forall|j: int| 0 <= j < i ==> !contains_at(#[trigger] tabs@[j].pane, focus, 0),
        decreases n - i,
    {
        if leaf_contains(&tabs[i].pane, focus) {
            return Some(i);
        }
        i = i + 1;
    }
    None
}

/// Whether the close-pane control is enabled for the page shown: only
/// when that page's tab has more than one pane.
pub fn close_pane_enabled(tabs: &Vec<TabState>, page: Option<PageId>) -> (r: bool)
    requires
        forall|i: int| 0 <= i < tabs@.len() ==> count_at(#[trigger] tabs@[i].pane, 0) <= usize::MAX,
    ensures
        r == match page {
            Some(p) => match tab_index(tabs@, p) {
                Some(i) => count_at(tabs@[i].pane, 0) > 1,
                None => false,
            },
            None => false,
        },
{
    let p = match page {
        Some(p) => p,
        None => {
            return false;
        },
    };
    match tab_position(tabs, p) {
        Some(i) => count_leaves(&tabs[i].pane) > 1,
        None => false,
    }
}

/// Split the pane of terminal `focus` in the tab of page `container`; on
/// success the new terminal becomes the tab's primary terminal. Returns
/// what `split_pane` returns, or `None` when no tab has that page.
pub fn split_in_tab(
    tabs: &mut Vec<TabState>,
    container: PageId,
    focus: LeafId,
    new_leaf: LeafId,
    new_paned: PanedId,
    dir: SplitDir,
) -> (r: Option<(LeafId, Option<(PanedId, LeafSlot)>)>)
    requires
        tabs_wf(old(tabs)@),
        fresh_in_tabs(old(tabs)@, new_leaf, new_paned),
    ensures
        tabs_wf(final(tabs)@),
        match tab_index(old(tabs)@, container) {
            None => r is None && final(tabs)@ == old(tabs)@,
            Some(i) => {
                let old_tab = old(tabs)@[i];
                &&& r == split_outcome(old_tab.pane, focus, new_leaf)
                &&& final(tabs)@ == old(tabs)@.update(
                    i,
                    TabState {
                        container: old_tab.container,
                        pane: split_tree(old_tab.pane, focus, new_leaf, new_paned, dir),
                        primary_terminal: if r is Some {
                            new_leaf
                        } else {
                            old_tab.primary_terminal
                        },
                    },
                )
            },
        },
{
    let i = match tab_position(tabs, container) {
        Some(i) => i,
        None => {
            return None;
        },
    };
    let ghost before = tabs@;
    let mut tab = tabs.remove(i);
    assert(wf(tab.pane));
    let r = split_pane(&mut tab.pane, focus, new_leaf, new_paned, dir);
    if r.is_some() {
        tab.primary_terminal = new_leaf;
    }
    tabs.insert(i, tab);
    assert(tabs@ =~= before.update(i as int, tabs@[i as int]));
    r
}

/// Close the pane of terminal `focus` in the tab of page `container`.
/// When the split collapses and a terminal takes the focus, that
/// terminal becomes the tab's primary terminal; when the tab is left
/// with nothing to focus (its last pane closed), the tab is dropped.
/// Returns what `close_leaf` returns, or `None` when no tab has that
/// page.
pub fn close_pane(tabs: &mut Vec<TabState>, container: PageId, focus: LeafId) -> (r: Option<
    Result<Closed, ()>,
>)
    requires
        tabs_wf(old(tabs)@),
    ensures
        tabs_wf(final(tabs)@),
        match tab_index(old(tabs)@, container) {
            None => r is None && final(tabs)@ == old(tabs)@,
            Some(i) => {
                let old_tab = old(tabs)@[i];
                let outcome = close_outcome(old_tab.pane, focus);
                &&& r == Some(outcome)
                &&& final(tabs)@ == match outcome {
                    Ok(Closed::Collapsed { new_focus: Some(nf), .. }) => old(tabs)@.update(
                        i,
                        TabState {
                            container: old_tab.container,
                            pane: close_tree(old_tab.pane, focus),
                            primary_terminal: nf,
                        },
                    ),
                    Ok(_) => old(tabs)@.remove(i),
                    Err(_) => old(tabs)@,
                }
            },
        },
{
    let i = match tab_position(tabs, container) {
        Some(i) => i,
        None => {
            return None;
        },
    };
    let ghost before = tabs@;
    let mut tab = tabs.remove(i);
    assert(wf(tab.pane));
    let outcome = close_leaf(&mut tab.pane, focus);
    match outcome {
        Ok(Closed::Collapsed { new_focus: Some(nf), .. }) => {
            tab.primary_terminal = nf;
            tabs.insert(i, tab);
            assert(tabs@ =~= before.update(i as int, tabs@[i as int]));
        },
        Ok(_) => {
            assert(tabs@ =~= before.remove(i as int));
        },
        Err(_) => {
            tabs.insert(i, tab);
            assert(tabs@ =~= before);
        },
    }
    Some(outcome)
}

} // verus!

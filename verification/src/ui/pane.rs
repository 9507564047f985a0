//! The pane tree of one tab: a binary tree whose leaves are terminals and
//! whose inner nodes are split containers. Terminals and split containers
//! are named by plain identifiers; the window layer keeps the widgets.
use vstd::prelude::*;

verus! {

/// Maximum depth for pane tree traversals. Nodes deeper than this are
/// treated as absent by every walk, which guards the walks against runaway
/// recursion.
pub const MAX_TREE_DEPTH: usize = 1024;

/// Names a terminal leaf (its terminal, search bar and surrounding box).
pub type LeafId = u64;

/// Names the split container widget of an inner node.
pub type PanedId = u64;

/// How a split arranges its two children.
#[derive(Debug, Clone, Copy, PartialEq, Eq, Structural)]
pub enum SplitDir {
    /// Side by side (container laid out horizontally).
    Vertical,
    /// Stacked (container laid out vertically).
    Horizontal,
}

/// Layout orientation of a split container.
#[derive(Debug, Clone, Copy, PartialEq, Eq, Structural)]
pub enum Orientation {
    Horizontal,
    Vertical,
}

impl SplitDir {
    pub open spec fn spec_orientation(self) -> Orientation {
        match self {
            SplitDir::Vertical => Orientation::Horizontal,
            SplitDir::Horizontal => Orientation::Vertical,
        }
    }

    /// The container orientation that realises this split.
    pub fn orientation(self) -> (o: Orientation)
        ensures
            o == self.spec_orientation(),
    {
        match self {
            SplitDir::Vertical => Orientation::Horizontal,
            SplitDir::Horizontal => Orientation::Vertical,
        }
    }
}

/// Which child of a split container.
#[derive(Debug, Clone, Copy, PartialEq, Eq, Structural)]
pub enum LeafSlot {
    First,
    Second,
}

/// The top-level widget of a subtree: the box of a leaf or the container
/// of a split.
#[derive(Debug, Clone, Copy, PartialEq, Eq, Structural)]
pub enum PaneWidget {
    LeafBox(LeafId),
    Paned(PanedId),
}

/// Recursive pane tree.
#[derive(Debug, PartialEq, Eq)]
pub enum Pane {
    Leaf(LeafId),
    Split { dir: SplitDir, paned: PanedId, first: Box<Pane>, second: Box<Pane> },
}

/// What closing a leaf did to the tree.
#[derive(Debug, Clone, Copy, PartialEq, Eq)]
pub enum Closed {
    /// The tree was that single leaf: the whole tab should close.
    LastLeaf,
    /// The split directly around the leaf was replaced by its other child.
    Collapsed {
        /// First terminal of the surviving subtree, the next focus.
        new_focus: Option<LeafId>,
        /// Container of the split that went away.
        removed_paned: PanedId,
        /// Top-level widget of the surviving subtree.
        survivor: PaneWidget,
        /// Where the survivor now sits: `None` for the page itself,
        /// otherwise the enclosing container and slot.
        placement: Option<(PanedId, LeafSlot)>,
    },
}

impl Pane {
    pub open spec fn spec_widget(self) -> PaneWidget {
        match self {
            Pane::Leaf(id) => PaneWidget::LeafBox(id),
            Pane::Split { paned, .. } => PaneWidget::Paned(paned),
        }
    }

    /// The top-level widget of this subtree: a leaf's box or a split's
    /// container.
    pub fn widget(&self) -> (w: PaneWidget)
        ensures
            w == self.spec_widget(),
    {
        match self {
            Pane::Leaf(id) => PaneWidget::LeafBox(*id),
            Pane::Split { paned, .. } => PaneWidget::Paned(*paned),
        }
    }
}

// ----------------------------------------------------------------------
// Depth-limited views, as the walks see the tree.
// ----------------------------------------------------------------------

/// A walk started at depth `depth` meets leaf `target`.
pub open spec fn contains_at(t: Pane, target: LeafId, depth: int) -> bool
    decreases t,
{
    if depth > MAX_TREE_DEPTH {
        false
    } else {
        match t {
            Pane::Leaf(id) => id == target,
            Pane::Split { first, second, .. } => contains_at(*first, target, depth + 1)
                || contains_at(*second, target, depth + 1),
        }
    }
}

/// Number of leaves a walk started at depth `depth` meets.
pub open spec fn count_at(t: Pane, depth: int) -> nat
    decreases t,
{
    if depth > MAX_TREE_DEPTH {
        0
    } else {
        match t {
            Pane::Leaf(_) => 1,
            Pane::Split { first, second, .. } => count_at(*first, depth + 1) + count_at(
                *second,
                depth + 1,
            ),
        }
    }
}

/// The leaf reached by always taking the first child, if the walk reaches
/// one.
pub open spec fn first_leaf_at(t: Pane, depth: int) -> Option<LeafId>
    decreases t,
{
    if depth > MAX_TREE_DEPTH {
        None
    } else {
        match t {
            Pane::Leaf(id) => Some(id),
            Pane::Split { first, .. } => first_leaf_at(*first, depth + 1),
        }
    }
}

/// The first split, in pre-order, one of whose children has top-level
/// widget `w`, with the slot that child occupies.
pub open spec fn enclosing_at(t: Pane, w: PaneWidget, depth: int) -> Option<(PanedId, LeafSlot)>
    decreases t,
{
    if depth > MAX_TREE_DEPTH {
        None
    } else {
        match t {
            Pane::Leaf(_) => None,
            Pane::Split { paned, first, second, .. } => if first.spec_widget() == w {
                Some((paned, LeafSlot::First))
            } else if second.spec_widget() == w {
                Some((paned, LeafSlot::Second))
            } else {
                match enclosing_at(*first, w, depth + 1) {
                    Some(found) => Some(found),
                    None => enclosing_at(*second, w, depth + 1),
                }
            },
        }
    }
}

// ----------------------------------------------------------------------
// Whole-tree views.
// ----------------------------------------------------------------------

/// Leaf `id` occurs somewhere in the tree.
pub open spec fn contains(t: Pane, id: LeafId) -> bool
    decreases t,
{
    match t {
        Pane::Leaf(x) => x == id,
        Pane::Split { first, second, .. } => contains(*first, id) || contains(*second, id),
    }
}

/// Split container `p` occurs somewhere in the tree.
pub open spec fn has_paned(t: Pane, p: PanedId) -> bool
    decreases t,
{
    match t {
        Pane::Leaf(_) => false,
        Pane::Split { paned, first, second, .. } => paned == p || has_paned(*first, p) || has_paned(
            *second,
            p,
        ),
    }
}

/// Number of leaves.
pub open spec fn num_leaves(t: Pane) -> nat
    decreases t,
{
    match t {
        Pane::Leaf(_) => 1,
        Pane::Split { first, second, .. } => num_leaves(*first) + num_leaves(*second),
    }
}

/// Length of the longest path from the root to a node.
pub open spec fn height(t: Pane) -> nat
    decreases t,
{
    match t {
        Pane::Leaf(_) => 0,
        Pane::Split { first, second, .. } => {
            let a = height(*first);
            let b = height(*second);
            1 + if a >= b {
                a
            } else {
                b
            }
        },
    }
}

/// Well-formed: every terminal and every split container occurs at most
/// once, as the widgets they stand for do.
pub open spec fn wf(t: Pane) -> bool
    decreases t,
{
    match t {
        Pane::Leaf(_) => true,
        Pane::Split { paned, first, second, .. } => {
            &&& wf(*first)
            &&& wf(*second)
            &&& !has_paned(*first, paned)
            &&& !has_paned(*second, paned)
            &&& forall|id: LeafId| !(#[trigger] contains(*first, id) && contains(*second, id))
            &&& forall|p: PanedId| !(#[trigger] has_paned(*first, p) && has_paned(*second, p))
        },
    }
}

/// A split of `dir` in container `paned`, with leaf `focus` first and
/// leaf `new_leaf` second.
pub open spec fn split_node(dir: SplitDir, paned: PanedId, focus: LeafId, new_leaf: LeafId) -> Pane {
    Pane::Split {
        dir,
        paned,
        first: Box::new(Pane::Leaf(focus)),
        second: Box::new(Pane::Leaf(new_leaf)),
    }
}

/// The tree with every leaf `focus` replaced by `sub`.
pub open spec fn replace_leaf(t: Pane, focus: LeafId, sub: Pane) -> Pane
    decreases t,
{
    match t {
        Pane::Leaf(id) => if id == focus {
            sub
        } else {
            t
        },
        Pane::Split { dir, paned, first, second } => Pane::Split {
            dir,
            paned,
            first: Box::new(replace_leaf(*first, focus, sub)),
            second: Box::new(replace_leaf(*second, focus, sub)),
        },
    }
}

/// The tree with each split that has leaf `focus` as a child replaced by
/// its other child.
pub open spec fn collapse(t: Pane, focus: LeafId) -> Pane
    decreases t,
{
    match t {
        Pane::Leaf(_) => t,
        Pane::Split { dir, paned, first, second } => if *first == Pane::Leaf(focus) {
            *second
        } else if *second == Pane::Leaf(focus) {
            *first
        } else {
            Pane::Split {
                dir,
                paned,
                first: Box::new(collapse(*first, focus)),
                second: Box::new(collapse(*second, focus)),
            }
        },
    }
}

/// The container of the split directly around leaf `focus`, and the
/// other child of that split.
pub open spec fn closing_split(t: Pane, focus: LeafId) -> Option<(PanedId, Pane)>
    decreases t,
{
    match t {
        Pane::Leaf(_) => None,
        Pane::Split { paned, first, second, .. } => if *first == Pane::Leaf(focus) {
            Some((paned, *second))
        } else if *second == Pane::Leaf(focus) {
            Some((paned, *first))
        } else {
            match closing_split(*first, focus) {
                Some(found) => Some(found),
                None => closing_split(*second, focus),
            }
        },
    }
}

/// What `split_pane` returns for tree `t`.
pub open spec fn split_outcome(t: Pane, focus: LeafId, new_leaf: LeafId) -> Option<
    (LeafId, Option<(PanedId, LeafSlot)>),
> {
    if contains_at(t, focus, 0) {
        Some((new_leaf, enclosing_at(t, PaneWidget::LeafBox(focus), 0)))
    } else {
        None
    }
}

/// The tree that `split_pane` leaves behind.
pub open spec fn split_tree(
    t: Pane,
    focus: LeafId,
    new_leaf: LeafId,
    new_paned: PanedId,
    dir: SplitDir,
) -> Pane {
    if contains_at(t, focus, 0) {
        replace_leaf(t, focus, split_node(dir, new_paned, focus, new_leaf))
    } else {
        t
    }
}

/// What `close_leaf` returns for tree `t`.
pub open spec fn close_outcome(t: Pane, focus: LeafId) -> Result<Closed, ()> {
    match t {
        Pane::Leaf(id) => if id == focus {
            Ok(Closed::LastLeaf)
        } else {
            Err(())
        },
        Pane::Split { .. } => if !contains_at(t, focus, 0) {
            Err(())
        } else {
            match closing_split(t, focus) {
                Some((p, survivor)) => Ok(
                    Closed::Collapsed {
                        new_focus: first_leaf_at(survivor, 0),
                        removed_paned: p,
                        survivor: survivor.spec_widget(),
                        placement: enclosing_at(t, PaneWidget::Paned(p), 0),
                    },
                ),
                None => Err(()),
            }
        },
    }
}

/// The tree that `close_leaf` leaves behind.
pub open spec fn close_tree(t: Pane, focus: LeafId) -> Pane {
    match close_outcome(t, focus) {
        Ok(Closed::Collapsed { .. }) => collapse(t, focus),
        _ => t,
    }
}

// ----------------------------------------------------------------------
// Walks.
// ----------------------------------------------------------------------

fn leaf_contains_depth(node: &Pane, target: LeafId, depth: usize) -> (r: bool)
    requires
        depth <= MAX_TREE_DEPTH + 1,
    ensures
        r == contains_at(*node, target, depth as int),
    decreases node,
{
    if depth > MAX_TREE_DEPTH {
        return false;
    }
    match node {
        Pane::Leaf(id) => *id == target,
        Pane::Split { first, second, .. } => leaf_contains_depth(first, target, depth + 1)
            || leaf_contains_depth(second, target, depth + 1),
    }
}

/// Whether the tree holds the leaf of terminal `target`.
pub fn leaf_contains(node: &Pane, target: LeafId) -> (r: bool)
    ensures
        r == contains_at(*node, target, 0),
{
    leaf_contains_depth(node, target, 0)
}

/// The leaf whose search bar belongs to terminal `target`, if the tree
/// holds it.
pub fn search_bar_for_leaf(root: &Pane, target: LeafId) -> (r: Option<LeafId>)
    ensures
        r == (if contains_at(*root, target, 0) {
            Some(target)
        } else {
            None
        }),
{
    if leaf_contains_depth(root, target, 0) {
        Some(target)
    } else {
        None
    }
}

fn count_leaves_depth(node: &Pane, depth: usize) -> (r: usize)
    requires
        depth <= MAX_TREE_DEPTH + 1,
        count_at(*node, depth as int) <= usize::MAX,
    ensures
        r == count_at(*node, depth as int),
    decreases node,
{
    if depth > MAX_TREE_DEPTH {
        return 0;
    }
    match node {
        Pane::Leaf(_) => 1,
        Pane::Split { first, second, .. } => {
            let a = count_leaves_depth(first, depth + 1);
            let b = count_leaves_depth(second, depth + 1);
            a + b
        },
    }
}

/// Count the leaves of the pane tree.
pub fn count_leaves(node: &Pane) -> (r: usize)
    requires
        count_at(*node, 0) <= usize::MAX,
    ensures
        r == count_at(*node, 0),
{
    count_leaves_depth(node, 0)
}

fn first_terminal_depth(node: &Pane, depth: usize) -> (r: Option<LeafId>)
    requires
        depth <= MAX_TREE_DEPTH + 1,
    ensures
        r == first_leaf_at(*node, depth as int),
    decreases node,
{
    if depth > MAX_TREE_DEPTH {
        return None;
    }
    match node {
        Pane::Leaf(id) => Some(*id),
        Pane::Split { first, .. } => first_terminal_depth(first, depth + 1),
    }
}

/// The first terminal of the tree, depth-first and first child first.
pub fn first_terminal_rc(node: &Pane) -> (r: Option<LeafId>)
    ensures
        r == first_leaf_at(*node, 0),
{
    first_terminal_depth(node, 0)
}

fn find_enclosing_paned_depth(node: &Pane, target: PaneWidget, depth: usize) -> (r: Option<
    (PanedId, LeafSlot),
>)
    requires
        depth <= MAX_TREE_DEPTH + 1,
    ensures
        r == enclosing_at(*node, target, depth as int),
    decreases node,
{
    if depth > MAX_TREE_DEPTH {
        return None;
    }
    match node {
        Pane::Leaf(_) => None,
        Pane::Split { paned, first, second, .. } => {
            if first.widget() == target {
                return Some((*paned, LeafSlot::First));
            }
            if second.widget() == target {
                return Some((*paned, LeafSlot::Second));
            }
            match find_enclosing_paned_depth(first, target, depth + 1) {
                Some(found) => Some(found),
                None => find_enclosing_paned_depth(second, target, depth + 1),
            }
        },
    }
}

/// The split container one of whose children has top-level widget
/// `target`, and the slot of that child.
pub fn find_enclosing_paned(node: &Pane, target: PaneWidget) -> (r: Option<(PanedId, LeafSlot)>)
    ensures
        r == enclosing_at(*node, target, 0),
{
    find_enclosing_paned_depth(node, target, 0)
}

// ----------------------------------------------------------------------
// Rewrites.
// ----------------------------------------------------------------------

fn is_leaf_of(node: &Pane, id: LeafId) -> (r: bool)
    ensures
        r == (*node == Pane::Leaf(id)),
{
    match node {
        Pane::Leaf(x) => *x == id,
        Pane::Split { .. } => false,
    }
}

fn replace_with_split(t: Pane, focus: LeafId, new_leaf: LeafId, new_paned: PanedId, dir: SplitDir) -> (r:
    Pane)
    ensures
        r == replace_leaf(t, focus, split_node(dir, new_paned, focus, new_leaf)),
    decreases t,
{
    match t {
        Pane::Leaf(id) => {
            if id == focus {
                Pane::Split {
                    dir,
                    paned: new_paned,
                    first: Box::new(Pane::Leaf(id)),
                    second: Box::new(Pane::Leaf(new_leaf)),
                }
            } else {
                Pane::Leaf(id)
            }
        },
        Pane::Split { dir: d, paned, first, second } => {
            let f = replace_with_split(*first, focus, new_leaf, new_paned, dir);
            let s = replace_with_split(*second, focus, new_leaf, new_paned, dir);
            Pane::Split { dir: d, paned, first: Box::new(f), second: Box::new(s) }
        },
    }
}

fn collapse_around(t: Pane, focus: LeafId) -> (r: Pane)
    ensures
        r == collapse(t, focus),
    decreases t,
{
    match t {
        Pane::Leaf(id) => Pane::Leaf(id),
        Pane::Split { dir, paned, first, second } => {
            if is_leaf_of(&first, focus) {
                *second
            } else if is_leaf_of(&second, focus) {
                *first
            } else {
                let f = collapse_around(*first, focus);
                let s = collapse_around(*second, focus);
                Pane::Split { dir, paned, first: Box::new(f), second: Box::new(s) }
            }
        },
    }
}

fn closing_split_of<'a>(node: &'a Pane, focus: LeafId) -> (r: Option<(PanedId, &'a Pane)>)
    ensures
        match r {
            Some((p, s)) => closing_split(*node, focus) == Some((p, *s)),
            None => closing_split(*node, focus) is None,
        },
    decreases node,
{
    match node {
        Pane::Leaf(_) => None,
        Pane::Split { paned, first, second, .. } => {
            if is_leaf_of(first, focus) {
                Some((*paned, &**second))
            } else if is_leaf_of(second, focus) {
                Some((*paned, &**first))
            } else {
                match closing_split_of(first, focus) {
                    Some(found) => Some(found),
                    None => closing_split_of(second, focus),
                }
            }
        },
    }
}

/// Split the leaf of terminal `focus` in direction `dir`: the leaf is
/// replaced by a split in the fresh container `new_paned` whose first
/// child is the old leaf and whose second child is the fresh leaf
/// `new_leaf`. Returns the new terminal and where the new container goes
/// (`None`: directly in the page; otherwise the enclosing container and
/// slot), or `None` when the tree does not hold `focus`.
pub fn split_pane(
    page_pane: &mut Pane,
    focus: LeafId,
    new_leaf: LeafId,
    new_paned: PanedId,
    dir: SplitDir,
) -> (r: Option<(LeafId, Option<(PanedId, LeafSlot)>)>)
    requires
        wf(*old(page_pane)),
        !contains(*old(page_pane), new_leaf),
        !has_paned(*old(page_pane), new_paned),
    ensures
        r == split_outcome(*old(page_pane), focus, new_leaf),
        *final(page_pane) == split_tree(*old(page_pane), focus, new_leaf, new_paned, dir),
        wf(*final(page_pane)),
{
    if !leaf_contains(page_pane, focus) {
        return None;
    }
    let placement = find_enclosing_paned(page_pane, PaneWidget::LeafBox(focus));
    let mut tree = Pane::Leaf(focus);
    std::mem::swap(&mut tree, page_pane);
    let ghost before = tree;
    let after = replace_with_split(tree, focus, new_leaf, new_paned, dir);
    proof {
        lemma_contains_at_contains(before, focus, 0);
        lemma_split_wf(before, focus, new_leaf, new_paned, dir);
    }
    *page_pane = after;
    Some((new_leaf, placement))
}

/// Close the leaf of terminal `focus`. A tree that is that single leaf is
/// left as it is and reported as `LastLeaf`; otherwise the split directly
/// around the leaf is replaced by its other child. `Err` when the tree
/// does not hold `focus`.
pub fn close_leaf(page_pane: &mut Pane, focus: LeafId) -> (r: Result<Closed, ()>)
    requires
        wf(*old(page_pane)),
    ensures
        r == close_outcome(*old(page_pane), focus),
        *final(page_pane) == close_tree(*old(page_pane), focus),
        wf(*final(page_pane)),
{
    if let Pane::Leaf(id) = &*page_pane {
        if *id == focus {
            return Ok(Closed::LastLeaf);
        } else {
            return Err(());
        }
    }
    if !leaf_contains(page_pane, focus) {
        return Err(());
    }
    let (removed_paned, survivor, new_focus) = match closing_split_of(page_pane, focus) {
        Some((p, s)) => (p, s.widget(), first_terminal_rc(s)),
        None => {
            return Err(());
        },
    };
    let placement = find_enclosing_paned(page_pane, PaneWidget::Paned(removed_paned));
    let mut tree = Pane::Leaf(focus);
    std::mem::swap(&mut tree, page_pane);
    let ghost before = tree;
    let after = collapse_around(tree, focus);
    proof {
        lemma_collapse_wf(before, focus);
    }
    *page_pane = after;
    Ok(Closed::Collapsed { new_focus, removed_paned, survivor, placement })
}

// ----------------------------------------------------------------------
// Lemmas.
// ----------------------------------------------------------------------

/// A walk only meets leaves that are in the tree.
pub proof fn lemma_contains_at_contains(t: Pane, id: LeafId, depth: int)
    ensures
        contains_at(t, id, depth) ==> contains(t, id),
    decreases t,
{
    match t {
        Pane::Leaf(_) => {},
        Pane::Split { first, second, .. } => {
            lemma_contains_at_contains(*first, id, depth + 1);
            lemma_contains_at_contains(*second, id, depth + 1);
        },
    }
}

proof fn lemma_replace_contains(t: Pane, focus: LeafId, sub: Pane, id: LeafId)
    ensures
        contains(replace_leaf(t, focus, sub), id) == ((contains(t, id) && id != focus) || (
        contains(t, focus) && contains(sub, id))),
    decreases t,
{
    match t {
        Pane::Leaf(_) => {},
        Pane::Split { first, second, .. } => {
            lemma_replace_contains(*first, focus, sub, id);
            lemma_replace_contains(*second, focus, sub, id);
        },
    }
}

proof fn lemma_replace_has_paned(t: Pane, focus: LeafId, sub: Pane, p: PanedId)
    ensures
        has_paned(replace_leaf(t, focus, sub), p) == (has_paned(t, p) || (contains(t, focus)
            && has_paned(sub, p))),
    decreases t,
{
    match t {
        Pane::Leaf(_) => {},
        Pane::Split { first, second, .. } => {
            lemma_replace_has_paned(*first, focus, sub, p);
            lemma_replace_has_paned(*second, focus, sub, p);
        },
    }
}

proof fn lemma_replace_absent(t: Pane, focus: LeafId, sub: Pane)
    requires
        !contains(t, focus),
    ensures
        replace_leaf(t, focus, sub) == t,
    decreases t,
{
    match t {
        Pane::Leaf(_) => {},
        Pane::Split { first, second, .. } => {
            lemma_replace_absent(*first, focus, sub);
            lemma_replace_absent(*second, focus, sub);
        },
    }
}

/// Splitting a leaf with fresh identifiers keeps the tree well-formed.
pub proof fn lemma_split_wf(t: Pane, focus: LeafId, new_leaf: LeafId, new_paned: PanedId, dir: SplitDir)
    requires
        wf(t),
        !contains(t, new_leaf),
        !has_paned(t, new_paned),
        contains(t, focus),
    ensures
        wf(replace_leaf(t, focus, split_node(dir, new_paned, focus, new_leaf))),
    decreases t,
{
    let sub = split_node(dir, new_paned, focus, new_leaf);
    match t {
        Pane::Leaf(_) => {
            assert(focus != new_leaf);
            assert(wf(sub)) by {
                reveal_with_fuel(wf, 2);
                assert forall|id: LeafId|
                    !(#[trigger] contains(Pane::Leaf(focus), id) && contains(
                        Pane::Leaf(new_leaf),
                        id,
                    )) by {}
            }
            assert(replace_leaf(t, focus, sub) == sub);
        },
        Pane::Split { paned, first, second, .. } => {
            let f2 = replace_leaf(*first, focus, sub);
            let s2 = replace_leaf(*second, focus, sub);
            if contains(*first, focus) {
                lemma_split_wf(*first, focus, new_leaf, new_paned, dir);
                lemma_replace_absent(*second, focus, sub);
            } else {
                lemma_split_wf(*second, focus, new_leaf, new_paned, dir);
                lemma_replace_absent(*first, focus, sub);
            }
            lemma_replace_has_paned(*first, focus, sub, paned);
            lemma_replace_has_paned(*second, focus, sub, paned);
            assert(has_paned(sub, paned) == (paned == new_paned)) by {
                reveal_with_fuel(has_paned, 2);
            }
            assert forall|id: LeafId| !(#[trigger] contains(f2, id) && contains(s2, id)) by {
                lemma_replace_contains(*first, focus, sub, id);
                lemma_replace_contains(*second, focus, sub, id);
                assert(contains(sub, id) == (id == focus || id == new_leaf)) by {
                    reveal_with_fuel(contains, 2);
                }
                assert(!(contains(*first, id) && contains(*second, id)));
                assert(!(contains(*first, focus) && contains(*second, focus)));
            }
            assert forall|p: PanedId| !(#[trigger] has_paned(f2, p) && has_paned(s2, p)) by {
                lemma_replace_has_paned(*first, focus, sub, p);
                lemma_replace_has_paned(*second, focus, sub, p);
                assert(has_paned(sub, p) == (p == new_paned)) by {
                    reveal_with_fuel(has_paned, 2);
                }
                assert(!(has_paned(*first, p) && has_paned(*second, p)));
            }
        },
    }
}

proof fn lemma_collapse_contains(t: Pane, focus: LeafId, id: LeafId)
    ensures
        contains(collapse(t, focus), id) ==> contains(t, id),
    decreases t,
{
    match t {
        Pane::Leaf(_) => {},
        Pane::Split { first, second, .. } => {
            lemma_collapse_contains(*first, focus, id);
            lemma_collapse_contains(*second, focus, id);
        },
    }
}

proof fn lemma_collapse_has_paned(t: Pane, focus: LeafId, p: PanedId)
    ensures
        has_paned(collapse(t, focus), p) ==> has_paned(t, p),
    decreases t,
{
    match t {
        Pane::Leaf(_) => {},
        Pane::Split { first, second, .. } => {
            lemma_collapse_has_paned(*first, focus, p);
            lemma_collapse_has_paned(*second, focus, p);
        },
    }
}

/// Collapsing the split around a leaf keeps the tree well-formed.
pub proof fn lemma_collapse_wf(t: Pane, focus: LeafId)
    requires
        wf(t),
    ensures
        wf(collapse(t, focus)),
    decreases t,
{
    match t {
        Pane::Leaf(_) => {},
        Pane::Split { paned, first, second, .. } => {
            lemma_collapse_wf(*first, focus);
            lemma_collapse_wf(*second, focus);
            let f2 = collapse(*first, focus);
            let s2 = collapse(*second, focus);
            lemma_collapse_has_paned(*first, focus, paned);
            lemma_collapse_has_paned(*second, focus, paned);
            assert forall|id: LeafId| !(#[trigger] contains(f2, id) && contains(s2, id)) by {
                lemma_collapse_contains(*first, focus, id);
                lemma_collapse_contains(*second, focus, id);
            }
            assert forall|p: PanedId| !(#[trigger] has_paned(f2, p) && has_paned(s2, p)) by {
                lemma_collapse_has_paned(*first, focus, p);
                lemma_collapse_has_paned(*second, focus, p);
            }
        },
    }
}

proof fn lemma_contains_at_of_height(t: Pane, id: LeafId, depth: int)
    requires
        contains(t, id),
        0 <= depth,
        depth + height(t) <= MAX_TREE_DEPTH,
    ensures
        contains_at(t, id, depth),
    decreases t,
{
    match t {
        Pane::Leaf(_) => {},
        Pane::Split { first, second, .. } => {
            if contains(*first, id) {
                lemma_contains_at_of_height(*first, id, depth + 1);
            } else {
                lemma_contains_at_of_height(*second, id, depth + 1);
            }
        },
    }
}

proof fn lemma_count_at_of_height(t: Pane, depth: int)
    requires
        0 <= depth,
        depth + height(t) <= MAX_TREE_DEPTH,
    ensures
        count_at(t, depth) == num_leaves(t),
    decreases t,
{
    match t {
        Pane::Leaf(_) => {},
        Pane::Split { first, second, .. } => {
            lemma_count_at_of_height(*first, depth + 1);
            lemma_count_at_of_height(*second, depth + 1);
        },
    }
}

proof fn lemma_replace_num_leaves(t: Pane, focus: LeafId, sub: Pane)
    requires
        wf(t),
    ensures
        num_leaves(replace_leaf(t, focus, sub)) + (if contains(t, focus) {
            1int
        } else {
            0
        }) == num_leaves(t) + (if contains(t, focus) {
            num_leaves(sub) as int
        } else {
            0
        }),
    decreases t,
{
    match t {
        Pane::Leaf(_) => {},
        Pane::Split { first, second, .. } => {
            lemma_replace_num_leaves(*first, focus, sub);
            lemma_replace_num_leaves(*second, focus, sub);
            assert(!(contains(*first, focus) && contains(*second, focus)));
        },
    }
}

proof fn lemma_replace_height(t: Pane, focus: LeafId, sub: Pane)
    ensures
        height(replace_leaf(t, focus, sub)) <= height(t) + height(sub),
    decreases t,
{
    match t {
        Pane::Leaf(_) => {},
        Pane::Split { first, second, .. } => {
            lemma_replace_height(*first, focus, sub);
            lemma_replace_height(*second, focus, sub);
        },
    }
}

proof fn lemma_closing_absent(t: Pane, id: LeafId)
    requires
        !contains(t, id),
    ensures
        closing_split(t, id) is None,
    decreases t,
{
    match t {
        Pane::Leaf(_) => {},
        Pane::Split { first, second, .. } => {
            lemma_closing_absent(*first, id);
            lemma_closing_absent(*second, id);
        },
    }
}

proof fn lemma_collapse_absent(t: Pane, id: LeafId)
    requires
        !contains(t, id),
    ensures
        collapse(t, id) == t,
    decreases t,
{
    match t {
        Pane::Leaf(_) => {},
        Pane::Split { first, second, .. } => {
            lemma_collapse_absent(*first, id);
            lemma_collapse_absent(*second, id);
        },
    }
}

proof fn lemma_split_undone(t: Pane, focus: LeafId, new_leaf: LeafId, new_paned: PanedId, dir: SplitDir)
    requires
        wf(t),
        contains(t, focus),
        !contains(t, new_leaf),
    ensures
        ({
            let t1 = replace_leaf(t, focus, split_node(dir, new_paned, focus, new_leaf));
            &&& t1 is Split
            &&& closing_split(t1, new_leaf) == Some((new_paned, Pane::Leaf(focus)))
            &&& collapse(t1, new_leaf) == t
        }),
    decreases t,
{
    let sub = split_node(dir, new_paned, focus, new_leaf);
    match t {
        Pane::Leaf(x) => {
            assert(focus != new_leaf);
            assert(x == focus);
            assert(replace_leaf(t, focus, sub) == sub);
            assert(Pane::Leaf(focus) != Pane::Leaf(new_leaf));
            assert(sub is Split);
            assert(closing_split(sub, new_leaf) == Some((new_paned, Pane::Leaf(focus))));
            assert(collapse(sub, new_leaf) == t);
        },
        Pane::Split { first, second, .. } => {
            if contains(*first, focus) {
                lemma_split_undone(*first, focus, new_leaf, new_paned, dir);
                lemma_closing_absent(*second, new_leaf);
                lemma_collapse_absent(*second, new_leaf);
                lemma_replace_absent(*second, focus, sub);
                assert(!contains(*second, new_leaf));
                assert(*second != Pane::Leaf(new_leaf));
            } else {
                lemma_split_undone(*second, focus, new_leaf, new_paned, dir);
                lemma_closing_absent(*first, new_leaf);
                lemma_collapse_absent(*first, new_leaf);
                lemma_replace_absent(*first, focus, sub);
                assert(!contains(*first, new_leaf));
                assert(*first != Pane::Leaf(new_leaf));
            }
        },
    }
}

proof fn lemma_collapse_effect(t: Pane, focus: LeafId)
    requires
        wf(t),
        t is Split,
        contains(t, focus),
    ensures
        num_leaves(collapse(t, focus)) + 1 == num_leaves(t),
        height(collapse(t, focus)) <= height(t),
        forall|id: LeafId|
            #[trigger] contains(collapse(t, focus), id) == (contains(t, id) && id != focus),
        closing_split(t, focus) is Some,
    decreases t,
{
    match t {
        Pane::Leaf(_) => {},
        Pane::Split { first, second, .. } => {
            assert(!(contains(*first, focus) && contains(*second, focus)));
            assert(num_leaves(t) == num_leaves(*first) + num_leaves(*second));
            assert(contains(*first, focus) || contains(*second, focus));
            if *first == Pane::Leaf(focus) {
                assert(num_leaves(*first) == 1);
            } else if *second == Pane::Leaf(focus) {
                assert(num_leaves(*second) == 1);
            } else if contains(*first, focus) {
                if let Pane::Leaf(x) = *first {
                    assert(x == focus);
                }
                lemma_collapse_effect(*first, focus);
                lemma_collapse_absent(*second, focus);
            } else {
                if let Pane::Leaf(x) = *second {
                    assert(x == focus);
                }
                lemma_collapse_effect(*second, focus);
                lemma_collapse_absent(*first, focus);
            }
            assert forall|id: LeafId|
                #[trigger] contains(collapse(t, focus), id) == (contains(t, id) && id != focus) by {
                assert(!(contains(*first, id) && contains(*second, id)));
                assert(contains(t, id) == (contains(*first, id) || contains(*second, id)));
                if *first == Pane::Leaf(focus) {
                    assert(contains(*first, id) == (id == focus));
                } else if *second == Pane::Leaf(focus) {
                    assert(contains(*second, id) == (id == focus));
                } else {
                    let cf = collapse(*first, focus);
                    let cs = collapse(*second, focus);
                    assert(contains(collapse(t, focus), id) == (contains(cf, id) || contains(cs, id)));
                    if contains(*first, focus) {
                        assert(contains(cf, id) == (contains(*first, id) && id != focus));
                        assert(!contains(*second, focus));
                    } else {
                        assert(contains(cs, id) == (contains(*second, id) && id != focus));
                        assert(!contains(*first, focus));
                    }
                }
            }
        },
    }
}

proof fn lemma_first_leaf_contains(t: Pane, depth: int)
    ensures
        first_leaf_at(t, depth) matches Some(x) ==> contains(t, x),
    decreases t,
{
    match t {
        Pane::Leaf(_) => {},
        Pane::Split { first, .. } => {
            lemma_first_leaf_contains(*first, depth + 1);
        },
    }
}

proof fn lemma_closing_split_survivor(t: Pane, focus: LeafId, id: LeafId)
    requires
        wf(t),
        closing_split(t, focus) is Some,
        contains((closing_split(t, focus)->0).1, id),
    ensures
        contains(t, id),
        id != focus,
    decreases t,
{
    match t {
        Pane::Leaf(_) => {},
        Pane::Split { first, second, .. } => {
            assert(!(contains(*first, id) && contains(*second, id)));
            if *first == Pane::Leaf(focus) {
            } else if *second == Pane::Leaf(focus) {
            } else if closing_split(*first, focus) is Some {
                lemma_closing_split_survivor(*first, focus, id);
            } else {
                lemma_closing_split_survivor(*second, focus, id);
            }
        },
    }
}

// ----------------------------------------------------------------------
// Laws.
// ----------------------------------------------------------------------

/// Closing the pane that a split has just created undoes the split: the
/// tree is as before, the split's container is the one removed, and focus
/// returns to the pane that was split.
pub proof fn law_close_undoes_split(
    t: Pane,
    focus: LeafId,
    new_leaf: LeafId,
    new_paned: PanedId,
    dir: SplitDir,
)
    requires
        wf(t),
        contains(t, focus),
        !contains(t, new_leaf),
        !has_paned(t, new_paned),
        height(t) < MAX_TREE_DEPTH,
    ensures
        split_outcome(t, focus, new_leaf) is Some,
        ({
            let t1 = split_tree(t, focus, new_leaf, new_paned, dir);
            &&& close_tree(t1, new_leaf) == t
            &&& close_outcome(t1, new_leaf) matches Ok(Closed::Collapsed { new_focus, removed_paned, survivor, .. })
                && new_focus == Some(focus) && removed_paned == new_paned && survivor
                == PaneWidget::LeafBox(focus)
        }),
{
    let sub = split_node(dir, new_paned, focus, new_leaf);
    lemma_contains_at_of_height(t, focus, 0);
    let t1 = replace_leaf(t, focus, sub);
    lemma_split_undone(t, focus, new_leaf, new_paned, dir);
    lemma_replace_height(t, focus, sub);
    assert(height(sub) == 1) by {
        reveal_with_fuel(height, 2);
    }
    lemma_replace_contains(t, focus, sub, new_leaf);
    assert(contains(sub, new_leaf)) by {
        reveal_with_fuel(contains, 2);
    }
    lemma_contains_at_of_height(t1, new_leaf, 0);
    assert(first_leaf_at(Pane::Leaf(focus), 0) == Some(focus));
}

/// Splitting a pane adds exactly the new terminal: the leaf count grows by
/// one and every other terminal stays.
pub proof fn law_split_adds_one_leaf(
    t: Pane,
    focus: LeafId,
    new_leaf: LeafId,
    new_paned: PanedId,
    dir: SplitDir,
)
    requires
        wf(t),
        contains(t, focus),
        !contains(t, new_leaf),
        !has_paned(t, new_paned),
        height(t) < MAX_TREE_DEPTH,
    ensures
        ({
            let t1 = split_tree(t, focus, new_leaf, new_paned, dir);
            &&& count_at(t1, 0) == count_at(t, 0) + 1
            &&& forall|id: LeafId| #[trigger] contains(t1, id) == (contains(t, id) || id == new_leaf)
            &&& contains_at(t1, new_leaf, 0)
            &&& wf(t1)
        }),
{
    let sub = split_node(dir, new_paned, focus, new_leaf);
    lemma_contains_at_of_height(t, focus, 0);
    let t1 = replace_leaf(t, focus, sub);
    lemma_replace_height(t, focus, sub);
    assert(height(sub) == 1) by {
        reveal_with_fuel(height, 2);
    }
    assert(num_leaves(sub) == 2) by {
        reveal_with_fuel(num_leaves, 2);
    }
    lemma_replace_num_leaves(t, focus, sub);
    lemma_count_at_of_height(t, 0);
    lemma_count_at_of_height(t1, 0);
    assert forall|id: LeafId| #[trigger] contains(t1, id) == (contains(t, id) || id == new_leaf) by {
        lemma_replace_contains(t, focus, sub, id);
        assert(contains(sub, id) == (id == focus || id == new_leaf)) by {
            reveal_with_fuel(contains, 2);
        }
    }
    lemma_contains_at_of_height(t1, new_leaf, 0);
    lemma_split_wf(t, focus, new_leaf, new_paned, dir);
}

/// Closing a pane of a split tree removes exactly that terminal: the leaf
/// count drops by one, every other terminal stays, and the terminal that
/// takes the focus is one that stays.
pub proof fn law_close_removes_one_leaf(t: Pane, focus: LeafId)
    requires
        wf(t),
        t is Split,
        contains(t, focus),
        height(t) <= MAX_TREE_DEPTH,
    ensures
        ({
            let t1 = close_tree(t, focus);
            &&& close_outcome(t, focus) matches Ok(Closed::Collapsed { new_focus, .. }) && (
            new_focus matches Some(x) ==> contains(t1, x))
            &&& count_at(t1, 0) + 1 == count_at(t, 0)
            &&& forall|id: LeafId| #[trigger] contains(t1, id) == (contains(t, id) && id != focus)
            &&& wf(t1)
        }),
{
    lemma_contains_at_of_height(t, focus, 0);
    lemma_collapse_effect(t, focus);
    let t1 = collapse(t, focus);
    lemma_count_at_of_height(t, 0);
    lemma_count_at_of_height(t1, 0);
    lemma_collapse_wf(t, focus);
    let survivor = (closing_split(t, focus)->0).1;
    lemma_first_leaf_contains(survivor, 0);
    if first_leaf_at(survivor, 0) is Some {
        lemma_closing_split_survivor(t, focus, first_leaf_at(survivor, 0)->0);
    }
}

/// Widget `w` belongs to the tree: a leaf box of one of its terminals or
/// one of its split containers.
pub open spec fn holds_widget(t: Pane, w: PaneWidget) -> bool {
    match w {
        PaneWidget::LeafBox(id) => contains(t, id),
        PaneWidget::Paned(p) => has_paned(t, p),
    }
}

proof fn lemma_enclosing_absent(t: Pane, w: PaneWidget, depth: int)
    requires
        !holds_widget(t, w),
    ensures
        enclosing_at(t, w, depth) is None,
    decreases t,
{
    match t {
        Pane::Leaf(_) => {},
        Pane::Split { first, second, .. } => {
            assert(!holds_widget(*first, w) && !holds_widget(*second, w));
            assert(first.spec_widget() != w) by {
                match *first {
                    Pane::Leaf(id) => {},
                    Pane::Split { paned, .. } => {},
                }
            }
            assert(second.spec_widget() != w) by {
                match *second {
                    Pane::Leaf(id) => {},
                    Pane::Split { paned, .. } => {},
                }
            }
            lemma_enclosing_absent(*first, w, depth + 1);
            lemma_enclosing_absent(*second, w, depth + 1);
        },
    }
}

proof fn lemma_enclosing_found(t: Pane, w: PaneWidget, depth: int)
    requires
        holds_widget(t, w),
        t.spec_widget() != w,
        0 <= depth,
        depth + height(t) <= MAX_TREE_DEPTH,
    ensures
        enclosing_at(t, w, depth) is Some,
    decreases t,
{
    match t {
        Pane::Leaf(id) => {
            if let PaneWidget::LeafBox(x) = w {
                assert(x == id);
            }
        },
        Pane::Split { paned, first, second, .. } => {
            if first.spec_widget() == w || second.spec_widget() == w {
            } else if holds_widget(*first, w) {
                lemma_enclosing_found(*first, w, depth + 1);
            } else {
                match w {
                    PaneWidget::LeafBox(id) => {
                        assert(contains(*second, id));
                    },
                    PaneWidget::Paned(p) => {
                        assert(p != paned);
                        assert(has_paned(*second, p));
                    },
                }
                lemma_enclosing_found(*second, w, depth + 1);
            }
        },
    }
}

proof fn lemma_closing_split_paned(t: Pane, focus: LeafId)
    requires
        closing_split(t, focus) is Some,
    ensures
        has_paned(t, (closing_split(t, focus)->0).0),
    decreases t,
{
    match t {
        Pane::Leaf(_) => {},
        Pane::Split { first, second, .. } => {
            if *first == Pane::Leaf(focus) || *second == Pane::Leaf(focus) {
            } else if closing_split(*first, focus) is Some {
                lemma_closing_split_paned(*first, focus);
            } else {
                lemma_closing_split_paned(*second, focus);
            }
        },
    }
}

/// A split puts its new container directly in the page exactly when the
/// pane split was the whole tree; otherwise it reports the container
/// around that pane.
pub proof fn law_split_placement(t: Pane, focus: LeafId, new_leaf: LeafId)
    requires
        wf(t),
        contains(t, focus),
        height(t) <= MAX_TREE_DEPTH,
    ensures
        split_outcome(t, focus, new_leaf) matches Some((n, placement)) && n == new_leaf && (
        placement is None <==> t == Pane::Leaf(focus)),
{
    lemma_contains_at_of_height(t, focus, 0);
    match t {
        Pane::Leaf(id) => {},
        Pane::Split { .. } => {
            lemma_enclosing_found(t, PaneWidget::LeafBox(focus), 0);
        },
    }
}

/// When a pane closes, the surviving subtree goes directly into the page
/// exactly when the split that collapsed was the root of the tree;
/// otherwise it takes that split's place in the enclosing container.
pub proof fn law_close_placement(t: Pane, focus: LeafId)
    requires
        wf(t),
        t is Split,
        contains(t, focus),
        height(t) <= MAX_TREE_DEPTH,
    ensures
        close_outcome(t, focus) matches Ok(Closed::Collapsed { removed_paned, placement, .. }) && (
        placement is None <==> removed_paned == t->paned),
{
    lemma_contains_at_of_height(t, focus, 0);
    lemma_collapse_effect(t, focus);
    let p = (closing_split(t, focus)->0).0;
    if let Pane::Split { paned, first, second, .. } = t {
        if p == paned {
            assert(first.spec_widget() != PaneWidget::Paned(p)) by {
                if let Pane::Split { paned: q, .. } = *first {
                    assert(has_paned(*first, q));
                }
            }
            assert(second.spec_widget() != PaneWidget::Paned(p)) by {
                if let Pane::Split { paned: q, .. } = *second {
                    assert(has_paned(*second, q));
                }
            }
            lemma_enclosing_absent(*first, PaneWidget::Paned(p), 1);
            lemma_enclosing_absent(*second, PaneWidget::Paned(p), 1);
        } else {
            lemma_closing_split_paned(t, focus);
            lemma_enclosing_found(t, PaneWidget::Paned(p), 0);
        }
    }
}

} // verus!

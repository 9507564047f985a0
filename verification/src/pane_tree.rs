//! Toolkit-free geometry of the pane tree: rectangles, directional focus
//! search and a closure-driven leaf counter.
use vstd::prelude::*;

use crate::ui::pane::MAX_TREE_DEPTH;

verus! {

/// Direction in which focus moves between panes.
#[derive(Debug, Clone, Copy, PartialEq, Eq, Structural)]
pub enum FocusAxis {
    Left,
    Right,
    Up,
    Down,
}

/// An axis-aligned rectangle in integer pixel coordinates.
#[derive(Debug, Clone, Copy, PartialEq, Eq)]
pub struct Rect {
    pub x: i32,
    pub y: i32,
    pub w: i32,
    pub h: i32,
}

/// Division by two rounded towards zero, as Rust's `/` rounds on integers.
pub open spec fn half_toward_zero(v: int) -> int {
    if v >= 0 {
        v / 2
    } else {
        -((-v) / 2)
    }
}

/// `v` is a value of `i32`.
pub open spec fn fits_i32(v: int) -> bool {
    i32::MIN <= v <= i32::MAX
}

/// Absolute value.
pub open spec fn abs_int(v: int) -> int {
    if v < 0 {
        -v
    } else {
        v
    }
}

impl Rect {
    pub open spec fn spec_cx(self) -> int {
        self.x + half_toward_zero(self.w as int)
    }

    pub open spec fn spec_cy(self) -> int {
        self.y + half_toward_zero(self.h as int)
    }

    pub open spec fn spec_right(self) -> int {
        self.x + self.w
    }

    pub open spec fn spec_bottom(self) -> int {
        self.y + self.h
    }

    /// Horizontal centre of the rectangle.
    pub fn cx(&self) -> (r: i32)
        requires
            fits_i32(self.spec_cx()),
        ensures
            r == self.spec_cx(),
    {
        self.x + self.w / 2
    }

    /// Vertical centre of the rectangle.
    pub fn cy(&self) -> (r: i32)
        requires
            fits_i32(self.spec_cy()),
        ensures
            r == self.spec_cy(),
    {
        self.y + self.h / 2
    }

    /// First column to the right of the rectangle.
    pub fn right(&self) -> (r: i32)
        requires
            fits_i32(self.spec_right()),
        ensures
            r == self.spec_right(),
    {
        self.x + self.w
    }

    /// First row below the rectangle.
    pub fn bottom(&self) -> (r: i32)
        requires
            fits_i32(self.spec_bottom()),
        ensures
            r == self.spec_bottom(),
    {
        self.y + self.h
    }
}

/// The two rectangles share some rows.
pub open spec fn y_overlap(from: Rect, r: Rect) -> bool {
    r.y < from.spec_bottom() && from.y < r.spec_bottom()
}

/// The two rectangles share some columns.
pub open spec fn x_overlap(from: Rect, r: Rect) -> bool {
    r.x < from.spec_right() && from.x < r.spec_right()
}

/// Row `y` is one of the rows that `r` covers.
pub open spec fn covers_row(r: Rect, y: int) -> bool {
    r.y <= y < r.y + r.h
}

/// Column `x` is one of the columns that `r` covers.
pub open spec fn covers_column(r: Rect, x: int) -> bool {
    r.x <= x < r.x + r.w
}

/// For rectangles of positive size, overlapping across the axis means
/// sharing a row (for left and right) or a column (for up and down).
pub proof fn law_overlap_is_a_shared_line(a: Rect, b: Rect)
    requires
        a.w > 0,
        a.h > 0,
        b.w > 0,
        b.h > 0,
    ensures
        y_overlap(a, b) <==> exists|y: int| covers_row(a, y) && #[trigger] covers_row(b, y),
        x_overlap(a, b) <==> exists|x: int| covers_column(a, x) && #[trigger] covers_column(b, x),
{
    let y = if a.y < b.y { b.y as int } else { a.y as int };
    let x = if a.x < b.x { b.x as int } else { a.x as int };
    if y_overlap(a, b) {
        assert(covers_row(a, y) && covers_row(b, y));
    }
    if x_overlap(a, b) {
        assert(covers_column(a, x) && covers_column(b, x));
    }
}

/// The score of moving focus from `from` to `r` along `axis`, lower is
/// better; `None` when `r` does not lie in that direction or does not
/// overlap `from` across the axis.
pub open spec fn focus_score(from: Rect, r: Rect, axis: FocusAxis) -> Option<int> {
    let dx = r.spec_cx() - from.spec_cx();
    let dy = r.spec_cy() - from.spec_cy();
    match axis {
        FocusAxis::Left => if dx < 0 && y_overlap(from, r) {
            Some(abs_int(dx) * 1000 + abs_int(dy))
        } else {
            None
        },
        FocusAxis::Right => if dx > 0 && y_overlap(from, r) {
            Some(abs_int(dx) * 1000 + abs_int(dy))
        } else {
            None
        },
        FocusAxis::Up => if dy < 0 && x_overlap(from, r) {
            Some(abs_int(dy) * 1000 + abs_int(dx))
        } else {
            None
        },
        FocusAxis::Down => if dy > 0 && x_overlap(from, r) {
            Some(abs_int(dy) * 1000 + abs_int(dx))
        } else {
            None
        },
    }
}

/// The centres of `from` fit in `i32`.
pub open spec fn centre_fits(from: Rect) -> bool {
    fits_i32(from.spec_cx()) && fits_i32(from.spec_cy())
}

/// Scoring candidate `r` stays inside `i32` at every step that the scan
/// takes for it: centres, offsets, the edges that the overlap test reads,
/// and the absolute values of the offsets.
pub open spec fn focus_arith_ok(from: Rect, r: Rect, axis: FocusAxis) -> bool {
    let dx = r.spec_cx() - from.spec_cx();
    let dy = r.spec_cy() - from.spec_cy();
    &&& fits_i32(r.spec_cx())
    &&& fits_i32(r.spec_cy())
    &&& fits_i32(dx)
    &&& fits_i32(dy)
    &&& match axis {
        FocusAxis::Left | FocusAxis::Right => {
            let along = if axis == FocusAxis::Left {
                dx < 0
            } else {
                dx > 0
            };
            along ==> {
                &&& fits_i32(from.spec_bottom())
                &&& r.y < from.spec_bottom() ==> fits_i32(r.spec_bottom())
                &&& y_overlap(from, r) ==> dx != i32::MIN && dy != i32::MIN
            }
        },
        FocusAxis::Up | FocusAxis::Down => {
            let along = if axis == FocusAxis::Up {
                dy < 0
            } else {
                dy > 0
            };
            along ==> {
                &&& fits_i32(from.spec_right())
                &&& r.x < from.spec_right() ==> fits_i32(r.spec_right())
                &&& x_overlap(from, r) ==> dx != i32::MIN && dy != i32::MIN
            }
        },
    }
}

/// Candidate `i` is the one that focus moves to: it is eligible, no
/// eligible candidate scores lower, and every earlier eligible candidate
/// scores strictly higher (the first of equal scores wins).
pub open spec fn is_best_focus<T>(from: Rect, cands: Seq<(Rect, T)>, axis: FocusAxis, i: int) -> bool {
    &&& 0 <= i < cands.len()
    &&& focus_score(from, cands[i].0, axis) is Some
    &&& forall|j: int|
        0 <= j < cands.len() && (#[trigger] focus_score(from, cands[j].0, axis)) is Some ==> {
            &&& focus_score(from, cands[i].0, axis)->0 <= focus_score(from, cands[j].0, axis)->0
            &&& j < i ==> focus_score(from, cands[i].0, axis)->0 < focus_score(
                from,
                cands[j].0,
                axis,
            )->0
        }
}

/// The pane that focus moves to lies strictly on the requested side of
/// the current one (by centre) and shares rows (horizontal moves) or
/// columns (vertical moves) with it.
pub proof fn law_focus_target_on_requested_side<T>(
    from: Rect,
    cands: Seq<(Rect, T)>,
    axis: FocusAxis,
    i: int,
)
    requires
        is_best_focus(from, cands, axis, i),
    ensures
        axis == FocusAxis::Left ==> cands[i].0.spec_cx() < from.spec_cx() && y_overlap(from, cands[i].0),
        axis == FocusAxis::Right ==> cands[i].0.spec_cx() > from.spec_cx() && y_overlap(from, cands[i].0),
        axis == FocusAxis::Up ==> cands[i].0.spec_cy() < from.spec_cy() && x_overlap(from, cands[i].0),
        axis == FocusAxis::Down ==> cands[i].0.spec_cy() > from.spec_cy() && x_overlap(from, cands[i].0),
{
}

/// At most one candidate is the one that focus moves to, so the choice of
/// `find_best_focus` is determined.
pub proof fn law_best_focus_unique<T>(from: Rect, cands: Seq<(Rect, T)>, axis: FocusAxis, i: int, j: int)
    requires
        is_best_focus(from, cands, axis, i),
        is_best_focus(from, cands, axis, j),
    ensures
        i == j,
{
    assert(focus_score(from, cands[i].0, axis) is Some);
    assert(focus_score(from, cands[j].0, axis) is Some);
}

/// Offset between the centres of `r` and `from` in the direction of
/// movement (horizontal for left/right, vertical for up/down).
pub open spec fn along_offset(from: Rect, r: Rect, axis: FocusAxis) -> int {
    match axis {
        FocusAxis::Left | FocusAxis::Right => r.spec_cx() - from.spec_cx(),
        FocusAxis::Up | FocusAxis::Down => r.spec_cy() - from.spec_cy(),
    }
}

/// Offset between the centres of `r` and `from` across the direction of
/// movement.
pub open spec fn across_offset(from: Rect, r: Rect, axis: FocusAxis) -> int {
    match axis {
        FocusAxis::Left | FocusAxis::Right => r.spec_cy() - from.spec_cy(),
        FocusAxis::Up | FocusAxis::Down => r.spec_cx() - from.spec_cx(),
    }
}

/// `r`'s centre lies strictly on the `axis` side of `from`'s centre, and
/// the two share rows (left/right) or columns (up/down).
pub open spec fn lies_toward(from: Rect, r: Rect, axis: FocusAxis) -> bool {
    match axis {
        FocusAxis::Left => along_offset(from, r, axis) < 0 && y_overlap(from, r),
        FocusAxis::Right => along_offset(from, r, axis) > 0 && y_overlap(from, r),
        FocusAxis::Up => along_offset(from, r, axis) < 0 && x_overlap(from, r),
        FocusAxis::Down => along_offset(from, r, axis) > 0 && x_overlap(from, r),
    }
}

/// The weighted distance that decides between candidates: a thousand
/// times the distance along the direction of movement plus the distance
/// across it.
pub open spec fn weighted_distance(from: Rect, r: Rect, axis: FocusAxis) -> int {
    abs_int(along_offset(from, r, axis)) * 1000 + abs_int(across_offset(from, r, axis))
}

/// Focus moves to a candidate that lies toward `axis`, and to none with
/// a smaller weighted distance (`|along| * 1000 + |across|`); among equal
/// distances the first listed wins. In particular, of two candidates at
/// the same offset along the axis, the one closer across the axis is never
/// passed over for the other. No candidate is chosen exactly when none
/// lies toward `axis`.
pub proof fn law_focus_weighs_offsets<T>(
    from: Rect,
    cands: Seq<(Rect, T)>,
    axis: FocusAxis,
    i: int,
    j: int,
)
    requires
        is_best_focus(from, cands, axis, i),
        0 <= j < cands.len(),
        lies_toward(from, cands[j].0, axis),
    ensures
        lies_toward(from, cands[i].0, axis),
        weighted_distance(from, cands[i].0, axis) <= weighted_distance(from, cands[j].0, axis),
        j < i ==> weighted_distance(from, cands[i].0, axis) < weighted_distance(
            from,
            cands[j].0,
            axis,
        ),
        along_offset(from, cands[i].0, axis) == along_offset(from, cands[j].0, axis) ==> abs_int(
            across_offset(from, cands[i].0, axis),
        ) <= abs_int(across_offset(from, cands[j].0, axis)),
{
    assert(focus_score(from, cands[j].0, axis) is Some);
    assert(focus_score(from, cands[i].0, axis) is Some);
}

/// No candidate is chosen exactly when none lies toward `axis`.
pub proof fn law_focus_none_iff_nothing_toward<T>(from: Rect, cands: Seq<(Rect, T)>, axis: FocusAxis)
    ensures
        no_focus_target(from, cands, axis) <==> forall|j: int|
            0 <= j < cands.len() ==> !lies_toward(from, #[trigger] cands[j].0, axis),
{
    if no_focus_target(from, cands, axis) {
        assert forall|j: int| 0 <= j < cands.len() implies !lies_toward(from, #[trigger] cands[j].0, axis) by {
            assert(focus_score(from, cands[j].0, axis) is None);
        }
    }
    if forall|j: int| 0 <= j < cands.len() ==> !lies_toward(from, #[trigger] cands[j].0, axis) {
        assert forall|j: int| 0 <= j < cands.len() implies (#[trigger] focus_score(from, cands[j].0, axis)) is None by {
            assert(!lies_toward(from, cands[j].0, axis));
        }
    }
}

/// No candidate lies in direction `axis` from `from`.
pub open spec fn no_focus_target<T>(from: Rect, cands: Seq<(Rect, T)>, axis: FocusAxis) -> bool {
    forall|j: int| 0 <= j < cands.len() ==> (#[trigger] focus_score(from, cands[j].0, axis)) is None
}

fn abs_i32_wide(v: i32) -> (r: i64)
    requires
        v != i32::MIN,
    ensures
        r == abs_int(v as int),
{
    if v < 0 {
        -(v as i64)
    } else {
        v as i64
    }
}

/// Exec counterpart of `focus_score`, given the centre of `from`.
fn score_candidate(from: &Rect, from_cx: i32, from_cy: i32, rect: &Rect, axis: FocusAxis) -> (r:
    Option<i64>)
    requires
        centre_fits(*from),
        from_cx == from.spec_cx(),
        from_cy == from.spec_cy(),
        focus_arith_ok(*from, *rect, axis),
    ensures
        match r {
            Some(s) => focus_score(*from, *rect, axis) == Some(s as int),
            None => focus_score(*from, *rect, axis) is None,
        },
{
    let cx = rect.cx();
    let cy = rect.cy();
    let dx = cx - from_cx;
    let dy = cy - from_cy;
    match axis {
        FocusAxis::Left => {
            if dx >= 0 {
                return None;
            }
            let y_ov = rect.y < from.bottom() && from.y < rect.bottom();
            if !y_ov {
                return None;
            }
            Some(abs_i32_wide(dx) * 1000 + abs_i32_wide(dy))
        },
        FocusAxis::Right => {
            if dx <= 0 {
                return None;
            }
            let y_ov = rect.y < from.bottom() && from.y < rect.bottom();
            if !y_ov {
                return None;
            }
            Some(abs_i32_wide(dx) * 1000 + abs_i32_wide(dy))
        },
        FocusAxis::Up => {
            if dy >= 0 {
                return None;
            }
            let x_ov = rect.x < from.right() && from.x < rect.right();
            if !x_ov {
                return None;
            }
            Some(abs_i32_wide(dy) * 1000 + abs_i32_wide(dx))
        },
        FocusAxis::Down => {
            if dy <= 0 {
                return None;
            }
            let x_ov = rect.x < from.right() && from.x < rect.right();
            if !x_ov {
                return None;
            }
            Some(abs_i32_wide(dy) * 1000 + abs_i32_wide(dx))
        },
    }
}

fn in_i32(v: i64) -> (r: bool)
    ensures
        r == fits_i32(v as int),
{
    -2147483648 <= v && v <= 2147483647
}

fn arith_ok(from: &Rect, r: &Rect, axis: FocusAxis) -> (ok: bool)
    ensures
        ok == focus_arith_ok(*from, *r, axis),
{
    let fcx = from.x as i64 + (from.w as i64) / 2;
    let fcy = from.y as i64 + (from.h as i64) / 2;
    let cx = r.x as i64 + (r.w as i64) / 2;
    let cy = r.y as i64 + (r.h as i64) / 2;
    let dx = cx - fcx;
    let dy = cy - fcy;
    if !(in_i32(cx) && in_i32(cy) && in_i32(dx) && in_i32(dy)) {
        return false;
    }
    let f_bottom = from.y as i64 + from.h as i64;
    let r_bottom = r.y as i64 + r.h as i64;
    let f_right = from.x as i64 + from.w as i64;
    let r_right = r.x as i64 + r.w as i64;
    let min: i64 = -2147483648;
    match axis {
        FocusAxis::Left | FocusAxis::Right => {
            let along = if axis == FocusAxis::Left {
                dx < 0
            } else {
                dx > 0
            };
            if !along {
                return true;
            }
            if !in_i32(f_bottom) {
                return false;
            }
            if (r.y as i64) < f_bottom && !in_i32(r_bottom) {
                return false;
            }
            let overlap = (r.y as i64) < f_bottom && (from.y as i64) < r_bottom;
            !(overlap && (dx == min || dy == min))
        },
        FocusAxis::Up | FocusAxis::Down => {
            let along = if axis == FocusAxis::Up {
                dy < 0
            } else {
                dy > 0
            };
            if !along {
                return true;
            }
            if !in_i32(f_right) {
                return false;
            }
            if (r.x as i64) < f_right && !in_i32(r_right) {
                return false;
            }
            let overlap = (r.x as i64) < f_right && (from.x as i64) < r_right;
            !(overlap && (dx == min || dy == min))
        },
    }
}

/// Whether every step of `find_best_focus` on these inputs stays in the
/// range of `i32` (its precondition).
pub fn focus_scan_fits<T>(from: &Rect, candidates: &[(Rect, T)], axis: FocusAxis) -> (r: bool)
    ensures
        r == (centre_fits(*from) && forall|i: int|
            0 <= i < candidates@.len() ==> focus_arith_ok(*from, #[trigger] candidates@[i].0, axis)),
{
    let fcx = from.x as i64 + (from.w as i64) / 2;
    let fcy = from.y as i64 + (from.h as i64) / 2;
    if !(in_i32(fcx) && in_i32(fcy)) {
        return false;
    }
    let n = candidates.len();
    let mut i: usize = 0;
    while i < n
        invariant
            i <= n,
            n == candidates@.len(),
            forall|j: int| 0 <= j < i ==> focus_arith_ok(*from, #[trigger] candidates@[j].0, axis),
        decreases n - i,
    {
        if !arith_ok(from, &candidates[i].0, axis) {
            return false;
        }
        i = i + 1;
    }
    true
}

/// Pick the candidate that focus moves to from `from` along `axis`.
///
/// Horizontal moves score `|dx| * 1000 + |dy|` and vertical moves
/// `|dy| * 1000 + |dx|`, where `dx`, `dy` are the offsets between centres.
/// Only candidates strictly on the requested side that overlap `from`
/// across the axis are considered; the lowest score wins and, among equal
/// scores, the first candidate.
pub fn find_best_focus<T: Clone>(from: &Rect, candidates: &[(Rect, T)], axis: FocusAxis) -> (res:
    Option<T>)
    requires
        centre_fits(*from),
        forall|i: int|
            0 <= i < candidates@.len() ==> focus_arith_ok(*from, #[trigger] candidates@[i].0, axis),
    ensures
        res is None <==> no_focus_target(*from, candidates@, axis),
        res matches Some(t) ==> exists|i: int|
            is_best_focus(*from, candidates@, axis, i) && cloned(candidates@[i].1, t),
{
    let from_cx = from.cx();
    let from_cy = from.cy();
    let mut best: Option<(i64, usize)> = None;
    let n = candidates.len();
    let mut i: usize = 0;
    while i < n
        invariant
            n == candidates@.len(),
            i <= n,
            centre_fits(*from),
            from_cx == from.spec_cx(),
            from_cy == from.spec_cy(),
            forall|k: int|
                0 <= k < candidates@.len() ==> focus_arith_ok(
                    *from,
                    #[trigger] candidates@[k].0,
                    axis,
                ),
            match best {
                None => forall|j: int|
                    0 <= j < i ==> (#[trigger] focus_score(*from, candidates@[j].0, axis)) is None,
                Some((s, k)) => {
                    &&& k < i
                    &&& focus_score(*from, candidates@[k as int].0, axis) == Some(s as int)
                    &&& forall|j: int|
                        0 <= j < i && (#[trigger] focus_score(*from, candidates@[j].0, axis)) is Some
                            ==> {
                            &&& s <= focus_score(*from, candidates@[j].0, axis)->0
                            &&& j < k ==> s < focus_score(*from, candidates@[j].0, axis)->0
                        }
                },
            },
        decreases n - i,
    {
        let rect = candidates[i].0;
        let sc = score_candidate(from, from_cx, from_cy, &rect, axis);
        match sc {
            Some(s) => {
                let is_better = match best {
                    Some((bs, _)) => s < bs,
                    None => true,
                };
                if is_better {
                    best = Some((s, i));
                }
            },
            None => {},
        }
        i = i + 1;
    }
    match best {
        Some((_, k)) => {
            let t = candidates[k].1.clone();
            proof {
                assert(is_best_focus(*from, candidates@, axis, k as int));
            }
            Some(t)
        },
        None => None,
    }
}

/// Count leaves of a pane tree node described by closures: `is_leaf`
/// tells whether the node is a leaf, `first` and `second` count the
/// children of a split. Nodes deeper than `MAX_TREE_DEPTH` count as empty,
/// and a split with a missing child counts nothing.
pub fn count_leaves_rec<L, F, S>(is_leaf: L, first: Option<F>, second: Option<S>, depth: usize) -> (n:
    usize) where L: Fn() -> bool, F: FnOnce() -> usize, S: FnOnce() -> usize
    requires
        depth <= MAX_TREE_DEPTH ==> call_requires(is_leaf, ()),
        depth <= MAX_TREE_DEPTH ==> forall|b: bool|
            call_ensures(is_leaf, (), b) && !b ==> match (first, second) {
                (Some(f), Some(s)) => {
                    &&& call_requires(f, ())
                    &&& call_requires(s, ())
                    &&& forall|x: usize, y: usize|
                        call_ensures(f, (), x) && call_ensures(s, (), y) ==> x + y <= usize::MAX
                },
                _ => true,
            },
    ensures
        depth > MAX_TREE_DEPTH ==> n == 0,
        depth <= MAX_TREE_DEPTH ==> exists|b: bool|
            {
                &&& #[trigger] call_ensures(is_leaf, (), b)
                &&& b ==> n == 1
                &&& !b ==> match (first, second) {
                    (Some(f), Some(s)) => exists|x: usize, y: usize|
                        call_ensures(f, (), x) && call_ensures(s, (), y) && n == x + y,
                    _ => n == 0,
                }
            },
{
    if depth > MAX_TREE_DEPTH {
        return 0;
    }
    if is_leaf() {
        return 1;
    }
    match (first, second) {
        (Some(f), Some(s)) => {
            let x = f();
            let y = s();
            x + y
        },
        _ => 0,
    }
}

} // verus!

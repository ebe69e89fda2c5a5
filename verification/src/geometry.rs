//! The output layout the pet roams over: output rectangles, point lookup,
//! roam targets from a xorshift64 generator, and clamping onto an output.

use vstd::prelude::*;

verus! {

/// Surface size: bubble, gap and the widest mascot side by side.
pub const SPRITE_W: i32 = 520;
pub const SPRITE_H: i32 = 165;
/// Initial distance from the output's top-left corner.
pub const MARGIN: i32 = 16;
/// Roam bounds while no output geometry is known.
pub const FALLBACK_W: i32 = 1920;
pub const FALLBACK_H: i32 = 1080;
/// How far a roam target may overshoot an output's left/right edge.
pub const WALL_PAD: i32 = 250;

/// Representative mascot width; the mascot sits flush-right in the surface.
pub const MASCOT_W: i32 = 188;

/// Bound on output coordinates and sizes.
pub const GEOM_LIM: i32 = 0x100_0000;
/// Bound on the pet's position, target and margins.
pub const POS_LIM: i32 = 0x800_0000;
/// Bound on the configured walking step.
pub const STEP_LIM: i32 = 0x2000_0000;

/// One output's place in the global layout (logical coordinates); `id`
/// identifies it to the shell.
#[derive(Debug, Clone, Copy, PartialEq, Eq, Structural)]
pub struct Rect {
    pub id: usize,
    pub x: i32,
    pub y: i32,
    pub w: i32,
    pub h: i32,
}

/// What an output reported about its place, when known.
#[derive(Debug, Clone, Copy)]
pub struct OutputInfo {
    pub id: usize,
    /// Logical position in the global layout.
    pub pos: Option<(i32, i32)>,
    /// Logical size.
    pub logical_size: Option<(i32, i32)>,
    /// Size of the current mode.
    pub current_mode: Option<(i32, i32)>,
}

/// An output whose coordinates stay within the geometry bound.
pub open spec fn rect_ok(g: Rect) -> bool {
    &&& -GEOM_LIM <= g.x <= GEOM_LIM
    &&& -GEOM_LIM <= g.y <= GEOM_LIM
    &&& 0 < g.w <= GEOM_LIM
    &&& 0 < g.h <= GEOM_LIM
}

/// Every output is within the geometry bound, and there are not too many.
#[verifier::opaque]
pub open spec fn outputs_ok(outs: Seq<Rect>) -> bool {
    &&& forall|i: int| 0 <= i < outs.len() ==> rect_ok(#[trigger] outs[i])
    &&& outs.len() <= 0x1000_0000
}

/// Each output of a well-formed layout is within bounds.
pub proof fn lemma_outputs_ok(outs: Seq<Rect>, i: int)
    requires
        outputs_ok(outs),
        0 <= i < outs.len(),
    ensures
        rect_ok(outs[i]),
        outs.len() <= 0x1000_0000,
{
    reveal(outputs_ok);
}

/// A coordinate within the position bound.
pub open spec fn coord_ok(v: i32) -> bool {
    -POS_LIM <= v <= POS_LIM
}

/// A coordinate at most one step outside the position bound.
pub open spec fn near_ok(v: i32) -> bool {
    -(POS_LIM + STEP_LIM) <= v <= POS_LIM + STEP_LIM
}

/// The smaller of two integers.
pub open spec fn min_i(a: i32, b: i32) -> i32 {
    if a < b {
        a
    } else {
        b
    }
}

/// The larger of two integers.
pub open spec fn max_i(a: i32, b: i32) -> i32 {
    if a > b {
        a
    } else {
        b
    }
}

/// `v` clamped into `[lo, hi]` (`lo <= hi`).
pub open spec fn clamp_i(v: i32, lo: i32, hi: i32) -> i32 {
    if v < lo {
        lo
    } else if v > hi {
        hi
    } else {
        v
    }
}

pub fn max32(a: i32, b: i32) -> (r: i32)
    ensures
        r == max_i(a, b),
{
    if a > b {
        a
    } else {
        b
    }
}

pub fn min32(a: i32, b: i32) -> (r: i32)
    ensures
        r == min_i(a, b),
{
    if a < b {
        a
    } else {
        b
    }
}

/// The next xorshift64 state.
pub open spec fn rand_next(x: u64) -> u64 {
    let a = x ^ (x << 13u64);
    let b = a ^ (a >> 7u64);
    b ^ (b << 17u64)
}

/// A pseudo-random value in `[lo, hi]` and the generator state after it;
/// an empty range gives `lo` and leaves the generator alone.
pub open spec fn rand_range_spec(rng: u64, lo: i32, hi: i32) -> (u64, i32) {
    if hi <= lo {
        (rng, lo)
    } else {
        let r = rand_next(rng);
        (r, range_value(r, lo, hi))
    }
}

/// `lo` plus `r` reduced modulo the size of `[lo, hi]`.
#[verifier::opaque]
pub open spec fn range_value(r: u64, lo: i32, hi: i32) -> i32 {
    (lo + (r % ((hi - lo + 1) as u64)) as int) as i32
}

/// A range value lies in the range.
pub proof fn lemma_range_value(r: u64, lo: i32, hi: i32)
    requires
        lo < hi,
        hi - lo + 1 <= u64::MAX,
    ensures
        lo <= range_value(r, lo, hi) <= hi,
{
    reveal(range_value);
    let n = (hi - lo + 1) as u64;
    assert(r % n < n);
}

/// The output index a random value picks among `n`.
#[verifier::opaque]
pub open spec fn pick_index(r: u64, n: nat) -> int {
    ((r as usize) as nat % n) as int
}

/// A picked index is in range.
pub proof fn lemma_pick_index(r: u64, n: nat)
    requires
        n > 0,
    ensures
        0 <= pick_index(r, n) < n,
{
    reveal(pick_index);
}

/// Whether output `g` contains the global point (`x`, `y`).
pub open spec fn contains_pt(g: Rect, x: int, y: int) -> bool {
    x >= g.x && x < g.x + g.w && y >= g.y && y < g.y + g.h
}

/// Index of the first output from `i` on that contains (`x`, `y`).
pub open spec fn output_at_from(outs: Seq<Rect>, x: int, y: int, i: nat) -> Option<usize>
    decreases outs.len() - i,
{
    if i >= outs.len() {
        None
    } else if contains_pt(outs[i as int], x, y) {
        Some(i as usize)
    } else {
        output_at_from(outs, x, y, i + 1)
    }
}

/// Index of the first output containing (`x`, `y`).
pub open spec fn output_at_spec(outs: Seq<Rect>, x: int, y: int) -> Option<usize> {
    output_at_from(outs, x, y, 0)
}

/// The leftmost edge of the first `k` outputs (0 when `k` is 0).
pub open spec fn min_left(outs: Seq<Rect>, k: nat) -> i32
    decreases k,
{
    if k == 0 {
        0
    } else if k == 1 {
        outs[0].x
    } else {
        min_i(min_left(outs, (k - 1) as nat), outs[k - 1].x)
    }
}

/// The rightmost right edge of the first `k` outputs.
pub open spec fn max_right(outs: Seq<Rect>, k: nat) -> i32
    decreases k,
{
    if k == 0 {
        FALLBACK_W
    } else if k == 1 {
        (outs[0].x + outs[0].w) as i32
    } else {
        max_i(max_right(outs, (k - 1) as nat), (outs[k - 1].x + outs[k - 1].w) as i32)
    }
}

/// One axis of a walking step: reach `target` when within `step`, else
/// move `step` toward it.
pub open spec fn step_axis(cur: i32, target: i32, step: i32) -> i32 {
    let d = target - cur;
    let ad = if d < 0 {
        -d
    } else {
        d
    };
    if ad <= step {
        target
    } else if d > 0 {
        (cur + step) as i32
    } else {
        (cur - step) as i32
    }
}

/// A new random roam target and the generator state after it: inside a
/// random real output (x may overshoot its sides by `WALL_PAD` but stays
/// within the layout), or inside the fallback screen when no output is
/// known.
#[verifier::opaque]
pub open spec fn pick_target(outs: Seq<Rect>, rng: u64) -> (u64, i32, i32) {
    if outs.len() == 0 {
        let (r1, tx) = rand_range_spec(rng, MARGIN, (FALLBACK_W - SPRITE_W) as i32);
        let (r2, ty) = rand_range_spec(r1, MARGIN, (FALLBACK_H - SPRITE_H) as i32);
        (r2, tx, ty)
    } else {
        let n = outs.len();
        let min_x = min_left(outs, n);
        let max_x = max_right(outs, n);
        let r1 = rand_next(rng);
        let i = pick_index(r1, n);
        let g = outs[i];
        let lo = max_i((g.x - WALL_PAD) as i32, min_x);
        let hi = min_i((g.x + (g.w - SPRITE_W) + WALL_PAD) as i32, (max_x - SPRITE_W) as i32);
        let (r2, tx) = rand_range_spec(r1, lo, max_i(hi, lo));
        let yhi = (g.y + (g.h - SPRITE_H)) as i32;
        if yhi >= g.y {
            let (r3, ty) = rand_range_spec(r2, g.y, yhi);
            (r3, tx, ty)
        } else {
            (r2, tx, (g.y + g.h / 2 - SPRITE_H / 2) as i32)
        }
    }
}

/// The position clamped so the whole surface stays on output `cur` (when
/// it exists).
#[verifier::opaque]
pub open spec fn clamp_pos(outs: Seq<Rect>, cur: usize, x: i32, y: i32) -> (i32, i32) {
    if cur < outs.len() {
        let g = outs[cur as int];
        let maxx = (g.x + max_i((g.w - SPRITE_W) as i32, 0)) as i32;
        let maxy = (g.y + max_i((g.h - SPRITE_H) as i32, 0)) as i32;
        (clamp_i(x, g.x, maxx), clamp_i(y, g.y, maxy))
    } else {
        (x, y)
    }
}

/// Where a blocked step toward (`nx`, `ny`) from (`px`, `py`) may go before
/// clamping: each axis takes the step's value only if that keeps the
/// mascot centre on output `cur`.
#[verifier::opaque]
pub open spec fn slide_pos(outs: Seq<Rect>, cur: usize, px: i32, py: i32, nx: i32, ny: i32) -> (i32, i32) {
    let x_ok = output_at_spec(outs, center_x(nx), center_y(py)) == Some(cur);
    let y_ok = output_at_spec(outs, center_x(px), center_y(ny)) == Some(cur);
    (
        if x_ok {
            nx
        } else {
            px
        },
        if y_ok {
            ny
        } else {
            py
        },
    )
}

/// Where a blocked step leaves the surface: slid along the axes that keep
/// the mascot on output `cur`, then clamped onto it.
pub open spec fn wall_pos(outs: Seq<Rect>, cur: usize, px: i32, py: i32, nx: i32, ny: i32) -> (i32, i32) {
    let s = slide_pos(outs, cur, px, py, nx, ny);
    clamp_pos(outs, cur, s.0, s.1)
}

/// The surface's mascot centre for a surface at (`x`, `y`).
pub open spec fn center_x(x: i32) -> int {
    x + SPRITE_W - MASCOT_W / 2
}

pub open spec fn center_y(y: i32) -> int {
    y + SPRITE_H / 2
}

/// One axis of a walking step.
pub fn walk_axis(cur: i32, target: i32, step: i32) -> (r: i32)
    requires
        coord_ok(cur),
        coord_ok(target),
        -STEP_LIM <= step <= STEP_LIM,
    ensures
        r == step_axis(cur, target, step),
        near_ok(r),
{
    let d = target - cur;
    let ad = if d < 0 {
        -d
    } else {
        d
    };
    if ad <= step {
        target
    } else if d > 0 {
        cur + step
    } else {
        cur - step
    }
}

/// The layout's left and right edges over its first `k` outputs are
/// within the geometry bound.
pub proof fn lemma_layout_bounds(outs: Seq<Rect>, k: nat)
    requires
        outputs_ok(outs),
        1 <= k <= outs.len(),
    ensures
        -GEOM_LIM <= min_left(outs, k) <= GEOM_LIM,
        -GEOM_LIM < max_right(outs, k) <= 2 * GEOM_LIM,
    decreases k,
{
    lemma_outputs_ok(outs, k - 1);
    if k > 1 {
        lemma_layout_bounds(outs, (k - 1) as nat);
    }
}

/// The output found for a point contains it.
pub proof fn lemma_output_at_some(outs: Seq<Rect>, x: int, y: int)
    requires
        outputs_ok(outs),
    ensures
        output_at_spec(outs, x, y) matches Some(k) ==> k < outs.len() && contains_pt(outs[k as int], x, y),
{
    reveal(outputs_ok);
    lemma_output_at_found(outs, x, y, 0);
}

/// A found output contains the point.
pub proof fn lemma_output_at_found(outs: Seq<Rect>, x: int, y: int, i: nat)
    requires
        outs.len() <= usize::MAX,
    ensures
        output_at_from(outs, x, y, i) matches Some(k) ==> i <= k < outs.len() && contains_pt(
            outs[k as int],
            x,
            y,
        ),
    decreases outs.len() - i,
{
    if i < outs.len() && !contains_pt(outs[i as int], x, y) {
        lemma_output_at_found(outs, x, y, i + 1);
    }
}

/// The next xorshift64 state.
pub fn rand_step(x: u64) -> (r: u64)
    ensures
        r == rand_next(x),
{
    let a = x ^ (x << 13u64);
    let b = a ^ (a >> 7u64);
    b ^ (b << 17u64)
}

/// A pseudo-random value in `[lo, hi]` drawn from generator state `rng`,
/// with the generator state after it.
pub fn rand_in(rng: u64, lo: i32, hi: i32) -> (r: (u64, i32))
    requires
        -2 * POS_LIM <= lo <= 2 * POS_LIM,
        -2 * POS_LIM <= hi <= 2 * POS_LIM,
    ensures
        r == rand_range_spec(rng, lo, hi),
        hi <= lo ==> r.1 == lo,
        hi > lo ==> lo <= r.1 <= hi,
{
    if hi <= lo {
        return (rng, lo);
    }
    let n = (hi - lo + 1) as u64;
    let x = rand_step(rng);
    let k = x % n;
    proof {
        reveal(range_value);
    }
    (x, lo + k as i32)
}

/// Index of the first output containing the global point (`x`, `y`).
pub fn output_index(outs: &Vec<Rect>, x: i32, y: i32) -> (r: Option<usize>)
    requires
        outputs_ok(outs@),
    ensures
        r == output_at_spec(outs@, x as int, y as int),
        r matches Some(k) ==> k < outs@.len() && contains_pt(outs@[k as int], x as int, y as int),
{
    proof {
        lemma_output_at_some(outs@, x as int, y as int);
    }
    let n = outs.len();
    let mut i: usize = 0;
    while i < n
        invariant
            i <= n == outs@.len(),
            outputs_ok(outs@),
            output_at_from(outs@, x as int, y as int, i as nat) == output_at_spec(
                outs@,
                x as int,
                y as int,
            ),
        decreases n - i,
    {
        let g = outs[i];
        proof {
            lemma_outputs_ok(outs@, i as int);
        }
        if x >= g.x && x < g.x + g.w && y >= g.y && y < g.y + g.h {
            return Some(i);
        }
        i = i + 1;
    }
    None
}

/// The leftmost left edge and rightmost right edge of a non-empty layout.
pub fn layout_bounds(outs: &Vec<Rect>) -> (r: (i32, i32))
    requires
        outputs_ok(outs@),
        outs@.len() > 0,
    ensures
        r.0 == min_left(outs@, outs@.len()),
        r.1 == max_right(outs@, outs@.len()),
        -GEOM_LIM <= r.0 <= GEOM_LIM,
        -GEOM_LIM < r.1 <= 2 * GEOM_LIM,
{
    let n = outs.len();
    let g0 = outs[0];
    proof {
        lemma_outputs_ok(outs@, 0);
    }
    let mut lo = g0.x;
    let mut hi = g0.x + g0.w;
    let mut i: usize = 1;
    while i < n
        invariant
            1 <= i <= n == outs@.len(),
            outputs_ok(outs@),
            lo == min_left(outs@, i as nat),
            hi == max_right(outs@, i as nat),
            -GEOM_LIM <= lo <= GEOM_LIM,
            -GEOM_LIM < hi <= 2 * GEOM_LIM,
        decreases n - i,
    {
        let g = outs[i];
        proof {
            lemma_outputs_ok(outs@, i as int);
        }
        lo = min32(lo, g.x);
        hi = max32(hi, g.x + g.w);
        i = i + 1;
    }
    (lo, hi)
}

/// A new roam target over the layout `outs`, drawn from generator state
/// `rng`, with the generator state after it.
pub fn choose_target(outs: &Vec<Rect>, rng: u64) -> (r: (u64, i32, i32))
    requires
        outputs_ok(outs@),
    ensures
        r == pick_target(outs@, rng),
        coord_ok(r.1),
        coord_ok(r.2),
{
    proof {
        reveal(pick_target);
    }
    if outs.len() == 0 {
        let (r1, tx) = rand_in(rng, MARGIN, FALLBACK_W - SPRITE_W);
        let (r2, ty) = rand_in(r1, MARGIN, FALLBACK_H - SPRITE_H);
        return (r2, tx, ty);
    }
    let (min_x, max_x) = layout_bounds(outs);
    let n = outs.len();
    let r1 = rand_step(rng);
    let i = (r1 as usize) % n;
    proof {
        reveal(pick_index);
        lemma_outputs_ok(outs@, i as int);
    }
    let g = outs[i];
    let lo = max32(g.x - WALL_PAD, min_x);
    let hi = min32(g.x + (g.w - SPRITE_W) + WALL_PAD, max_x - SPRITE_W);
    let (r2, tx) = rand_in(r1, lo, max32(hi, lo));
    let yhi = g.y + (g.h - SPRITE_H);
    if yhi >= g.y {
        let (r3, ty) = rand_in(r2, g.y, yhi);
        (r3, tx, ty)
    } else {
        (r2, tx, g.y + g.h / 2 - SPRITE_H / 2)
    }
}

/// The position (`x`, `y`) clamped so the whole surface stays on output
/// `cur`; unchanged when there is no such output.
pub fn clamp_position(outs: &Vec<Rect>, cur: usize, x: i32, y: i32) -> (r: (i32, i32))
    requires
        outputs_ok(outs@),
        near_ok(x),
        near_ok(y),
    ensures
        r == clamp_pos(outs@, cur, x, y),
        cur < outs@.len() ==> coord_ok(r.0) && coord_ok(r.1),
        cur >= outs@.len() ==> r == (x, y),
{
    proof {
        reveal(clamp_pos);
    }
    if cur >= outs.len() {
        return (x, y);
    }
    let g = outs[cur];
    proof {
        lemma_outputs_ok(outs@, cur as int);
    }
    let maxx = g.x + max32(g.w - SPRITE_W, 0);
    let maxy = g.y + max32(g.h - SPRITE_H, 0);
    let cx = if x < g.x {
        g.x
    } else if x > maxx {
        maxx
    } else {
        x
    };
    let cy = if y < g.y {
        g.y
    } else if y > maxy {
        maxy
    } else {
        y
    };
    (cx, cy)
}

/// Where a blocked step toward (`nx`, `ny`) from (`px`, `py`) may go before
/// clamping: each axis takes the step's value only if that keeps the
/// mascot centre on output `cur`.
pub fn slide_position(outs: &Vec<Rect>, cur: usize, px: i32, py: i32, nx: i32, ny: i32) -> (r: (
    i32,
    i32,
))
    requires
        outputs_ok(outs@),
        coord_ok(px),
        coord_ok(py),
        near_ok(nx),
        near_ok(ny),
    ensures
        r == slide_pos(outs@, cur, px, py, nx, ny),
        near_ok(r.0),
        near_ok(r.1),
        cur >= outs@.len() ==> r == (px, py),
{
    let cx = nx + SPRITE_W - MASCOT_W / 2;
    let cy = ny + SPRITE_H / 2;
    let cx_keep = px + SPRITE_W - MASCOT_W / 2;
    let cy_keep = py + SPRITE_H / 2;
    let x_ok = match output_index(outs, cx, cy_keep) {
        Some(k) => k == cur,
        None => false,
    };
    let y_ok = match output_index(outs, cx_keep, cy) {
        Some(k) => k == cur,
        None => false,
    };
    proof {
        reveal(slide_pos);
    }
    (
        if x_ok {
            nx
        } else {
            px
        },
        if y_ok {
            ny
        } else {
            py
        },
    )
}


// ---------------------------------------------------------------------------
// Building the layout from what the outputs report

/// Whether output `a` may come before `b` in layout order: by left edge,
/// then by top edge.
pub open spec fn rect_le(a: Rect, b: Rect) -> bool {
    a.x < b.x || (a.x == b.x && a.y <= b.y)
}

/// Whether the layout is in layout order.
pub open spec fn layout_sorted(s: Seq<Rect>) -> bool {
    forall|i: int, j: int| 0 <= i < j < s.len() ==> rect_le(#[trigger] s[i], #[trigger] s[j])
}

/// `s` with `g` inserted just after the last output (searching from the
/// end) that may come before it.
pub open spec fn insert_sorted(s: Seq<Rect>, g: Rect) -> Seq<Rect>
    decreases s.len(),
{
    if s.len() == 0 {
        seq![g]
    } else if rect_le(s.last(), g) {
        s.push(g)
    } else {
        insert_sorted(s.drop_last(), g).push(s.last())
    }
}

/// The outputs in layout order (left to right, then top to bottom),
/// keeping the reported order among outputs at the same position: each
/// one in turn is inserted after those that may come before it.
pub open spec fn sort_layout(s: Seq<Rect>) -> Seq<Rect>
    decreases s.len(),
{
    if s.len() == 0 {
        s
    } else {
        insert_sorted(sort_layout(s.drop_last()), s.last())
    }
}

/// Inserting after the last output that may come before `g` is inserting
/// at that position.
proof fn lemma_insert_at(s: Seq<Rect>, g: Rect, k: int)
    requires
        0 <= k <= s.len(),
        k == 0 || rect_le(s[k - 1], g),
        forall|i: int| k <= i < s.len() ==> !rect_le(#[trigger] s[i], g),
    ensures
        insert_sorted(s, g) == s.insert(k, g),
    decreases s.len(),
{
    if s.len() == 0 {
        assert(s.insert(k, g) =~= seq![g]);
    } else if k == s.len() {
        assert(s.insert(k, g) =~= s.push(g));
    } else {
        assert(!rect_le(s[s.len() - 1], g));
        lemma_insert_at(s.drop_last(), g, k);
        assert(s.insert(k, g) =~= s.drop_last().insert(k, g).push(s.last()));
    }
}

/// Inserting adds exactly `g`, and keeps a sorted layout sorted.
pub proof fn lemma_insert_sorted(s: Seq<Rect>, g: Rect)
    ensures
        insert_sorted(s, g).to_multiset() =~= s.to_multiset().insert(g),
        layout_sorted(s) ==> layout_sorted(insert_sorted(s, g)),
    decreases s.len(),
{
    broadcast use vstd::seq_lib::group_to_multiset_ensures;

    if s.len() == 0 {
        assert(seq![g] =~= Seq::<Rect>::empty().push(g));
    } else if rect_le(s.last(), g) {
    } else {
        let t = s.drop_last();
        let l = s.last();
        lemma_insert_sorted(t, g);
        assert(s =~= t.push(l));
        let r = insert_sorted(t, g);
        if layout_sorted(s) {
            assert forall|i: int| 0 <= i < r.len() implies rect_le(#[trigger] r[i], l) by {
                let x = r[i];
                assert(r.to_multiset().count(x) > 0);
                if x != g {
                    assert(t.to_multiset().count(x) > 0);
                    assert(t.contains(x));
                    let k = choose|k: int| 0 <= k < t.len() && t[k] == x;
                    assert(s[k] == x);
                    assert(rect_le(s[k], s[s.len() - 1]));
                }
            }
            assert forall|i: int, j: int|
                0 <= i < j < r.push(l).len() implies rect_le(#[trigger] r.push(l)[i], #[trigger] r.push(l)[j]) by {
                if j < r.len() {
                    assert(r.push(l)[i] == r[i]);
                    assert(r.push(l)[j] == r[j]);
                } else {
                    assert(r.push(l)[i] == r[i]);
                }
            }
        }
    }
}

/// The layout order is sorted and holds exactly the given outputs.
pub proof fn lemma_sort_layout(s: Seq<Rect>)
    ensures
        layout_sorted(sort_layout(s)),
        sort_layout(s).to_multiset() =~= s.to_multiset(),
        sort_layout(s).len() == s.len(),
    decreases s.len(),
{
    broadcast use vstd::seq_lib::group_to_multiset_ensures;

    if s.len() > 0 {
        lemma_sort_layout(s.drop_last());
        lemma_insert_sorted(sort_layout(s.drop_last()), s.last());
        assert(s =~= s.drop_last().push(s.last()));
        assert(sort_layout(s).to_multiset().len() == sort_layout(s).len());
        assert(s.to_multiset().len() == s.len());
    }
}

/// Inserts `g` into `v` after the last output that may come before it.
pub fn insert_output(v: &mut Vec<Rect>, g: Rect)
    ensures
        final(v)@ == insert_sorted(old(v)@, g),
{
    let mut k = v.len();
    while k > 0 && !(v[k - 1].x < g.x || (v[k - 1].x == g.x && v[k - 1].y <= g.y))
        invariant
            k <= v@.len(),
            v@ == old(v)@,
            forall|i: int| k <= i < v@.len() ==> !rect_le(#[trigger] v@[i], g),
        decreases k,
    {
        k = k - 1;
    }
    proof {
        lemma_insert_at(v@, g, k as int);
    }
    v.insert(k, g);
}

/// The outputs in layout order.
pub fn sort_outputs(v: &Vec<Rect>) -> (r: Vec<Rect>)
    ensures
        r@ == sort_layout(v@),
{
    let mut r: Vec<Rect> = Vec::new();
    let mut i: usize = 0;
    while i < v.len()
        invariant
            i <= v@.len(),
            r@ == sort_layout(v@.take(i as int)),
        decreases v@.len() - i,
    {
        assert(v@.take(i + 1).drop_last() =~= v@.take(i as int));
        insert_output(&mut r, v[i]);
        i = i + 1;
    }
    assert(v@.take(v@.len() as int) =~= v@);
    r
}

/// An output's reported position and size are within the geometry bound
/// (when known).
pub open spec fn info_ok(o: OutputInfo) -> bool {
    &&& (o.pos matches Some(p) ==> -GEOM_LIM <= p.0 <= GEOM_LIM && -GEOM_LIM <= p.1 <= GEOM_LIM)
    &&& (o.logical_size matches Some(z) ==> z.0 <= GEOM_LIM && z.1 <= GEOM_LIM)
    &&& (o.current_mode matches Some(z) ==> z.0 <= GEOM_LIM && z.1 <= GEOM_LIM)
}

/// Every report is within the bound, and there are not too many.
pub open spec fn infos_ok(infos: Seq<OutputInfo>) -> bool {
    &&& forall|i: int| 0 <= i < infos.len() ==> info_ok(#[trigger] infos[i])
    &&& infos.len() <= 0x1000_0000
}

fn info_ok_check(o: &OutputInfo) -> (r: bool)
    ensures
        r == info_ok(*o),
{
    let p_ok = match o.pos {
        Some(p) => -GEOM_LIM <= p.0 && p.0 <= GEOM_LIM && -GEOM_LIM <= p.1 && p.1 <= GEOM_LIM,
        None => true,
    };
    let l_ok = match o.logical_size {
        Some(z) => z.0 <= GEOM_LIM && z.1 <= GEOM_LIM,
        None => true,
    };
    let m_ok = match o.current_mode {
        Some(z) => z.0 <= GEOM_LIM && z.1 <= GEOM_LIM,
        None => true,
    };
    p_ok && l_ok && m_ok
}

/// Whether the reports are within the geometry bound.
pub fn infos_ok_check(infos: &Vec<OutputInfo>) -> (r: bool)
    ensures
        r == infos_ok(infos@),
{
    if infos.len() > 0x1000_0000 {
        return false;
    }
    let mut i: usize = 0;
    while i < infos.len()
        invariant
            i <= infos@.len(),
            forall|k: int| 0 <= k < i ==> info_ok(#[trigger] infos@[k]),
        decreases infos@.len() - i,
    {
        if !info_ok_check(&infos[i]) {
            return false;
        }
        i = i + 1;
    }
    true
}

/// The output a report describes: its position and its logical size (or,
/// failing that, its current mode's size), when both are known and the
/// size is positive.
pub open spec fn info_rect(o: OutputInfo) -> Option<Rect> {
    let size = if o.logical_size is Some {
        o.logical_size
    } else {
        o.current_mode
    };
    match (o.pos, size) {
        (Some(p), Some(z)) => if z.0 > 0 && z.1 > 0 {
            Some(Rect { id: o.id, x: p.0, y: p.1, w: z.0, h: z.1 })
        } else {
            None
        },
        _ => None,
    }
}

/// The usable outputs among the reports, in report order.
pub open spec fn usable_outputs(infos: Seq<OutputInfo>) -> Seq<Rect>
    decreases infos.len(),
{
    if infos.len() == 0 {
        Seq::empty()
    } else {
        let rest = usable_outputs(infos.drop_last());
        match info_rect(infos.last()) {
            Some(g) => rest.push(g),
            None => rest,
        }
    }
}

/// Usable outputs of reports within the bound are within the bound.
pub proof fn lemma_usable_ok(infos: Seq<OutputInfo>)
    requires
        infos_ok(infos),
    ensures
        outputs_ok(usable_outputs(infos)),
        usable_outputs(infos).len() <= infos.len(),
    decreases infos.len(),
{
    reveal(outputs_ok);
    if infos.len() > 0 {
        let t = infos.drop_last();
        assert(infos_ok(t)) by {
            assert forall|i: int| 0 <= i < t.len() implies info_ok(#[trigger] t[i]) by {
                assert(t[i] == infos[i]);
            }
        }
        lemma_usable_ok(t);
        assert(info_ok(infos[infos.len() - 1]));
    }
}

/// A sorted layout of outputs within the bound is within the bound.
pub proof fn lemma_sorted_ok(s: Seq<Rect>)
    requires
        outputs_ok(s),
    ensures
        outputs_ok(sort_layout(s)),
{
    broadcast use vstd::seq_lib::group_to_multiset_ensures;

    reveal(outputs_ok);
    lemma_sort_layout(s);
    let r = sort_layout(s);
    assert forall|i: int| 0 <= i < r.len() implies rect_ok(#[trigger] r[i]) by {
        assert(r.to_multiset().count(r[i]) > 0);
        assert(s.to_multiset().count(r[i]) > 0);
        assert(s.contains(r[i]));
        let k = choose|k: int| 0 <= k < s.len() && s[k] == r[i];
        assert(rect_ok(s[k]));
    }
}

/// The usable outputs among the reports.
pub fn usable_from(infos: &Vec<OutputInfo>) -> (r: Vec<Rect>)
    ensures
        r@ == usable_outputs(infos@),
{
    let mut r: Vec<Rect> = Vec::new();
    let mut i: usize = 0;
    while i < infos.len()
        invariant
            i <= infos@.len(),
            r@ == usable_outputs(infos@.take(i as int)),
        decreases infos@.len() - i,
    {
        let o = infos[i];
        assert(infos@.take(i + 1).drop_last() =~= infos@.take(i as int));
        let size = if o.logical_size.is_some() {
            o.logical_size
        } else {
            o.current_mode
        };
        match (o.pos, size) {
            (Some(p), Some(z)) => {
                if z.0 > 0 && z.1 > 0 {
                    r.push(Rect { id: o.id, x: p.0, y: p.1, w: z.0, h: z.1 });
                }
            },
            _ => {},
        }
        i = i + 1;
    }
    assert(infos@.take(infos@.len() as int) =~= infos@);
    r
}
} // verus!

//! Window placement carried over between runs: what is remembered of the
//! window, and how a remembered placement is corrected for the monitors that
//! are present when it is restored.
//!
//! Coordinates and sizes are physical pixels, which form one virtual screen
//! across all monitors. A rectangle is `(x, y, width, height)`.

use vstd::prelude::*;

verus! {

/// Label of the window whose placement is remembered and which the title-bar
/// commands act on.
pub const MAIN_WINDOW_LABEL: &'static str = "main";

/// Event that tells the front end the main window's maximized state changed;
/// its payload is whether the window is now maximized.
pub const MAXIMIZED_EVENT: &'static str = "win-maximized";

/// Smallest width of a window, in physical pixels, that must overlap a
/// monitor's work area for the window to count as grabbable there.
pub const MIN_VISIBLE_W: i32 = 120;

/// Smallest height of a window, in physical pixels, that must overlap a
/// monitor's work area for the window to count as grabbable there.
pub const MIN_VISIBLE_H: i32 = 60;

/// A rectangle `(x, y, width, height)` in physical pixels.
pub type Rect = (i32, i32, i32, i32);

/// The remembered placement of the main window: position and size in physical
/// pixels, whether it was maximized, and the scale factor it was saved under.
/// The library only carries the scale factor; converting sizes between scale
/// factors happens where monitors are read (see [`MonitorArea`]).
#[derive(Clone, Copy)]
pub struct WindowState<S> {
    pub x: i32,
    pub y: i32,
    pub width: u32,
    pub height: u32,
    pub maximized: bool,
    pub scale: S,
}

/// One monitor as seen by the restore rules: its work area (the monitor
/// without task bars and the like), and the remembered window size converted
/// to this monitor's scale factor, so that the window keeps its apparent size
/// if it is restored here.
#[derive(Clone, Copy)]
pub struct MonitorArea {
    pub work: Rect,
    pub scaled_width: i32,
    pub scaled_height: i32,
}

pub open spec fn min_int(a: int, b: int) -> int {
    if a <= b {
        a
    } else {
        b
    }
}

pub open spec fn max_int(a: int, b: int) -> int {
    if a >= b {
        a
    } else {
        b
    }
}

/// `v` brought into `[lo, hi]` (`lo <= hi`).
pub open spec fn clamp_int(v: int, lo: int, hi: int) -> int {
    if v < lo {
        lo
    } else if v > hi {
        hi
    } else {
        v
    }
}

/// Length of the overlap of the spans `[a_pos, a_pos + a_len)` and
/// `[b_pos, b_pos + b_len)`; 0 where they do not overlap.
pub open spec fn overlap_len(a_pos: int, a_len: int, b_pos: int, b_len: int) -> int {
    max_int(min_int(a_pos + a_len, b_pos + b_len) - max_int(a_pos, b_pos), 0)
}

/// Width of the overlap of two rectangles.
pub open spec fn overlap_w(a: Rect, b: Rect) -> int {
    overlap_len(a.0 as int, a.2 as int, b.0 as int, b.2 as int)
}

/// Height of the overlap of two rectangles.
pub open spec fn overlap_h(a: Rect, b: Rect) -> int {
    overlap_len(a.1 as int, a.3 as int, b.1 as int, b.3 as int)
}

/// Area of the overlap of two rectangles.
pub open spec fn overlap_area(a: Rect, b: Rect) -> int {
    overlap_w(a, b) * overlap_h(a, b)
}

/// `rect` overlaps the work area `work` by at least the minimum grabbable
/// width and height, and its top edge (the title bar) lies within the work
/// area's vertical range, low enough that the title bar can be reached.
pub open spec fn grabbable_on(rect: Rect, work: Rect) -> bool {
    &&& overlap_w(rect, work) >= MIN_VISIBLE_W
    &&& overlap_h(rect, work) >= MIN_VISIBLE_H
    &&& rect.1 >= work.1
    &&& rect.1 <= work.1 + work.3 - MIN_VISIBLE_H
}

/// `rect` is grabbable on at least one of `monitors`.
pub open spec fn visible_enough(rect: Rect, monitors: Seq<MonitorArea>) -> bool {
    exists|i: int| 0 <= i < monitors.len() && grabbable_on(rect, #[trigger] monitors[i].work)
}

/// The sums `x + width` and `y + height` of `r` are `i32` values.
pub open spec fn edges_fit(r: Rect) -> bool {
    &&& i32::MIN <= r.0 + r.2 <= i32::MAX
    &&& i32::MIN <= r.1 + r.3 <= i32::MAX
}

/// Every monitor's work area has `i32` edges.
pub open spec fn monitors_fit(monitors: Seq<MonitorArea>) -> bool {
    forall|i: int| 0 <= i < monitors.len() ==> edges_fit(#[trigger] monitors[i].work)
}

/// The remembered rectangle of `state`.
pub open spec fn saved_rect<S>(state: WindowState<S>) -> Rect {
    (state.x, state.y, state.width as i32, state.height as i32)
}

/// Some monitor's work area overlaps `saved` with a positive area.
pub open spec fn overlaps_any(saved: Rect, monitors: Seq<MonitorArea>) -> bool {
    exists|i: int| 0 <= i < monitors.len() && overlap_area(saved, #[trigger] monitors[i].work) > 0
}

/// Monitor `i` has the largest overlap with `saved`, that overlap is positive,
/// and no later monitor has an overlap as large (of several equal largest
/// overlaps, the last monitor is the one meant).
pub open spec fn is_best_overlap(saved: Rect, monitors: Seq<MonitorArea>, i: int) -> bool {
    &&& 0 <= i < monitors.len()
    &&& overlap_area(saved, monitors[i].work) > 0
    &&& forall|j: int|
        0 <= j < monitors.len() ==> #[trigger] overlap_area(saved, monitors[j].work)
            <= overlap_area(saved, monitors[i].work)
    &&& forall|j: int|
        i < j < monitors.len() ==> #[trigger] overlap_area(saved, monitors[j].work)
            < overlap_area(saved, monitors[i].work)
}

/// The monitor a window remembered at `saved` is restored onto: the one it
/// overlaps most; where it overlaps none, the primary monitor; where there is
/// no primary monitor either, the first monitor; and none without monitors.
pub open spec fn restore_target(saved: Rect, monitors: Seq<MonitorArea>, primary: Option<usize>) -> Option<int> {
    if overlaps_any(saved, monitors) {
        Some(choose|i: int| is_best_overlap(saved, monitors, i))
    } else if primary is Some {
        Some(primary->0 as int)
    } else if monitors.len() > 0 {
        Some(0)
    } else {
        None
    }
}

/// A restored extent: the scaled extent, no larger than the work area's
/// extent, and no smaller than the minimum grabbable extent.
pub open spec fn fitted_extent(scaled: int, available: int, minimum: int) -> int {
    max_int(min_int(scaled, available), minimum)
}

/// The rectangle a window is restored to, as `(x, y, width, height)`.
///
/// Without monitors the remembered rectangle stands. Otherwise the size is
/// the remembered size scaled for the target monitor and fitted to its work
/// area; the remembered position stands where the window would be grabbable
/// on some monitor there, and is otherwise moved into the target's work area
/// (left and top edges first, then right and bottom).
pub open spec fn restore_geometry<S>(
    state: WindowState<S>,
    monitors: Seq<MonitorArea>,
    primary: Option<usize>,
) -> (int, int, int, int) {
    let saved = saved_rect(state);
    match restore_target(saved, monitors, primary) {
        None => (saved.0 as int, saved.1 as int, saved.2 as int, saved.3 as int),
        Some(t) => {
            let m = monitors[t];
            let w = fitted_extent(m.scaled_width as int, m.work.2 as int, MIN_VISIBLE_W as int);
            let h = fitted_extent(m.scaled_height as int, m.work.3 as int, MIN_VISIBLE_H as int);
            if visible_enough((state.x, state.y, w as i32, h as i32), monitors) {
                (state.x as int, state.y as int, w, h)
            } else {
                (
                    clamp_int(state.x as int, m.work.0 as int, max_int(m.work.0 + m.work.2 - w, m.work.0 as int)),
                    clamp_int(state.y as int, m.work.1 as int, max_int(m.work.1 + m.work.3 - h, m.work.1 as int)),
                    w,
                    h,
                )
            }
        },
    }
}

/// What `compute_restore_geometry` needs of its inputs: every work area has
/// `i32` edges, and a primary monitor that is fallen back on is one of the
/// monitors.
pub open spec fn restore_inputs_ok<S>(
    state: WindowState<S>,
    monitors: Seq<MonitorArea>,
    primary: Option<usize>,
) -> bool {
    &&& monitors_fit(monitors)
    &&& (!overlaps_any(saved_rect(state), monitors) && primary is Some) ==> (primary->0 as int)
        < monitors.len()
}

/// Length of the overlap of two spans, computed without overflow.
fn overlap_span(a_pos: i32, a_len: i32, b_pos: i32, b_len: i32) -> (r: i32)
    ensures
        r as int == overlap_len(a_pos as int, a_len as int, b_pos as int, b_len as int),
        0 <= r,
        r <= a_len || r == 0,
        r <= b_len || r == 0,
{
    let a_end = a_pos as i64 + a_len as i64;
    let b_end = b_pos as i64 + b_len as i64;
    let end = if a_end <= b_end { a_end } else { b_end };
    let start = if a_pos >= b_pos { a_pos as i64 } else { b_pos as i64 };
    let d = end - start;
    if d >= 0 {
        d as i32
    } else {
        0
    }
}

/// Width and height of the overlap of two rectangles; 0 on a side where they
/// do not overlap.
pub fn overlap_extent(a: Rect, b: Rect) -> (r: (i32, i32))
    ensures
        r.0 as int == overlap_w(a, b),
        r.1 as int == overlap_h(a, b),
{
    (overlap_span(a.0, a.2, b.0, b.2), overlap_span(a.1, a.3, b.1, b.3))
}

/// Whether `rect` is grabbable on at least one of `monitors`.
pub fn is_visible_enough(rect: Rect, monitors: &[MonitorArea]) -> (r: bool)
    ensures
        r == visible_enough(rect, monitors@),
{
    let mut i: usize = 0;
    while i < monitors.len()
        invariant
            i <= monitors@.len(),
            forall|j: int| 0 <= j < i ==> !grabbable_on(rect, #[trigger] monitors@[j].work),
        decreases monitors@.len() - i,
    {
        let work = monitors[i].work;
        let (ow, oh) = overlap_extent(rect, work);
        let grabbable = ow >= MIN_VISIBLE_W && oh >= MIN_VISIBLE_H;
        let title_reachable = rect.1 >= work.1 && (rect.1 as i64) <= work.1 as i64 + work.3 as i64
            - MIN_VISIBLE_H as i64;
        if grabbable && title_reachable {
            assert(grabbable_on(rect, monitors@[i as int].work));
            return true;
        }
        i = i + 1;
    }
    false
}

/// Area of the overlap of two rectangles.
fn overlap_area_of(a: Rect, b: Rect) -> (r: i64)
    ensures
        r as int == overlap_area(a, b),
        r >= 0,
{
    let (w, h) = overlap_extent(a, b);
    assert(0 <= (w as int) * (h as int) <= (i32::MAX as int) * (i32::MAX as int)) by (nonlinear_arith)
        requires
            0 <= w <= i32::MAX,
            0 <= h <= i32::MAX,
    ;
    (w as i64) * (h as i64)
}

/// The monitor that a window remembered at `saved` is restored onto (see
/// [`restore_target`]).
pub fn select_restore_target(saved: Rect, monitors: &[MonitorArea], primary: Option<usize>) -> (r: Option<usize>)
    ensures
        overlaps_any(saved, monitors@) ==> (r matches Some(i) && is_best_overlap(saved, monitors@, i as int)),
        !overlaps_any(saved, monitors@) ==> r == (if primary is Some {
            primary
        } else if monitors@.len() > 0 {
            Some(0usize)
        } else {
            None
        }),
{
    let mut best: Option<usize> = None;
    let mut best_area: i64 = 0;
    let mut i: usize = 0;
    while i < monitors.len()
        invariant
            i <= monitors@.len(),
            best is None ==> forall|j: int| 0 <= j < i ==> #[trigger] overlap_area(saved, monitors@[j].work) <= 0,
            best matches Some(b) ==> {
                &&& b < i
                &&& best_area as int == overlap_area(saved, monitors@[b as int].work)
                &&& best_area > 0
                &&& forall|j: int| 0 <= j < i ==> #[trigger] overlap_area(saved, monitors@[j].work) <= best_area
                &&& forall|j: int| b < j < i ==> #[trigger] overlap_area(saved, monitors@[j].work) < best_area
            },
        decreases monitors@.len() - i,
    {
        let area = overlap_area_of(saved, monitors[i].work);
        if area > 0 && (best.is_none() || area >= best_area) {
            best = Some(i);
            best_area = area;
        }
        i = i + 1;
    }
    if best.is_some() {
        return best;
    }
    assert(!overlaps_any(saved, monitors@));
    if primary.is_some() {
        primary
    } else if monitors.len() > 0 {
        Some(0)
    } else {
        None
    }
}

/// Only one monitor has the best overlap.
pub proof fn lemma_best_overlap_unique(saved: Rect, monitors: Seq<MonitorArea>, i: int, j: int)
    requires
        is_best_overlap(saved, monitors, i),
        is_best_overlap(saved, monitors, j),
    ensures
        i == j,
{
    if i < j {
        assert(overlap_area(saved, monitors[j].work) < overlap_area(saved, monitors[i].work));
    } else if j < i {
        assert(overlap_area(saved, monitors[i].work) < overlap_area(saved, monitors[j].work));
    }
}

/// `v` brought into `[lo, hi]` (`lo <= hi`).
fn clamp_i32(v: i32, lo: i32, hi: i32) -> (r: i32)
    requires
        lo <= hi,
    ensures
        r as int == clamp_int(v as int, lo as int, hi as int),
{
    if v < lo {
        lo
    } else if v > hi {
        hi
    } else {
        v
    }
}

/// Upper bound for the left (or top) edge that keeps an extent `len` inside
/// `[pos, pos + avail)`, and never below `pos`.
fn last_start(pos: i32, avail: i32, len: i32) -> (r: i32)
    requires
        i32::MIN <= pos + avail <= i32::MAX,
        len > 0,
    ensures
        r as int == max_int(pos + avail - len, pos as int),
{
    let end = pos as i64 + avail as i64 - len as i64;
    if end > pos as i64 {
        end as i32
    } else {
        pos
    }
}

/// The rectangle the main window is restored to, given the remembered
/// placement, the monitors present now, and the index of the primary monitor
/// among them (see [`restore_geometry`]).
pub fn compute_restore_geometry<S>(
    state: &WindowState<S>,
    monitors: &[MonitorArea],
    primary: Option<usize>,
) -> (r: Rect)
    requires
        restore_inputs_ok(*state, monitors@, primary),
    ensures
        (r.0 as int, r.1 as int, r.2 as int, r.3 as int) == restore_geometry(*state, monitors@, primary),
{
    let saved: Rect = (state.x, state.y, state.width as i32, state.height as i32);
    let target = select_restore_target(saved, monitors, primary);
    proof {
        if overlaps_any(saved, monitors@) {
            let t = target->0 as int;
            let c = choose|i: int| is_best_overlap(saved, monitors@, i);
            lemma_best_overlap_unique(saved, monitors@, t, c);
        }
    }
    let t = match target {
        Some(t) => t,
        None => {
            return saved;
        },
    };
    let m = monitors[t];
    let work = m.work;
    assert(edges_fit(monitors@[t as int].work));
    let w0 = if m.scaled_width <= work.2 { m.scaled_width } else { work.2 };
    let w = if w0 >= MIN_VISIBLE_W { w0 } else { MIN_VISIBLE_W };
    let h0 = if m.scaled_height <= work.3 { m.scaled_height } else { work.3 };
    let h = if h0 >= MIN_VISIBLE_H { h0 } else { MIN_VISIBLE_H };
    let mut x = state.x;
    let mut y = state.y;
    if !is_visible_enough((x, y, w, h), monitors) {
        x = clamp_i32(x, work.0, last_start(work.0, work.2, w));
        y = clamp_i32(y, work.1, last_start(work.1, work.3, h));
    }
    (x, y, w, h)
}


/// Among the first `k` monitors, the one with the largest positive overlap
/// with `saved` (the last of equal ones), if any overlaps.
proof fn lemma_best_overlap_in_prefix(saved: Rect, monitors: Seq<MonitorArea>, k: int) -> (b: Option<int>)
    requires
        0 <= k <= monitors.len(),
    ensures
        b is None ==> forall|j: int| 0 <= j < k ==> #[trigger] overlap_area(saved, monitors[j].work) <= 0,
        b matches Some(i) ==> {
            &&& 0 <= i < k
            &&& overlap_area(saved, monitors[i].work) > 0
            &&& forall|j: int|
                0 <= j < k ==> #[trigger] overlap_area(saved, monitors[j].work) <= overlap_area(
                    saved,
                    monitors[i].work,
                )
            &&& forall|j: int|
                i < j < k ==> #[trigger] overlap_area(saved, monitors[j].work) < overlap_area(
                    saved,
                    monitors[i].work,
                )
        },
    decreases k,
{
    if k == 0 {
        None
    } else {
        let prev = lemma_best_overlap_in_prefix(saved, monitors, k - 1);
        let a = overlap_area(saved, monitors[k - 1].work);
        if a > 0 && (prev is None || a >= overlap_area(saved, monitors[prev->0].work)) {
            Some(k - 1)
        } else {
            prev
        }
    }
}

/// Where some monitor overlaps the remembered rectangle, one of them has the
/// best overlap.
pub proof fn lemma_best_overlap_exists(saved: Rect, monitors: Seq<MonitorArea>)
    requires
        overlaps_any(saved, monitors),
    ensures
        exists|i: int| is_best_overlap(saved, monitors, i),
{
    let b = lemma_best_overlap_in_prefix(saved, monitors, monitors.len() as int);
    let w = choose|i: int| 0 <= i < monitors.len() && overlap_area(saved, #[trigger] monitors[i].work) > 0;
    assert(overlap_area(saved, monitors[w].work) > 0);
    assert(is_best_overlap(saved, monitors, b->0));
}

/// The restore target, where there is one, is one of the monitors.
pub proof fn lemma_restore_target_is_a_monitor<S>(
    state: WindowState<S>,
    monitors: Seq<MonitorArea>,
    primary: Option<usize>,
)
    requires
        restore_inputs_ok(state, monitors, primary),
    ensures
        monitors.len() > 0 <==> restore_target(saved_rect(state), monitors, primary) is Some,
        restore_target(saved_rect(state), monitors, primary) matches Some(t) ==> 0 <= t
            < monitors.len(),
{
    let saved = saved_rect(state);
    if overlaps_any(saved, monitors) {
        lemma_best_overlap_exists(saved, monitors);
    }
}

/// Without monitors (and so without a primary monitor), the remembered
/// rectangle is restored unchanged.
pub proof fn lemma_restore_without_monitors<S>(state: WindowState<S>)
    ensures
        restore_geometry(state, Seq::<MonitorArea>::empty(), None) == (
            state.x as int,
            state.y as int,
            (state.width as i32) as int,
            (state.height as i32) as int,
        ),
{
    assert(!overlaps_any(saved_rect(state), Seq::<MonitorArea>::empty()));
}

/// Where the remembered position is still grabbable on some monitor at the
/// restored size, the window keeps that position.
pub proof fn lemma_restore_keeps_grabbable_position<S>(
    state: WindowState<S>,
    monitors: Seq<MonitorArea>,
    primary: Option<usize>,
)
    requires
        restore_inputs_ok(state, monitors, primary),
        monitors.len() > 0,
        ({
            let g = restore_geometry(state, monitors, primary);
            visible_enough((state.x, state.y, g.2 as i32, g.3 as i32), monitors)
        }),
    ensures
        restore_geometry(state, monitors, primary).0 == state.x,
        restore_geometry(state, monitors, primary).1 == state.y,
{
    lemma_restore_target_is_a_monitor(state, monitors, primary);
}

/// `rect` can be grabbed on the work area `work`: the two overlap by at
/// least 120 pixels horizontally and 60 vertically (each starts at least
/// that far before the other ends, and each is at least that large), and the
/// top edge of `rect` lies between the work area's top and 60 pixels above
/// its bottom. Nothing is asked of the parts of `rect` outside the work area.
pub open spec fn can_grab_on(rect: (int, int, int, int), work: Rect) -> bool {
    &&& rect.0 + 120 <= work.0 + work.2
    &&& work.0 + 120 <= rect.0 + rect.2
    &&& rect.2 >= 120
    &&& work.2 >= 120
    &&& rect.1 + 60 <= work.1 + work.3
    &&& work.1 + 60 <= rect.1 + rect.3
    &&& rect.3 >= 60
    &&& work.3 >= 60
    &&& work.1 <= rect.1
}

/// A rectangle counts as visible enough exactly when it can be grabbed on
/// some monitor's work area (see [`can_grab_on`]); a window sticking out of a
/// work area sideways or downwards still counts where enough of it overlaps.
pub proof fn lemma_visible_enough_exactly(rect: Rect, monitors: Seq<MonitorArea>)
    ensures
        visible_enough(rect, monitors) <==> exists|i: int|
            0 <= i < monitors.len() && can_grab_on(
                (rect.0 as int, rect.1 as int, rect.2 as int, rect.3 as int),
                #[trigger] monitors[i].work,
            ),
{
    let r = (rect.0 as int, rect.1 as int, rect.2 as int, rect.3 as int);
    assert forall|i: int| 0 <= i < monitors.len() implies grabbable_on(rect, #[trigger] monitors[i].work)
        == can_grab_on(r, monitors[i].work) by {
        let w = monitors[i].work;
    }
    if visible_enough(rect, monitors) {
        let i = choose|i: int| 0 <= i < monitors.len() && grabbable_on(rect, #[trigger] monitors[i].work);
        assert(can_grab_on(r, monitors[i].work));
    }
    if exists|i: int| 0 <= i < monitors.len() && can_grab_on(r, #[trigger] monitors[i].work) {
        let i = choose|i: int| 0 <= i < monitors.len() && can_grab_on(r, #[trigger] monitors[i].work);
        assert(grabbable_on(rect, monitors[i].work));
    }
}

/// A restored window keeps its remembered position whenever, at its restored
/// size, it can be grabbed there on some monitor, even if it sticks out of
/// that monitor's work area or straddles two monitors.
pub proof fn lemma_restore_keeps_position_when_grabbable<S>(
    state: WindowState<S>,
    monitors: Seq<MonitorArea>,
    primary: Option<usize>,
)
    requires
        restore_inputs_ok(state, monitors, primary),
        monitors.len() > 0,
        ({
            let g = restore_geometry(state, monitors, primary);
            exists|i: int|
                0 <= i < monitors.len() && can_grab_on(
                    (state.x as int, state.y as int, g.2, g.3),
                    #[trigger] monitors[i].work,
                )
        }),
    ensures
        restore_geometry(state, monitors, primary).0 == state.x,
        restore_geometry(state, monitors, primary).1 == state.y,
{
    lemma_restore_target_is_a_monitor(state, monitors, primary);
    let g = restore_geometry(state, monitors, primary);
    let rect: Rect = (state.x, state.y, g.2 as i32, g.3 as i32);
    assert(rect.2 as int == g.2 && rect.3 as int == g.3);
    lemma_visible_enough_exactly(rect, monitors);
}

/// The restored size is the size scaled for the target monitor, cut down to
/// that monitor's work area and raised to the minimum grabbable size; so it
/// never exceeds a work area that can hold the minimum, and a scaled size
/// that fits is kept exactly.
pub proof fn lemma_restored_size_fits_target<S>(
    state: WindowState<S>,
    monitors: Seq<MonitorArea>,
    primary: Option<usize>,
)
    requires
        restore_inputs_ok(state, monitors, primary),
        monitors.len() > 0,
    ensures
        ({
            let g = restore_geometry(state, monitors, primary);
            let m = monitors[restore_target(saved_rect(state), monitors, primary)->0];
            &&& MIN_VISIBLE_W <= g.2
            &&& MIN_VISIBLE_H <= g.3
            &&& m.work.2 >= MIN_VISIBLE_W ==> g.2 <= m.work.2
            &&& m.work.3 >= MIN_VISIBLE_H ==> g.3 <= m.work.3
            &&& MIN_VISIBLE_W <= m.scaled_width <= m.work.2 ==> g.2 == m.scaled_width
            &&& MIN_VISIBLE_H <= m.scaled_height <= m.work.3 ==> g.3 == m.scaled_height
        }),
{
    lemma_restore_target_is_a_monitor(state, monitors, primary);
}

/// A window that cannot keep its remembered position is moved into the target
/// monitor's work area: its left and top edges inside, and its right and
/// bottom edges too wherever the window is no larger than the work area.
pub proof fn lemma_relocated_window_inside_work_area<S>(
    state: WindowState<S>,
    monitors: Seq<MonitorArea>,
    primary: Option<usize>,
)
    requires
        restore_inputs_ok(state, monitors, primary),
        monitors.len() > 0,
    ensures
        ({
            let g = restore_geometry(state, monitors, primary);
            let work = monitors[restore_target(saved_rect(state), monitors, primary)->0].work;
            ||| (g.0 == state.x && g.1 == state.y)
            ||| {
                &&& work.0 <= g.0
                &&& g.2 <= work.2 ==> g.0 + g.2 <= work.0 + work.2
                &&& work.1 <= g.1
                &&& g.3 <= work.3 ==> g.1 + g.3 <= work.1 + work.3
            }
        }),
{
    lemma_restore_target_is_a_monitor(state, monitors, primary);
}

/// Every work area can hold a window of the minimum grabbable size.
pub open spec fn work_areas_hold_minimum(monitors: Seq<MonitorArea>) -> bool {
    forall|i: int|
        0 <= i < monitors.len() ==> #[trigger] monitors[i].work.2 >= MIN_VISIBLE_W
            && monitors[i].work.3 >= MIN_VISIBLE_H
}

/// Whatever monitors were removed, resized or rescaled since the placement
/// was remembered, a restored window is grabbable on one of the monitors
/// present, as long as there is a monitor and every work area can hold a
/// window of the minimum grabbable size.
pub proof fn lemma_restored_window_is_grabbable<S>(
    state: WindowState<S>,
    monitors: Seq<MonitorArea>,
    primary: Option<usize>,
)
    requires
        restore_inputs_ok(state, monitors, primary),
        monitors.len() > 0,
        work_areas_hold_minimum(monitors),
    ensures
        ({
            let g = restore_geometry(state, monitors, primary);
            visible_enough((g.0 as i32, g.1 as i32, g.2 as i32, g.3 as i32), monitors)
        }),
{
    lemma_restore_target_is_a_monitor(state, monitors, primary);
    let saved = saved_rect(state);
    let t = restore_target(saved, monitors, primary)->0;
    let m = monitors[t];
    assert(m.work.2 >= MIN_VISIBLE_W && m.work.3 >= MIN_VISIBLE_H);
    assert(edges_fit(m.work));
    let g = restore_geometry(state, monitors, primary);
    let w = fitted_extent(m.scaled_width as int, m.work.2 as int, MIN_VISIBLE_W as int);
    let h = fitted_extent(m.scaled_height as int, m.work.3 as int, MIN_VISIBLE_H as int);
    if !visible_enough((state.x, state.y, w as i32, h as i32), monitors) {
        let r: Rect = (g.0 as i32, g.1 as i32, g.2 as i32, g.3 as i32);
        assert(r.0 == g.0 && r.1 == g.1 && r.2 == w && r.3 == h);
        assert(grabbable_on(r, m.work));
        assert(0 <= t < monitors.len() && grabbable_on(r, monitors[t].work));
    }
}


/// Whether `compute_restore_geometry` can be called on these inputs (see
/// [`restore_inputs_ok`]).
pub fn restore_inputs_valid<S>(state: &WindowState<S>, monitors: &[MonitorArea], primary: Option<usize>) -> (r: bool)
    ensures
        r == restore_inputs_ok(*state, monitors@, primary),
{
    let mut i: usize = 0;
    let mut any_overlap = false;
    let saved: Rect = (state.x, state.y, state.width as i32, state.height as i32);
    while i < monitors.len()
        invariant
            i <= monitors@.len(),
            saved == saved_rect(*state),
            forall|j: int| 0 <= j < i ==> edges_fit(#[trigger] monitors@[j].work),
            any_overlap <==> exists|j: int|
                0 <= j < i && overlap_area(saved, #[trigger] monitors@[j].work) > 0,
        decreases monitors@.len() - i,
    {
        let work = monitors[i].work;
        let right = work.0 as i64 + work.2 as i64;
        let bottom = work.1 as i64 + work.3 as i64;
        if right < i32::MIN as i64 || right > i32::MAX as i64 || bottom < i32::MIN as i64 || bottom
            > i32::MAX as i64 {
            assert(!edges_fit(monitors@[i as int].work));
            return false;
        }
        if overlap_area_of(saved, work) > 0 {
            any_overlap = true;
        }
        i = i + 1;
    }
    match primary {
        Some(p) => any_overlap || p < monitors.len(),
        None => true,
    }
}

/// Index of the first monitor whose work area is `work`, if any.
pub fn position_of_work_area(monitors: &[MonitorArea], work: Rect) -> (r: Option<usize>)
    ensures
        r matches Some(i) ==> i < monitors@.len() && monitors@[i as int].work == work && forall|j: int|
            0 <= j < i ==> #[trigger] monitors@[j].work != work,
        r is None ==> forall|j: int| 0 <= j < monitors@.len() ==> #[trigger] monitors@[j].work != work,
{
    let mut i: usize = 0;
    while i < monitors.len()
        invariant
            i <= monitors@.len(),
            forall|j: int| 0 <= j < i ==> #[trigger] monitors@[j].work != work,
        decreases monitors@.len() - i,
    {
        let m = monitors[i].work;
        if m.0 == work.0 && m.1 == work.1 && m.2 == work.2 && m.3 == work.3 {
            return Some(i);
        }
        i = i + 1;
    }
    None
}

/// What is seen of the main window when its placement is captured.
pub enum WindowObservation<S> {
    /// The window, or its position or size, could not be read.
    Unavailable,
    /// The window is minimized; its position is meaningless then.
    Minimized,
    /// The window is maximized.
    Maximized,
    /// The window is in its normal state, at this outer position and inner
    /// size, under this scale factor.
    Normal { x: i32, y: i32, width: u32, height: u32, scale: S },
}

/// The remembered placement after observing the window: a normal window
/// replaces it; a maximized window only sets the maximized flag, so that the
/// normal size is kept for when the window is restored; a minimized or
/// unreadable window leaves it as it is.
pub open spec fn captured<S>(last: Option<WindowState<S>>, observed: WindowObservation<S>) -> Option<WindowState<S>> {
    match observed {
        WindowObservation::Normal { x, y, width, height, scale } => Some(
            WindowState { x, y, width, height, maximized: false, scale },
        ),
        WindowObservation::Maximized => match last {
            Some(s) => Some(WindowState { maximized: true, ..s }),
            None => None,
        },
        _ => last,
    }
}

/// The remembered placement after observing the window (see [`captured`]).
pub fn capture_transition<S>(last: Option<WindowState<S>>, observed: WindowObservation<S>) -> (r: Option<
    WindowState<S>,
>)
    ensures
        r == captured(last, observed),
{
    match observed {
        WindowObservation::Normal { x, y, width, height, scale } => Some(
            WindowState { x, y, width, height, maximized: false, scale },
        ),
        WindowObservation::Maximized => match last {
            Some(s) => Some(WindowState { maximized: true, ..s }),
            None => None,
        },
        WindowObservation::Minimized => last,
        WindowObservation::Unavailable => last,
    }
}

/// Capturing a maximized window keeps the remembered normal position and
/// size; a minimized or unreadable window changes nothing.
pub proof fn lemma_capture_keeps_normal_bounds<S>(last: Option<WindowState<S>>, observed: WindowObservation<S>)
    requires
        !(observed is Normal),
    ensures
        captured(last, observed) is Some <==> last is Some,
        captured(last, observed) matches Some(s) ==> {
            &&& s.x == last->0.x
            &&& s.y == last->0.y
            &&& s.width == last->0.width
            &&& s.height == last->0.height
            &&& s.scale == last->0.scale
            &&& s.maximized == (last->0.maximized || observed is Maximized)
        },
{
}

/// The last maximized state that the front end was told of.
pub struct MaximizeTracker {
    pub last: bool,
}

impl MaximizeTracker {
    /// A tracker that last reported `maximized`.
    pub fn new(maximized: bool) -> (t: Self)
        ensures
            t.last == maximized,
    {
        MaximizeTracker { last: maximized }
    }

    /// Records the window's maximized state and says whether it changed since
    /// the last record, that is, whether the front end is to be told.
    pub fn observe(&mut self, maximized: bool) -> (changed: bool)
        ensures
            final(self).last == maximized,
            changed == (old(self).last != maximized),
    {
        let changed = self.last != maximized;
        self.last = maximized;
        changed
    }
}

} // verus!

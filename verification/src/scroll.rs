//! Scroll windowing: clamping an offset against a row count that changes
//! from frame to frame, stepping it, and sizing a proportional scrollbar.
//!
//! Everything here is arithmetic on plain integers. `n` is always the number
//! of rows in the visible sequence and `visible` the number of rows the
//! renderer can show in the current frame.

use vstd::prelude::*;

verus! {

/// How many single steps a page action performs.
pub const PAGE_STEPS: usize = 10;

/// The furthest offset a window over `n` rows may start at when `visible`
/// rows fit on screen: the one that brings the last row into view, and never
/// past the last row itself.
pub open spec fn last_offset(n: int, visible: int) -> int {
    if n <= 0 {
        0
    } else if 1 <= visible < n {
        n - visible
    } else {
        n - 1
    }
}

/// The offset after the clamping pass.
pub open spec fn clamped(offset: int, n: int, visible: int) -> int {
    if offset <= last_offset(n, visible) {
        offset
    } else {
        last_offset(n, visible)
    }
}

/// The offset after one scroll-up action.
pub open spec fn stepped_up(offset: int) -> int {
    if offset > 0 {
        offset - 1
    } else {
        offset
    }
}

/// The offset after one scroll-down action. An offset already on or beyond
/// the last row stays where it is; any other offset advances by one but is
/// pulled back to `last_offset` when it would pass it.
pub open spec fn stepped_down(offset: int, n: int, visible: int) -> int {
    if n <= 0 || offset >= n - 1 {
        offset
    } else if offset + 1 <= last_offset(n, visible) {
        offset + 1
    } else {
        last_offset(n, visible)
    }
}

/// `times` scroll-up actions in a row.
pub open spec fn stepped_up_times(offset: int, times: nat) -> int
    decreases times,
{
    if times == 0 {
        offset
    } else {
        stepped_up_times(stepped_up(offset), (times - 1) as nat)
    }
}

/// `times` scroll-down actions in a row.
pub open spec fn stepped_down_times(offset: int, n: int, visible: int, times: nat) -> int
    decreases times,
{
    if times == 0 {
        offset
    } else {
        stepped_down_times(stepped_down(offset, n, visible), n, visible, (times - 1) as nat)
    }
}

/// Repeated scroll-up is subtraction that stops at zero.
pub proof fn lemma_stepped_up_times(offset: int, times: nat)
    requires
        offset >= 0,
    ensures
        stepped_up_times(offset, times) == if offset >= times {
            offset - times
        } else {
            0
        },
    decreases times,
{
    if times > 0 {
        lemma_stepped_up_times(stepped_up(offset), (times - 1) as nat);
    }
}

/// Repeated scroll-down is addition that stops at `last_offset`, except that
/// an offset on or beyond the last row never moves.
pub proof fn lemma_stepped_down_times(offset: int, n: int, visible: int, times: nat)
    requires
        offset >= 0,
        visible >= 0,
    ensures
        stepped_down_times(offset, n, visible, times) == if times == 0 || n <= 0 || offset >= n
            - 1 {
            offset
        } else if offset + times <= last_offset(n, visible) {
            offset + times
        } else {
            last_offset(n, visible)
        },
    decreases times,
{
    if times > 0 {
        lemma_stepped_down_times(
            stepped_down(offset, n, visible),
            n,
            visible,
            (times - 1) as nat,
        );
    }
}

/// A clamped offset lies on a row of the visible sequence, or is zero where
/// there is none, and where the rows do not all fit it leaves a full
/// screenful below it. Clamping it again changes nothing.
pub proof fn lemma_clamped_bounds(offset: int, n: int, visible: int)
    requires
        0 <= offset,
        0 <= n,
        0 <= visible,
    ensures
        0 <= clamped(offset, n, visible) <= offset,
        n == 0 ==> clamped(offset, n, visible) == 0,
        n > 0 ==> clamped(offset, n, visible) <= n - 1,
        n > visible ==> clamped(offset, n, visible) <= n - visible,
        clamped(clamped(offset, n, visible), n, visible) == clamped(offset, n, visible),
{
}

/// Clamps `offset` for a visible sequence of `n` rows of which `visible` fit
/// on screen. With no rows the offset is forced to zero; otherwise it is
/// brought down to the last row, and further down to `n - visible` when the
/// rows do not all fit.
pub fn clamp_offset(offset: usize, n: usize, visible: usize) -> (r: usize)
    ensures
        r == clamped(offset as int, n as int, visible as int),
        r <= offset,
        n == 0 ==> r == 0,
        n > 0 ==> r <= n - 1,
        n > visible ==> r <= n - visible,
{
    let mut r: usize = offset;
    if n == 0 {
        r = 0;
    } else if r >= n {
        r = n - 1;
    }
    if n > visible && r > n - visible {
        r = n - visible;
    }
    r
}

/// The half-open range `[start, start + len)` of the visible sequence that is
/// on screen.
#[derive(Clone, Copy, Debug, PartialEq, Eq, Structural)]
pub struct Window {
    pub start: usize,
    pub len: usize,
}

/// The number of rows shown from `start` on.
pub open spec fn window_len(start: int, n: int, visible: int) -> int {
    if visible <= n - start {
        visible
    } else {
        n - start
    }
}

/// Clamps `offset` and cuts the window that starts there: as many rows as fit
/// on screen, or as many as are left.
pub fn window(offset: usize, n: usize, visible: usize) -> (w: Window)
    ensures
        w.start == clamped(offset as int, n as int, visible as int),
        w.len == window_len(w.start as int, n as int, visible as int),
        w.start + w.len <= n,
        n == 0 ==> w.len == 0,
        n > 0 && visible > 0 ==> w.len > 0,
        n > visible ==> w.len == visible,
{
    let start: usize = clamp_offset(offset, n, visible);
    let left: usize = n - start;
    let len: usize = if visible <= left {
        visible
    } else {
        left
    };
    Window { start, len }
}

/// One scroll-up action.
pub fn scroll_up(offset: usize) -> (r: usize)
    ensures
        r == stepped_up(offset as int),
{
    if offset > 0 {
        offset - 1
    } else {
        offset
    }
}

/// One scroll-down action over `n` rows of which `visible` fit on screen.
pub fn scroll_down(offset: usize, n: usize, visible: usize) -> (r: usize)
    ensures
        r == stepped_down(offset as int, n as int, visible as int),
        r <= offset + 1,
        r <= offset || r < n,
{
    if n > 0 && offset < n - 1 {
        if n > visible {
            if offset < n - visible {
                offset + 1
            } else {
                n - visible
            }
        } else {
            offset + 1
        }
    } else {
        offset
    }
}

/// A page-up action: `PAGE_STEPS` scroll-up actions.
pub fn page_up(offset: usize) -> (r: usize)
    ensures
        r == stepped_up_times(offset as int, PAGE_STEPS as nat),
        r == if offset >= PAGE_STEPS {
            offset - PAGE_STEPS
        } else {
            0
        },
{
    let mut r: usize = offset;
    let mut i: usize = 0;
    while i < PAGE_STEPS
        invariant
            i <= PAGE_STEPS,
            r <= offset,
            stepped_up_times(r as int, (PAGE_STEPS - i) as nat) == stepped_up_times(
                offset as int,
                PAGE_STEPS as nat,
            ),
        decreases PAGE_STEPS - i,
    {
        r = scroll_up(r);
        i = i + 1;
    }
    proof {
        lemma_stepped_up_times(offset as int, PAGE_STEPS as nat);
    }
    r
}

/// A page-down action: `PAGE_STEPS` scroll-down actions.
pub fn page_down(offset: usize, n: usize, visible: usize) -> (r: usize)
    ensures
        r == stepped_down_times(offset as int, n as int, visible as int, PAGE_STEPS as nat),
        r == if n == 0 || offset >= n - 1 {
            offset as int
        } else if offset + PAGE_STEPS <= last_offset(n as int, visible as int) {
            offset + PAGE_STEPS
        } else {
            last_offset(n as int, visible as int)
        },
        r <= offset || r < n,
{
    let mut r: usize = offset;
    let mut i: usize = 0;
    while i < PAGE_STEPS
        invariant
            i <= PAGE_STEPS,
            r <= offset || r < n,
            stepped_down_times(r as int, n as int, visible as int, (PAGE_STEPS - i) as nat)
                == stepped_down_times(offset as int, n as int, visible as int, PAGE_STEPS as nat),
        decreases PAGE_STEPS - i,
    {
        r = scroll_down(r, n, visible);
        i = i + 1;
    }
    proof {
        lemma_stepped_down_times(offset as int, n as int, visible as int, PAGE_STEPS as nat);
    }
    r
}

/// The offset after a row has been inserted above the viewport. A passive
/// viewer who has scrolled away from the top keeps looking at the same rows,
/// so the offset follows them down by one; a viewer at the top, or one who is
/// typing, is left alone.
pub open spec fn after_arrival(offset: int, passive: bool) -> int {
    if offset != 0 && passive {
        offset + 1
    } else {
        offset
    }
}

/// Adjusts `offset` for one row inserted at the head of the log.
pub fn follow_arrival(offset: usize, passive: bool) -> (r: usize)
    requires
        offset < usize::MAX,
    ensures
        r == after_arrival(offset as int, passive),
{
    if offset != 0 && passive {
        offset + 1
    } else {
        offset
    }
}

/// `num / den` rounded to the nearest integer, halves rounded up.
pub open spec fn rounded_div(num: int, den: int) -> int {
    (2 * num + den) / (2 * den)
}

/// The height of the scrollbar thumb on a track of `track` rows: the share of
/// the track that the screenful takes of all rows, and at least one row.
pub open spec fn thumb_height(n: int, visible: int, track: int) -> int {
    let h = rounded_div(visible * track, n);
    if h >= 1 {
        h
    } else {
        1
    }
}

/// How far the thumb can move: the track rows that it does not cover.
pub open spec fn thumb_travel(n: int, visible: int, track: int) -> int {
    let h = thumb_height(n, visible, track);
    if track >= h {
        track - h
    } else {
        0
    }
}

/// The first track row that the thumb covers: the offset's share of the
/// scrollable range, taken of the thumb's travel, and never past its end.
pub open spec fn thumb_pos(n: int, visible: int, offset: int, track: int) -> int {
    let travel = thumb_travel(n, visible, track);
    let range = n - visible;
    let p = if range > 0 {
        rounded_div(offset * travel, range)
    } else {
        0
    };
    if p <= travel {
        p
    } else {
        travel
    }
}

/// A quotient rounded to nearest does not exceed a bound that the exact
/// quotient stays below.
proof fn lemma_rounded_div_below(num: int, den: int, bound: int)
    requires
        den > 0,
        num >= 0,
        bound >= 0,
        num < den * bound,
    ensures
        0 <= rounded_div(num, den) <= bound,
{
    let a = 2 * num + den;
    let b = 2 * den;
    assert(a < b * (bound + 1)) by (nonlinear_arith)
        requires
            a == 2 * num + den,
            b == 2 * den,
            num < den * bound,
            den > 0,
    ;
    assert(0 <= a / b <= bound) by (nonlinear_arith)
        requires
            0 <= a < b * (bound + 1),
            b > 0,
    ;
}

/// Rounding to nearest keeps the order of the numerators.
proof fn lemma_rounded_div_ordered(x: int, y: int, den: int)
    requires
        den > 0,
        x <= y,
    ensures
        rounded_div(x, den) <= rounded_div(y, den),
{
    vstd::arithmetic::div_mod::lemma_div_is_ordered(2 * x + den, 2 * y + den, 2 * den);
}

/// The thumb is at least one row high and lies wholly on the track, wherever
/// the offset stands, whenever there is a scrollbar to draw: more rows than
/// fit on screen, and a track of at least one row.
pub proof fn lemma_thumb_on_track(n: int, visible: int, offset: int, track: int)
    requires
        0 <= visible < n,
        0 <= offset,
        1 <= track,
    ensures
        1 <= thumb_height(n, visible, track) <= track,
        0 <= thumb_pos(n, visible, offset, track),
        thumb_pos(n, visible, offset, track) + thumb_height(n, visible, track) <= track,
{
    assert(0 <= visible * track < n * track) by (nonlinear_arith)
        requires
            0 <= visible < n,
            1 <= track,
    ;
    lemma_rounded_div_below(visible * track, n, track);
    let travel = thumb_travel(n, visible, track);
    let range = n - visible;
    assert(0 <= offset * travel) by (nonlinear_arith)
        requires
            0 <= offset,
            0 <= travel,
    ;
    assert(0 <= (2 * (offset * travel) + range) / (2 * range)) by (nonlinear_arith)
        requires
            0 <= offset * travel,
            0 < range,
    ;
}

/// The thumb never moves up when the offset moves down.
pub proof fn lemma_thumb_pos_monotonic(n: int, visible: int, track: int, a: int, b: int)
    requires
        0 <= visible < n,
        0 <= a <= b,
        1 <= track,
    ensures
        thumb_pos(n, visible, a, track) <= thumb_pos(n, visible, b, track),
{
    lemma_thumb_on_track(n, visible, a, track);
    let travel = thumb_travel(n, visible, track);
    assert(a * travel <= b * travel) by (nonlinear_arith)
        requires
            a <= b,
            0 <= travel,
    ;
    lemma_rounded_div_ordered(a * travel, b * travel, n - visible);
}

/// Where the scrollbar thumb sits on its track.
#[derive(Clone, Copy, Debug, PartialEq, Eq, Structural)]
pub struct Scrollbar {
    /// The first track row that the thumb covers.
    pub thumb_pos: u16,
    /// The number of track rows that the thumb covers.
    pub thumb_height: u16,
}

impl Scrollbar {
    /// Whether track row `row` is drawn filled.
    pub open spec fn covers(self, row: int) -> bool {
        self.thumb_pos <= row < self.thumb_pos + self.thumb_height
    }

    /// Whether track row `row` is drawn filled rather than empty.
    pub fn is_filled(&self, row: u16) -> (r: bool)
        ensures
            r == self.covers(row as int),
    {
        row >= self.thumb_pos && row - self.thumb_pos < self.thumb_height
    }
}

/// `num / den` rounded to nearest, on machine integers.
fn div_round(num: u128, den: u128) -> (q: u128)
    requires
        den > 0,
        num < 0x1_0000_0000_0000_0000_0000,
        den < 0x1_0000_0000_0000_0000_0000,
    ensures
        q == rounded_div(num as int, den as int),
{
    (2 * num + den) / (2 * den)
}

/// The scrollbar for `n` rows of which `visible` fit on screen, scrolled to
/// `offset`, on a track of `track` rows. There is one only when the rows do
/// not all fit and the track has at least one row.
pub fn scrollbar(n: usize, visible: usize, offset: usize, track: u16) -> (bar: Option<Scrollbar>)
    ensures
        bar is Some <==> n > visible && track > 0,
        bar matches Some(b) ==> {
            &&& b.thumb_height == thumb_height(n as int, visible as int, track as int)
            &&& b.thumb_pos == thumb_pos(n as int, visible as int, offset as int, track as int)
            &&& b.thumb_height >= 1
            &&& b.thumb_pos + b.thumb_height <= track
        },
{
    if n <= visible || track == 0 {
        return None;
    }
    proof {
        lemma_thumb_on_track(n as int, visible as int, offset as int, track as int);
    }
    assert(visible * track < 0x1_0000_0000_0000_0000_0000) by (nonlinear_arith)
        requires
            visible < 0x1_0000_0000_0000_0000,
            track < 0x1_0000,
    ;
    let share: u128 = div_round((visible as u128) * (track as u128), n as u128);
    let height: u16 = if share >= 1 {
        share as u16
    } else {
        1
    };
    let travel: u16 = track - height;
    let range: usize = n - visible;
    assert(offset * travel < 0x1_0000_0000_0000_0000_0000) by (nonlinear_arith)
        requires
            offset < 0x1_0000_0000_0000_0000,
            travel < 0x1_0000,
    ;
    let share: u128 = div_round((offset as u128) * (travel as u128), range as u128);
    let pos: u16 = if share <= travel as u128 {
        share as u16
    } else {
        travel
    };
    Some(Scrollbar { thumb_pos: pos, thumb_height: height })
}

/// The whole track, row by row: `true` where the thumb is.
pub fn track_cells(bar: &Scrollbar, track: u16) -> (cells: Vec<bool>)
    ensures
        cells@.len() == track,
        forall|row: int| 0 <= row < track ==> cells@[row] == bar.covers(row),
{
    let mut cells: Vec<bool> = Vec::new();
    let mut row: u16 = 0;
    while row < track
        invariant
            row <= track,
            cells@.len() == row,
            forall|k: int| 0 <= k < row ==> cells@[k] == bar.covers(k),
        decreases track - row,
    {
        cells.push(bar.is_filled(row));
        row = row + 1;
    }
    cells
}

} // verus!

//! App-level mouse state machine: multi-click detection.

use vstd::prelude::*;

use std::time::{Duration, Instant};

verus! {

/// Multi-click timeout in milliseconds.
pub const MULTI_CLICK_TIMEOUT_MS: u64 = 500;

/// Maximum distance (in cells) for a click to count as a multi-click.
pub const MULTI_CLICK_MAX_DISTANCE: usize = 3;

/// A point in time of std's monotonic clock.
#[verifier::external_type_specification]
#[verifier::external_body]
pub struct ExInstant(Instant);

/// `Instant::now` of std. The clock is read: nothing is stated of the result.
#[verifier::external_body]
fn instant_now() -> Instant {
    Instant::now()
}

/// `Instant::duration_since` of std: the time from `earlier` to `later`,
/// zero when `later` is not after `earlier`. Instants have no view here:
/// nothing is stated of the result.
#[verifier::external_body]
fn duration_since(later: Instant, earlier: Instant) -> Duration {
    later.duration_since(earlier)
}

/// `Duration::as_millis` of std: the whole milliseconds of `d`. Durations
/// have no view here: nothing is stated of the result.
#[verifier::external_body]
fn as_millis(d: Duration) -> u128 {
    d.as_millis()
}

/// Distance between two cells, in steps along rows and columns.
pub open spec fn cell_distance(col: usize, row: usize, last: (usize, usize)) -> int {
    (if col >= last.0 {
        col - last.0
    } else {
        last.0 - col
    }) + (if row >= last.1 {
        row - last.1
    } else {
        last.1 - row
    })
}

/// The click count after a click that came `elapsed_ms` after the last one
/// and `distance` cells from it: the count goes on (1, 2, 3, then 1 again)
/// when the click is quick and near enough, else it starts over at 1.
pub open spec fn next_click_count(count: u8, elapsed_ms: u64, distance: int) -> u8 {
    if elapsed_ms < MULTI_CLICK_TIMEOUT_MS && distance <= MULTI_CLICK_MAX_DISTANCE {
        if count >= 3 {
            1
        } else {
            (count + 1) as u8
        }
    } else {
        1
    }
}

/// Tracks mouse state for the main thread event loop.
pub struct MouseState {
    /// Last computed cell position (col, row).
    pub cell_pos: (usize, usize),
    /// Whether the left button is currently pressed.
    pub left_pressed: bool,
    /// Click count for multi-click detection (1=single, 2=double, 3=triple).
    pub click_count: u8,
    /// Timestamp of last click.
    pub last_click_time: Instant,
    /// Cell position of last click (col, row).
    pub last_click_pos: (usize, usize),
}

impl Default for MouseState {
    /// The state of [`MouseState::new`].
    fn default() -> (m: Self)
        ensures
            m.cell_pos == (0usize, 0usize),
            !m.left_pressed,
            m.click_count == 0,
            m.last_click_pos == (0usize, 0usize),
    {
        Self::new()
    }
}

impl MouseState {
    /// Creates a new mouse state with default values.
    pub fn new() -> (m: Self)
        ensures
            m.cell_pos == (0usize, 0usize),
            !m.left_pressed,
            m.click_count == 0,
            m.last_click_pos == (0usize, 0usize),
    {
        MouseState {
            cell_pos: (0, 0),
            left_pressed: false,
            click_count: 0,
            last_click_time: instant_now(),
            last_click_pos: (0, 0),
        }
    }

    /// Records a click at (`col`, `row`) made at `now`, `elapsed_ms` after
    /// the previous click, and returns the click count (1, 2, or 3).
    pub fn record_click(&mut self, col: usize, row: usize, now: Instant, elapsed_ms: u64) -> (count: u8)
        requires
            cell_distance(col, row, old(self).last_click_pos) <= usize::MAX,
        ensures
            count == next_click_count(old(self).click_count, elapsed_ms, cell_distance(col, row, old(self).last_click_pos)),
            ({
                let (c0, r0) = old(self).last_click_pos;
                let dx: int = if col >= c0 { col - c0 } else { c0 - col };
                let dy: int = if row >= r0 { row - r0 } else { r0 - row };
                &&& dx + dy > 3 ==> count == 1
                &&& elapsed_ms >= 500 ==> count == 1
                &&& dx + dy <= 3 && elapsed_ms < 500 ==> count == (if old(self).click_count >= 3 {
                    1
                } else {
                    old(self).click_count + 1
                })
            }),
            final(self).click_count == count,
            final(self).last_click_pos == (col, row),
            final(self).last_click_time == now,
            final(self).cell_pos == old(self).cell_pos,
            final(self).left_pressed == old(self).left_pressed,
    {
        let dx = if col >= self.last_click_pos.0 {
            col - self.last_click_pos.0
        } else {
            self.last_click_pos.0 - col
        };
        let dy = if row >= self.last_click_pos.1 {
            row - self.last_click_pos.1
        } else {
            self.last_click_pos.1 - row
        };
        let distance = dx + dy;
        if elapsed_ms < MULTI_CLICK_TIMEOUT_MS && distance <= MULTI_CLICK_MAX_DISTANCE {
            self.click_count = if self.click_count >= 3 {
                1
            } else {
                self.click_count + 1
            };
        } else {
            self.click_count = 1;
        }
        self.last_click_time = now;
        self.last_click_pos = (col, row);
        self.click_count
    }

    /// Register a click and return the click count (1, 2, or 3).
    pub fn register_click(&mut self, col: usize, row: usize) -> (count: u8)
        requires
            cell_distance(col, row, old(self).last_click_pos) <= usize::MAX,
        ensures
            1 <= count <= 3,
            cell_distance(col, row, old(self).last_click_pos) > MULTI_CLICK_MAX_DISTANCE ==> count == 1,
            count == 2 ==> old(self).click_count == 1,
            count == 3 ==> old(self).click_count == 2,
            final(self).click_count == count,
            final(self).last_click_pos == (col, row),
            final(self).cell_pos == old(self).cell_pos,
            final(self).left_pressed == old(self).left_pressed,
    {
        let now = instant_now();
        let elapsed: u64 = #[verifier::truncate] (as_millis(duration_since(now, self.last_click_time)) as u64);
        self.record_click(col, row, now, elapsed)
    }
}


/// Law: clicks that come quickly enough and near enough cycle the count
/// through single, double and triple click and back.
pub proof fn law_quick_clicks_cycle(count: u8, elapsed_ms: u64, distance: int)
    requires
        1 <= count <= 3,
        elapsed_ms < MULTI_CLICK_TIMEOUT_MS,
        distance <= MULTI_CLICK_MAX_DISTANCE,
    ensures
        next_click_count(next_click_count(next_click_count(count, elapsed_ms, distance), elapsed_ms, distance), elapsed_ms, distance) == count,
        next_click_count(count, elapsed_ms, distance) == (if count == 3 { 1u8 } else { (count + 1) as u8 }),
{
}

/// Law: a click more than three cells away from the last one, counting
/// the steps along columns and rows together, starts the count over at one
/// however quick it is; so does a click half a second or more after the
/// last one, however near.
pub proof fn law_far_or_late_click_starts_over(count: u8, elapsed_ms: u64, col: usize, row: usize, last: (usize, usize))
    ensures
        ({
            let dx: int = if col >= last.0 { col - last.0 } else { last.0 - col };
            let dy: int = if row >= last.1 { row - last.1 } else { last.1 - row };
            dx + dy > 3 ==> next_click_count(count, elapsed_ms, cell_distance(col, row, last)) == 1
        }),
        elapsed_ms >= 500 ==> next_click_count(count, elapsed_ms, cell_distance(col, row, last)) == 1,
{
}

} // verus!

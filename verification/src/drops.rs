//! Falling raindrops: a fixed pool of drops that start falling at staggered
//! times, move down the canvas at a wall-clock rate independent of the frame
//! rate, and are repositioned at the top with a fresh random column when they
//! reach the floor or score a collision.
//!
//! Time is a plain count of milliseconds handed in by the caller, so drop
//! movement is deterministic under synthetic timestamps; only the column a
//! drop is reset to is random.

use vstd::prelude::*;

verus! {

/// One falling drop. Coordinates are the top-left corner of its
/// `DROP_SIZE` by `DROP_SIZE` sprite.
#[derive(Clone, Copy, Debug, PartialEq, Eq, Structural)]
pub struct Raindrop {
    /// Column of the sprite's left edge.
    pub x: u32,
    /// Row of the sprite's top edge; `0` is the top of the canvas.
    pub y: u32,
    /// Instant (in milliseconds) at which the drop starts falling.
    pub start_time: u64,
    /// Instant (in milliseconds) of the drop's last downward move.
    pub last_update: u64,
}

/// How many pixels a drop falls over `elapsed_ms` milliseconds at
/// `DROP_SPEED_PPS` pixels per second, rounded to the nearest pixel.
pub open spec fn fall_pixels(elapsed_ms: int) -> int {
    (elapsed_ms * crate::DROP_SPEED_PPS + 500) / 1000
}

/// The drop after one timed downward move at `now`: its row grows by the
/// distance fallen since `last_update` (clamped to the `u32` range) and the
/// move is stamped with `now`. Column and start time are untouched.
pub open spec fn spec_fallen(d: Raindrop, now: u64) -> Raindrop {
    let elapsed = if d.last_update <= now { now - d.last_update } else { 0 };
    let new_y = d.y + fall_pixels(elapsed);
    Raindrop {
        y: if new_y > u32::MAX { u32::MAX } else { new_y as u32 },
        last_update: now,
        ..d
    }
}

impl Raindrop {
    /// Moves the drop down by the time elapsed since its last update, at
    /// `DROP_SPEED_PPS` pixels per second. A `now` earlier than
    /// `last_update` counts as no elapsed time.
    pub fn fall(&mut self, now: u64)
        ensures
            *final(self) == spec_fallen(*old(self), now),
    {
        let elapsed: u64 = now.saturating_sub(self.last_update);
        proof {
            assert(elapsed as int * (crate::DROP_SPEED_PPS as int) + 500 <= u128::MAX)
                by (nonlinear_arith)
                requires
                    elapsed <= u64::MAX,
                    crate::DROP_SPEED_PPS == 200,
            ;
        }
        let step: u128 = (elapsed as u128 * crate::DROP_SPEED_PPS as u128 + 500) / 1000;
        let new_y: u128 = self.y as u128 + step;
        self.y = if new_y > u32::MAX as u128 {
            u32::MAX
        } else {
            new_y as u32
        };
        self.last_update = now;
    }

    /// Puts the drop back at the top of the canvas in a fresh random column.
    /// Start time and last update are untouched, so a reset drop keeps
    /// falling on the next frame.
    pub fn reset(&mut self, width: u32)
        requires
            crate::DROP_SIZE < width,
        ensures
            final(self).y == 0,
            final(self).x < width - crate::DROP_SIZE,
            final(self).start_time == old(self).start_time,
            final(self).last_update == old(self).last_update,
    {
        self.y = 0;
        self.x = random_below(width - crate::DROP_SIZE);
    }

    /// Makes a fresh drop at the top of the canvas in a random column, with
    /// the given staggered start time.
    pub fn spawn(width: u32, start_time: u64, now: u64) -> (r: Raindrop)
        requires
            crate::DROP_SIZE < width,
        ensures
            r.y == 0,
            r.x < width - crate::DROP_SIZE,
            r.start_time == start_time,
            r.last_update == now,
    {
        Raindrop { x: random_below(width - crate::DROP_SIZE), y: 0, start_time, last_update: now }
    }
}

/// A drop never moves up: falling only grows its row (up to the `u32` cap).
pub proof fn lemma_fall_monotonic(d: Raindrop, now: u64)
    ensures
        d.y <= spec_fallen(d, now).y,
{
}

/// Relies on `rand::random_range` over the half-open range `0..bound`:
/// the drawn value is uniform in `[0, bound)`, and the call panics only on
/// an empty range, which `requires` rules out.
#[verifier::external_body]
fn random_below(bound: u32) -> (r: u32)
    requires
        bound > 0,
    ensures
        r < bound,
{
    rand::random_range(0..bound)
}

} // verus!

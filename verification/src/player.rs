//! The player-controlled square: per-frame movement from held direction
//! keys, clamped to the canvas, and the score-driven size change that keeps
//! the square centered and inside the canvas.

use vstd::prelude::*;

verus! {

/// The player's square, given by its top-left corner and edge length.
#[derive(Clone, Copy, Debug, PartialEq, Eq, Structural)]
pub struct Player {
    /// Column of the square's left edge.
    pub x: u32,
    /// Row of the square's top edge.
    pub y: u32,
    /// Edge length of the square.
    pub size: u32,
}

impl Player {
    /// The square lies fully on a canvas of the given dimensions.
    pub open spec fn in_bounds(self, width: u32, height: u32) -> bool {
        &&& self.x + self.size <= width
        &&& self.y + self.size <= height
    }

    /// The player's collision rectangle.
    pub open spec fn rect(self) -> (u32, u32, u32, u32) {
        (self.x, self.y, self.size, self.size)
    }
}

/// One coordinate moved towards zero by the player step, stopping at zero.
pub open spec fn step_down(v: u32) -> int {
    if v >= crate::PLAYER_STEP {
        v - crate::PLAYER_STEP
    } else {
        0
    }
}

/// One coordinate moved away from zero by the player step, stopping where
/// the square's far edge reaches `limit`.
pub open spec fn step_up(v: int, size: u32, limit: u32) -> int {
    if v + size + crate::PLAYER_STEP <= limit {
        v + crate::PLAYER_STEP
    } else {
        limit - size
    }
}

/// The player after one frame of held keys: up before down, then left
/// before right, each axis clamped to the canvas.
pub open spec fn spec_moved(p: Player, up: bool, down: bool, left: bool, right: bool, width: u32, height: u32) -> Player {
    let y1 = if up { step_down(p.y) } else { p.y as int };
    let y2 = if down { step_up(y1, p.size, height) } else { y1 };
    let x1 = if left { step_down(p.x) } else { p.x as int };
    let x2 = if right { step_up(x1, p.size, width) } else { x1 };
    Player { x: x2 as u32, y: y2 as u32, size: p.size }
}

/// The player after a size change: the square keeps its center as far as
/// the canvas allows and is clamped back inside the canvas.
pub open spec fn spec_resized(p: Player, new_size: u32, width: u32, height: u32) -> Player {
    if new_size == p.size {
        p
    } else {
        let ix = p.x + p.size / 2 - new_size / 2;
        let iy = p.y + p.size / 2 - new_size / 2;
        let cx = if ix < 0 { 0 } else if ix > width - new_size { width - new_size } else { ix };
        let cy = if iy < 0 { 0 } else if iy > height - new_size { height - new_size } else { iy };
        Player { x: cx as u32, y: cy as u32, size: new_size }
    }
}

impl Player {
    /// Moves the square by the held keys, one axis at a time, never past a
    /// canvas edge: at an edge, a key held towards it leaves the square
    /// where it is.
    pub fn update_position(&mut self, up: bool, down: bool, left: bool, right: bool, width: u32, height: u32)
        requires
            old(self).in_bounds(width, height),
        ensures
            *final(self) == spec_moved(*old(self), up, down, left, right, width, height),
            final(self).in_bounds(width, height),
            final(self).size == old(self).size,
    {
        if up {
            self.y = self.y.saturating_sub(crate::PLAYER_STEP);
        }
        if down {
            let bottom = height - self.size;
            if self.y as u64 + crate::PLAYER_STEP as u64 <= bottom as u64 {
                self.y = self.y + crate::PLAYER_STEP;
            } else {
                self.y = bottom;
            }
        }
        if left {
            self.x = self.x.saturating_sub(crate::PLAYER_STEP);
        }
        if right {
            let rightmost = width - self.size;
            if self.x as u64 + crate::PLAYER_STEP as u64 <= rightmost as u64 {
                self.x = self.x + crate::PLAYER_STEP;
            } else {
                self.x = rightmost;
            }
        }
    }

    /// Changes the square's edge length, recentering it on its old middle
    /// and clamping it back inside the canvas.
    pub fn set_size(&mut self, new_size: u32, width: u32, height: u32)
        requires
            old(self).in_bounds(width, height),
            new_size <= width,
            new_size <= height,
        ensures
            *final(self) == spec_resized(*old(self), new_size, width, height),
            final(self).in_bounds(width, height),
            final(self).size == new_size || *final(self) == *old(self),
    {
        if new_size == self.size {
            return;
        }
        let ix: i64 = self.x as i64 + (self.size / 2) as i64 - (new_size / 2) as i64;
        let iy: i64 = self.y as i64 + (self.size / 2) as i64 - (new_size / 2) as i64;
        let max_x: i64 = (width - new_size) as i64;
        let max_y: i64 = (height - new_size) as i64;
        self.x = if ix < 0 { 0 } else if ix > max_x { width - new_size } else { ix as u32 };
        self.y = if iy < 0 { 0 } else if iy > max_y { height - new_size } else { iy as u32 };
        self.size = new_size;
    }
}

} // verus!

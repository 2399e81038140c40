//! Core logic of a small arcade game: a player-controlled square catches
//! falling raindrops over a background image, gaining score on a catch and
//! losing score when a drop lands on the cat hazard zone. This crate holds
//! the verified game logic — collision testing, drop movement and resets,
//! scoring and background selection, pixel compositing, and the per-frame
//! state machine. Windowing, font rasterization, and audio stay outside.

use vstd::prelude::*;

pub mod background;
pub mod draw;
pub mod drops;
pub mod game;
pub mod player;
pub mod rect;
pub mod score;

verus! {

/// Edge length in pixels of a falling raindrop sprite.
pub const DROP_SIZE: u32 = 6;

/// Number of raindrops alive at once; drops are pooled and reset, never destroyed.
pub const NUM_DROPS: usize = 8;

/// Milliseconds between the staggered fall starts of consecutive drops.
pub const DROP_DELAY_MS: u64 = 500;

/// Fall speed of a raindrop, in pixels per second.
pub const DROP_SPEED_PPS: u64 = 200;

/// Score at which the game is won.
pub const WINNING_SCORE: i32 = 30;

/// Milliseconds the winner screen stays up before the game closes.
pub const WIN_DISPLAY_MS: u64 = 4000;

/// Score above which the player square takes its larger size.
pub const GROW_THRESHOLD: i32 = 10;

/// Player square edge length at or below the growth threshold.
pub const PLAYER_SIZE_SMALL: u32 = 30;

/// Player square edge length above the growth threshold.
pub const PLAYER_SIZE_LARGE: u32 = 50;

/// Pixels the player square moves per frame in the held direction.
pub const PLAYER_STEP: u32 = 5;

/// Width in pixels of the cat hazard zone at the bottom of the canvas.
pub const CAT_WIDTH: u32 = 200;

/// Score gained when the player catches a drop.
pub const CATCH_REWARD: i32 = 1;

/// Score lost when a drop lands on the cat hazard zone.
pub const CAT_PENALTY: i32 = 5;

} // verus!

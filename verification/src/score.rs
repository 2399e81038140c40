//! Scoring rules: saturating score updates, the score-driven choice of
//! background, player size, and the win condition.

use vstd::prelude::*;
use vstd::slice::slice_to_vec;

verus! {

/// Identifies one of the precomputed full-canvas backgrounds.
#[derive(Clone, Copy, Debug, PartialEq, Eq, Structural)]
pub enum BackgroundId {
    Mono,
    Original,
    Mouse1,
    Mouse2,
    Winner,
}

/// The background chosen for a score. The buckets are disjoint and cover
/// every integer: winning scores show the winner screen, ever lower scores
/// walk through the mouse backgrounds down to the mono one, and everything
/// in between keeps the original background.
pub open spec fn spec_background_for(score: int) -> BackgroundId {
    if score >= crate::WINNING_SCORE {
        BackgroundId::Winner
    } else if score <= -31 {
        BackgroundId::Mono
    } else if score <= -21 {
        BackgroundId::Mouse2
    } else if score <= -10 {
        BackgroundId::Mouse1
    } else {
        BackgroundId::Original
    }
}

/// Chooses the background for a score. Total over every `i32`.
pub fn background_for(score: i32) -> (r: BackgroundId)
    ensures
        r == spec_background_for(score as int),
{
    if score >= crate::WINNING_SCORE {
        BackgroundId::Winner
    } else if score <= -31 {
        BackgroundId::Mono
    } else if score <= -21 {
        BackgroundId::Mouse2
    } else if score <= -10 {
        BackgroundId::Mouse1
    } else {
        BackgroundId::Original
    }
}

/// A winning score always selects the winner background: the background
/// shown at the winning frame is the one the winner screen then keeps up.
pub proof fn lemma_winning_score_shows_winner(score: int)
    requires
        spec_is_winning(score),
    ensures
        spec_background_for(score) == BackgroundId::Winner,
{
}

/// Addition on `int` clamped to the `i32` range.
pub open spec fn saturate_i32(v: int) -> int {
    if v > i32::MAX {
        i32::MAX as int
    } else if v < i32::MIN {
        i32::MIN as int
    } else {
        v
    }
}

/// Adds a collision delta to the score, saturating at the `i32` extremes so
/// that no sequence of collisions can overflow the score.
pub fn apply_delta(score: i32, delta: i32) -> (r: i32)
    ensures
        r as int == saturate_i32(score + delta),
{
    let wide: i64 = score as i64 + delta as i64;
    if wide > i32::MAX as i64 {
        i32::MAX
    } else if wide < i32::MIN as i64 {
        i32::MIN
    } else {
        wide as i32
    }
}

/// The player square's edge length for a score: it grows once the score
/// passes the growth threshold and shrinks back below it.
pub open spec fn spec_size_for(score: int) -> u32 {
    if score > crate::GROW_THRESHOLD {
        crate::PLAYER_SIZE_LARGE
    } else {
        crate::PLAYER_SIZE_SMALL
    }
}

/// Player square size for a score. Total over every `i32`.
pub fn size_for(score: i32) -> (r: u32)
    ensures
        r == spec_size_for(score as int),
{
    if score > crate::GROW_THRESHOLD {
        crate::PLAYER_SIZE_LARGE
    } else {
        crate::PLAYER_SIZE_SMALL
    }
}

/// Whether a score wins the game.
pub open spec fn spec_is_winning(score: int) -> bool {
    score >= crate::WINNING_SCORE
}

/// Win test. Total over every `i32`.
pub fn is_winning(score: i32) -> (r: bool)
    ensures
        r == spec_is_winning(score as int),
{
    score >= crate::WINNING_SCORE
}

/// Returns a fresh copy of the background that `spec_background_for` picks
/// for the score, chosen among the five precomputed buffers.
pub fn get_background_for_score(
    score: i32,
    mono_background: &[u32],
    mouse1_background: &[u32],
    mouse2_background: &[u32],
    original_background: &[u32],
    winner_background: &[u32],
) -> (r: Vec<u32>)
    ensures
        r@ == match spec_background_for(score as int) {
            BackgroundId::Mono => mono_background@,
            BackgroundId::Original => original_background@,
            BackgroundId::Mouse1 => mouse1_background@,
            BackgroundId::Mouse2 => mouse2_background@,
            BackgroundId::Winner => winner_background@,
        },
{
    match background_for(score) {
        BackgroundId::Mono => slice_to_vec(mono_background),
        BackgroundId::Original => slice_to_vec(original_background),
        BackgroundId::Mouse1 => slice_to_vec(mouse1_background),
        BackgroundId::Mouse2 => slice_to_vec(mouse2_background),
        BackgroundId::Winner => slice_to_vec(winner_background),
    }
}

} // verus!

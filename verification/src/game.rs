//! The per-frame state machine. A session is `Playing` until the score
//! reaches the winning threshold (then `Won`, shown for a fixed time, then
//! `Closed`) or until an external close signal arrives. Each playing frame
//! moves the player by the held keys, advances every drop, resolves each
//! drop's collisions against the cat hazard zone (penalty, checked first)
//! and the player square (reward), and finally re-sizes the player from the
//! new score.
//!
//! Time enters only as the `now` parameter, in milliseconds, so the whole
//! state machine is deterministic but for the random column a drop is
//! reset to.

use vstd::prelude::*;
use vstd::slice::slice_to_vec;
use crate::draw::COLOR_DROP;
use crate::draw::COLOR_PLAYER;
use crate::draw::draw_raindrop;
use crate::draw::draw_square;
use crate::draw::in_square;
use crate::draw::pixel_index;
use crate::drops::Raindrop;
use crate::drops::spec_fallen;
use crate::player::Player;
use crate::player::spec_moved;
use crate::player::spec_resized;
use crate::rect::overlaps;
use crate::rect::is_collision;
use crate::score::apply_delta;
use crate::score::is_winning;
use crate::score::saturate_i32;
use crate::score::size_for;
use crate::score::spec_is_winning;
use crate::score::spec_size_for;

verus! {

/// The held input keys and the external close signal, polled once per frame.
#[derive(Clone, Copy, Debug, PartialEq, Eq, Structural)]
pub struct Input {
    pub up: bool,
    pub down: bool,
    pub left: bool,
    pub right: bool,
    /// Window closed or escape pressed.
    pub close: bool,
}

/// Where the session stands. `Won` remembers when the winner screen went
/// up; `Closed` is terminal.
#[derive(Clone, Copy, Debug, PartialEq, Eq, Structural)]
pub enum GameMode {
    Playing,
    Won { since: u64 },
    Closed,
}

/// The whole session state threaded through the frame loop.
pub struct GameState {
    pub mode: GameMode,
    pub score: i32,
    pub player: Player,
    pub drops: Vec<Raindrop>,
    /// Canvas width, fixed for the session.
    pub width: u32,
    /// Canvas height, fixed for the session.
    pub height: u32,
}

/// The cat hazard zone: a `CAT_WIDTH`-wide strip centered horizontally,
/// sitting at the top of the bottom fifth of the canvas, as tall as the
/// player square currently is.
pub open spec fn spec_cat_rect(width: u32, height: u32, player_size: u32) -> (u32, u32, u32, u32) {
    (((width - crate::CAT_WIDTH) / 2) as u32, ((height * 4) / 5) as u32, crate::CAT_WIDTH, player_size)
}

/// The cat hazard zone's rectangle for this canvas and player size.
pub fn cat_rect(width: u32, height: u32, player_size: u32) -> (r: (u32, u32, u32, u32))
    requires
        width >= crate::CAT_WIDTH,
    ensures
        r == spec_cat_rect(width, height, player_size),
{
    let cx = (width - crate::CAT_WIDTH) / 2;
    let cy = ((height as u64 * 4) / 5) as u32;
    (cx, cy, crate::CAT_WIDTH, player_size)
}

/// A drop's collision rectangle.
pub open spec fn drop_rect(d: Raindrop) -> (u32, u32, u32, u32) {
    (d.x, d.y, crate::DROP_SIZE, crate::DROP_SIZE)
}

/// How one drop advances over a frame at time `now`: before its start time
/// it stays put; while above the floor it falls by the elapsed time; at or
/// below the floor it is reset to the top in some random in-range column,
/// keeping its timing fields.
pub open spec fn drop_advanced(d: Raindrop, a: Raindrop, now: u64, width: u32, height: u32) -> bool {
    if now <= d.start_time {
        a == d
    } else if d.y < height - crate::DROP_SIZE {
        a == spec_fallen(d, now)
    } else {
        a.y == 0 && a.x < width - crate::DROP_SIZE && a.start_time == d.start_time
            && a.last_update == d.last_update
    }
}

/// How one drop and the score resolve over a frame: the drop advances to
/// some `a`; its rectangle there is tested first against the cat zone
/// (penalty) and then against the player (reward), both against the same
/// snapshot; a drop that hit either is reset to the top in some random
/// in-range column.
pub open spec fn drop_resolved(
    d: Raindrop,
    nd: Raindrop,
    s_in: int,
    s_out: int,
    now: u64,
    width: u32,
    height: u32,
    prect: (u32, u32, u32, u32),
    crect: (u32, u32, u32, u32),
) -> bool {
    exists|a: Raindrop|
        {
            let hit_cat = overlaps(drop_rect(a), crect);
            let hit_player = overlaps(drop_rect(a), prect);
            let s1 = if hit_cat { saturate_i32(s_in - crate::CAT_PENALTY) } else { s_in };
            &&& #[trigger] drop_advanced(d, a, now, width, height)
            &&& s_out == if hit_player { saturate_i32(s1 + crate::CATCH_REWARD) } else { s1 }
            &&& if hit_cat || hit_player {
                nd.y == 0 && nd.x < width - crate::DROP_SIZE && nd.start_time == a.start_time
                    && nd.last_update == a.last_update
            } else {
                nd == a
            }
        }
}

/// A run of intermediate scores fits the drop pool's resolution: drop `i`
/// turns `scores[i]` into `scores[i + 1]`.
pub open spec fn drops_scores_ok(
    olds: Seq<Raindrop>,
    news: Seq<Raindrop>,
    scores: Seq<int>,
    now: u64,
    width: u32,
    height: u32,
    prect: (u32, u32, u32, u32),
    crect: (u32, u32, u32, u32),
) -> bool {
    &&& news.len() == olds.len()
    &&& scores.len() == olds.len() + 1
    &&& forall|i: int|
        0 <= i < olds.len() ==> #[trigger] drop_resolved(
            olds[i],
            news[i],
            scores[i],
            scores[i + 1],
            now,
            width,
            height,
            prect,
            crect,
        )
}

/// How the whole drop pool and the score resolve over a frame: drop by
/// drop, in order, each seeing the score the previous drops left behind.
pub open spec fn drops_resolved(
    olds: Seq<Raindrop>,
    news: Seq<Raindrop>,
    s_in: int,
    s_out: int,
    now: u64,
    width: u32,
    height: u32,
    prect: (u32, u32, u32, u32),
    crect: (u32, u32, u32, u32),
) -> bool {
    exists|scores: Seq<int>|
        {
            &&& #[trigger] drops_scores_ok(olds, news, scores, now, width, height, prect, crect)
            &&& scores.first() == s_in
            &&& scores.last() == s_out
        }
}

/// What one playing frame (with no close signal and no win yet) does: the
/// player moves by the held keys, the drops and the score resolve against
/// the moved player and the cat zone sized by the old player, and the
/// player is finally re-sized from the new score.
pub open spec fn playing_frame(old: GameState, new: GameState, input: Input, now: u64) -> bool {
    let moved = spec_moved(old.player, input.up, input.down, input.left, input.right, old.width, old.height);
    let crect = spec_cat_rect(old.width, old.height, old.player.size);
    &&& new.mode == GameMode::Playing
    &&& new.width == old.width
    &&& new.height == old.height
    &&& drops_resolved(
        old.drops@,
        new.drops@,
        old.score as int,
        new.score as int,
        now,
        old.width,
        old.height,
        moved.rect(),
        crect,
    )
    &&& new.player == spec_resized(moved, spec_size_for(new.score as int), old.width, old.height)
}

/// The full frame transition relation: `Closed` is absorbing; `Won` turns
/// into `Closed` once the winner screen has been up for `WIN_DISPLAY_MS`,
/// ignoring all input; `Playing` closes on the close signal, wins as soon
/// as the score is winning, and otherwise runs one playing frame.
pub open spec fn frame_rel(old: GameState, new: GameState, input: Input, now: u64) -> bool {
    match old.mode {
        GameMode::Closed => new == old,
        GameMode::Won { since } => {
            let shown = if since <= now { now - since } else { 0 };
            if shown >= crate::WIN_DISPLAY_MS {
                new == GameState { mode: GameMode::Closed, ..old }
            } else {
                new == old
            }
        },
        GameMode::Playing => {
            if input.close {
                new == GameState { mode: GameMode::Closed, ..old }
            } else if spec_is_winning(old.score as int) {
                new == GameState { mode: GameMode::Won { since: now }, ..old }
            } else {
                playing_frame(old, new, input, now)
            }
        },
    }
}

impl GameState {
    /// The session invariant: the canvas is big enough for the cat zone,
    /// the large player square and the drops; the player square is on the
    /// canvas; and every drop is in a column where its sprite fits.
    pub open spec fn wf(self) -> bool {
        &&& self.width >= crate::CAT_WIDTH
        &&& self.width >= crate::PLAYER_SIZE_LARGE
        &&& self.height >= crate::PLAYER_SIZE_LARGE
        &&& self.width > crate::DROP_SIZE
        &&& self.height > crate::DROP_SIZE
        &&& self.player.in_bounds(self.width, self.height)
        &&& self.drops@.len() == crate::NUM_DROPS
        &&& forall|i: int|
            0 <= i < self.drops@.len() ==> (#[trigger] self.drops@[i]).x < self.width - crate::DROP_SIZE
    }

    /// Starts a session: score zero, the small player square centered,
    /// and `NUM_DROPS` drops at the top in random columns, the `i`-th
    /// starting to fall `i * DROP_DELAY_MS` milliseconds after `now`.
    pub fn new(width: u32, height: u32, now: u64) -> (r: GameState)
        requires
            width >= crate::CAT_WIDTH,
            height >= crate::PLAYER_SIZE_LARGE,
            now + crate::NUM_DROPS as u64 * crate::DROP_DELAY_MS <= u64::MAX,
        ensures
            r.wf(),
            r.mode == GameMode::Playing,
            r.score == 0,
            r.width == width,
            r.height == height,
            r.player == (Player {
                x: (width / 2 - crate::PLAYER_SIZE_SMALL / 2) as u32,
                y: (height / 2 - crate::PLAYER_SIZE_SMALL / 2) as u32,
                size: crate::PLAYER_SIZE_SMALL,
            }),
            forall|i: int|
                0 <= i < r.drops@.len() ==> (#[trigger] r.drops@[i]).y == 0
                    && r.drops@[i].start_time as int == now as int + i * (crate::DROP_DELAY_MS as int)
                    && r.drops@[i].last_update == now,
    {
        let player = Player {
            x: width / 2 - crate::PLAYER_SIZE_SMALL / 2,
            y: height / 2 - crate::PLAYER_SIZE_SMALL / 2,
            size: crate::PLAYER_SIZE_SMALL,
        };
        let mut drops: Vec<Raindrop> = Vec::new();
        let mut i: usize = 0;
        while i < crate::NUM_DROPS
            invariant
                i <= crate::NUM_DROPS,
                drops@.len() == i,
                crate::DROP_SIZE < width,
                now + crate::NUM_DROPS as u64 * crate::DROP_DELAY_MS <= u64::MAX,
                forall|j: int|
                    0 <= j < i ==> (#[trigger] drops@[j]).y == 0
                        && drops@[j].x < width - crate::DROP_SIZE
                        && drops@[j].start_time as int == now as int + j * (crate::DROP_DELAY_MS as int)
                        && drops@[j].last_update == now,
            decreases crate::NUM_DROPS - i,
        {
            let start = now + (i as u64) * crate::DROP_DELAY_MS;
            let drop = Raindrop::spawn(width, start, now);
            drops.push(drop);
            i = i + 1;
        }
        GameState { mode: GameMode::Playing, score: 0, player, drops, width, height }
    }

    /// Runs one frame of the state machine at time `now` with the polled
    /// input, leaving the new state related to the old one by `frame_rel`.
    pub fn frame_update(&mut self, input: Input, now: u64)
        requires
            old(self).wf(),
        ensures
            final(self).wf(),
            frame_rel(*old(self), *final(self), input, now),
    {
        match self.mode {
            GameMode::Closed => {},
            GameMode::Won { since } => {
                if now.saturating_sub(since) >= crate::WIN_DISPLAY_MS {
                    self.mode = GameMode::Closed;
                }
            },
            GameMode::Playing => {
                if input.close {
                    self.mode = GameMode::Closed;
                } else if is_winning(self.score) {
                    self.mode = GameMode::Won { since: now };
                } else {
                    let w = self.width;
                    let h = self.height;
                    self.player.update_position(input.up, input.down, input.left, input.right, w, h);
                    let prect = (self.player.x, self.player.y, self.player.size, self.player.size);
                    let crect = cat_rect(w, h, self.player.size);
                    resolve_drops(&mut self.drops, &mut self.score, now, w, h, prect, crect);
                    let new_size = size_for(self.score);
                    self.player.set_size(new_size, w, h);
                }
            },
        }
    }
}

/// Whether one of the first `n` drops' sprites covers the pixel at
/// (`px`, `py`).
pub open spec fn covered_by_prefix(drops: Seq<Raindrop>, n: int, px: int, py: int) -> bool {
    exists|j: int|
        0 <= j < n && j < drops.len() && in_square(
            px,
            py,
            (#[trigger] drops[j]).x as int,
            drops[j].y as int,
            crate::DROP_SIZE as int,
        )
}

/// Whether some drop's sprite covers the pixel at (`px`, `py`).
pub open spec fn drop_covers(drops: Seq<Raindrop>, px: int, py: int) -> bool {
    covered_by_prefix(drops, drops.len() as int, px, py)
}

impl GameState {
    /// Composites one frame onto a copy of the given background: the player
    /// square first, then every drop sprite, each clipped to the canvas.
    /// Pixels under a drop are `COLOR_DROP`, remaining pixels under the
    /// player are `COLOR_PLAYER`, and all others keep the background.
    pub fn render_frame(&self, background: &[u32]) -> (r: Vec<u32>)
        requires
            background@.len() == self.width * self.height,
        ensures
            r@.len() == background@.len(),
            forall|px: int, py: int|
                0 <= px < self.width && 0 <= py < self.height ==> #[trigger] r@[pixel_index(px, py, self.width as int)]
                    == if drop_covers(self.drops@, px, py) {
                        COLOR_DROP
                    } else if in_square(px, py, self.player.x as int, self.player.y as int, self.player.size as int) {
                        COLOR_PLAYER
                    } else {
                        background@[pixel_index(px, py, self.width as int)]
                    },
    {
        let mut buffer = slice_to_vec(background);
        draw_square(&mut buffer, self.width, self.height, self.player.x, self.player.y, self.player.size);
        let n = self.drops.len();
        let mut k: usize = 0;
        while k < n
            invariant
                k <= n,
                n == self.drops@.len(),
                buffer@.len() == background@.len(),
                background@.len() == self.width * self.height,
                forall|px: int, py: int|
                    0 <= px < self.width && 0 <= py < self.height ==> #[trigger] buffer@[pixel_index(px, py, self.width as int)]
                        == if covered_by_prefix(self.drops@, k as int, px, py) {
                            COLOR_DROP
                        } else if in_square(px, py, self.player.x as int, self.player.y as int, self.player.size as int) {
                            COLOR_PLAYER
                        } else {
                            background@[pixel_index(px, py, self.width as int)]
                        },
            decreases n - k,
        {
            let d = self.drops[k];
            let ghost pre = buffer@;
            draw_raindrop(&mut buffer, self.width, self.height, &d);
            proof {
                assert(self.drops@[k as int] == d);
                assert forall|px: int, py: int|
                    0 <= px < self.width && 0 <= py < self.height implies #[trigger] buffer@[pixel_index(px, py, self.width as int)]
                        == if covered_by_prefix(self.drops@, k as int + 1, px, py) {
                            COLOR_DROP
                        } else if in_square(px, py, self.player.x as int, self.player.y as int, self.player.size as int) {
                            COLOR_PLAYER
                        } else {
                            background@[pixel_index(px, py, self.width as int)]
                        } by {
                    if in_square(px, py, d.x as int, d.y as int, crate::DROP_SIZE as int) {
                        assert(covered_by_prefix(self.drops@, k as int + 1, px, py));
                    } else {
                        if covered_by_prefix(self.drops@, k as int, px, py) {
                            let j = choose|j: int|
                                0 <= j < k as int && j < self.drops@.len() && in_square(
                                    px,
                                    py,
                                    (self.drops@[j]).x as int,
                                    self.drops@[j].y as int,
                                    crate::DROP_SIZE as int,
                                );
                            assert(covered_by_prefix(self.drops@, k as int + 1, px, py));
                        } else {
                            assert(!covered_by_prefix(self.drops@, k as int + 1, px, py));
                        }
                    }
                }
            }
            k = k + 1;
        }
        buffer
    }
}

/// Reaching the winning score while playing shows the winner screen, and
/// any later frame past the display duration closes the game: for every
/// state with the winning score and every pair of frames related by
/// `frame_rel`, the first frame (without a close signal) goes to `Won` and
/// the second, once `WIN_DISPLAY_MS` has passed, to `Closed` — whatever
/// keys the second frame's input holds. Nothing else about the state
/// changes on the way.
pub proof fn lemma_win_then_close(
    s0: GameState,
    s1: GameState,
    s2: GameState,
    input1: Input,
    input2: Input,
    now1: u64,
    now2: u64,
)
    requires
        s0.mode == GameMode::Playing,
        spec_is_winning(s0.score as int),
        !input1.close,
        frame_rel(s0, s1, input1, now1),
        frame_rel(s1, s2, input2, now2),
        now1 <= now2,
        now2 - now1 >= crate::WIN_DISPLAY_MS,
    ensures
        s1 == (GameState { mode: GameMode::Won { since: now1 }, ..s0 }),
        s2 == (GameState { mode: GameMode::Closed, ..s0 }),
{
}

/// The terminal modes never return to play: a frame from `Won` stays `Won`
/// or reaches `Closed`, and `Closed` absorbs every frame unchanged.
pub proof fn lemma_no_return_to_play(old: GameState, new: GameState, input: Input, now: u64)
    requires
        frame_rel(old, new, input, now),
        old.mode != GameMode::Playing,
    ensures
        new.mode != GameMode::Playing,
        old.mode == GameMode::Closed ==> new == old,
{
}

/// Advances every drop by the elapsed time and resolves its collisions, in
/// pool order: each drop's post-advance rectangle is tested against the cat
/// zone first (score penalty) and the player square second (score reward),
/// and a drop that hit either is reset to the top in a random column.
pub fn resolve_drops(
    drops: &mut Vec<Raindrop>,
    score: &mut i32,
    now: u64,
    width: u32,
    height: u32,
    prect: (u32, u32, u32, u32),
    crect: (u32, u32, u32, u32),
)
    requires
        crate::DROP_SIZE < width,
        crate::DROP_SIZE < height,
        forall|i: int|
            0 <= i < old(drops)@.len() ==> (#[trigger] old(drops)@[i]).x < width - crate::DROP_SIZE,
    ensures
        final(drops)@.len() == old(drops)@.len(),
        forall|i: int|
            0 <= i < final(drops)@.len() ==> (#[trigger] final(drops)@[i]).x < width - crate::DROP_SIZE,
        drops_resolved(
            old(drops)@,
            final(drops)@,
            *old(score) as int,
            *final(score) as int,
            now,
            width,
            height,
            prect,
            crect,
        ),
{
    let ghost drops0 = drops@;
    let ghost score0 = *score as int;
    let ghost mut scores: Seq<int> = seq![score0];
    let n = drops.len();
    let mut i: usize = 0;
    while i < n
        invariant
            i <= n,
            n == drops0.len(),
            drops@.len() == drops0.len(),
            crate::DROP_SIZE < width,
            crate::DROP_SIZE < height,
            forall|j: int| i <= j < drops0.len() ==> drops@[j] == drops0[j],
            forall|j: int|
                0 <= j < drops0.len() ==> (#[trigger] drops0[j]).x < width - crate::DROP_SIZE,
            forall|j: int|
                0 <= j < i ==> (#[trigger] drops@[j]).x < width - crate::DROP_SIZE,
            scores.len() == i + 1,
            scores.first() == score0,
            scores.last() == *score as int,
            drops_scores_ok(
                drops0.take(i as int),
                drops@.take(i as int),
                scores,
                now,
                width,
                height,
                prect,
                crect,
            ),
        decreases n - i,
    {
        let ghost mid = *score as int;
        let ghost pre = drops@;
        let ghost scores_pre = scores;
        let mut d = drops[i];
        if now > d.start_time {
            if d.y < height - crate::DROP_SIZE {
                d.fall(now);
            } else {
                d.reset(width);
            }
        }
        let ghost a = d;
        proof {
            assert(drop_advanced(drops0[i as int], a, now, width, height));
        }
        let dr = (d.x, d.y, crate::DROP_SIZE, crate::DROP_SIZE);
        let hit_cat = is_collision(dr, crect);
        let hit_player = is_collision(dr, prect);
        if hit_cat {
            *score = apply_delta(*score, -crate::CAT_PENALTY);
            d.reset(width);
        }
        if hit_player {
            *score = apply_delta(*score, crate::CATCH_REWARD);
            d.reset(width);
        }
        drops[i] = d;
        proof {
            scores = scores_pre.push(*score as int);
            assert(drop_resolved(drops0[i as int], drops@[i as int], mid, *score as int, now, width, height, prect, crect));
            let olds = drops0.take(i as int + 1);
            let news = drops@.take(i as int + 1);
            assert forall|j: int| 0 <= j < olds.len() implies #[trigger] drop_resolved(
                olds[j],
                news[j],
                scores[j],
                scores[j + 1],
                now,
                width,
                height,
                prect,
                crect,
            ) by {
                if j < i as int {
                    assert(drop_resolved(
                        drops0.take(i as int)[j],
                        pre.take(i as int)[j],
                        scores_pre[j],
                        scores_pre[j + 1],
                        now,
                        width,
                        height,
                        prect,
                        crect,
                    ));
                    assert(olds[j] == drops0.take(i as int)[j]);
                    assert(news[j] == pre.take(i as int)[j]);
                } else {
                    assert(olds[j] == drops0[i as int]);
                    assert(news[j] == drops@[i as int]);
                }
            }
            assert(drops_scores_ok(olds, news, scores, now, width, height, prect, crect));
        }
        i = i + 1;
    }
    proof {
        assert(drops0.take(n as int) =~= drops0);
        assert(drops@.take(n as int) =~= drops@);
        assert(drops_scores_ok(drops0, drops@, scores, now, width, height, prect, crect));
    }
}

} // verus!

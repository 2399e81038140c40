use cat_zzz::DROP_SIZE;
use cat_zzz::NUM_DROPS;
use cat_zzz::WINNING_SCORE;
use cat_zzz::drops::Raindrop;
use cat_zzz::game::GameMode;
use cat_zzz::game::GameState;
use cat_zzz::game::Input;
use cat_zzz::game::cat_rect;
use cat_zzz::player::Player;

fn idle() -> Input {
    Input { up: false, down: false, left: false, right: false, close: false }
}

#[test]
fn new_session_is_centered_and_staggered() {
    let state = GameState::new(640, 480, 1000);
    assert_eq!(state.mode, GameMode::Playing);
    assert_eq!(state.score, 0);
    assert_eq!(state.player, Player { x: 305, y: 225, size: 30 });
    assert_eq!(state.drops.len(), NUM_DROPS);
    for (i, d) in state.drops.iter().enumerate() {
        assert_eq!(d.y, 0);
        assert!(d.x < 640 - DROP_SIZE);
        assert_eq!(d.start_time, 1000 + i as u64 * 500);
        assert_eq!(d.last_update, 1000);
    }
}

#[test]
fn cat_zone_sits_centered_in_the_bottom_fifth() {
    assert_eq!(cat_rect(640, 480, 30), (220, 384, 200, 30));
    assert_eq!(cat_rect(640, 480, 50), (220, 384, 200, 50));
    assert_eq!(cat_rect(200, 500, 30), (0, 400, 200, 30));
}

#[test]
fn winning_score_transitions_to_won_then_closed() {
    let mut state = GameState::new(640, 480, 0);
    state.score = WINNING_SCORE;

    state.frame_update(idle(), 1000);
    assert_eq!(state.mode, GameMode::Won { since: 1000 });

    // The winner screen stays up for its fixed duration, whatever the keys.
    let held = Input { up: true, down: true, left: true, right: true, close: false };
    state.frame_update(held, 4999);
    assert_eq!(state.mode, GameMode::Won { since: 1000 });

    state.frame_update(held, 5000);
    assert_eq!(state.mode, GameMode::Closed);

    // Closed is terminal.
    state.frame_update(held, 9000);
    assert_eq!(state.mode, GameMode::Closed);
}

#[test]
fn close_signal_closes_while_playing() {
    let mut state = GameState::new(640, 480, 0);
    let close = Input { close: true, ..idle() };
    state.frame_update(close, 100);
    assert_eq!(state.mode, GameMode::Closed);
}

#[test]
fn moving_left_from_the_edge_stays_put() {
    let mut p = Player { x: 0, y: 50, size: 30 };
    p.update_position(false, false, true, false, 640, 480);
    assert_eq!(p, Player { x: 0, y: 50, size: 30 });

    // Close to the edge the square stops exactly at it.
    let mut p = Player { x: 3, y: 50, size: 30 };
    p.update_position(false, false, true, false, 640, 480);
    assert_eq!(p.x, 0);
}

#[test]
fn moving_right_stops_at_the_canvas_edge() {
    let mut p = Player { x: 610, y: 50, size: 30 };
    p.update_position(false, false, false, true, 640, 480);
    assert_eq!(p.x, 610);

    let mut p = Player { x: 607, y: 50, size: 30 };
    p.update_position(false, false, false, true, 640, 480);
    assert_eq!(p.x, 610);

    let mut p = Player { x: 100, y: 50, size: 30 };
    p.update_position(false, false, false, true, 640, 480);
    assert_eq!(p.x, 105);
}

#[test]
fn catching_a_drop_rewards_and_resets_it() {
    let mut state = GameState::new(640, 480, 0);
    // Park every drop before its start time, the first one on the player.
    for d in state.drops.iter_mut() {
        d.start_time = 1_000_000;
        d.x = 0;
        d.y = 0;
    }
    state.drops[0].x = state.player.x;
    state.drops[0].y = state.player.y;

    state.frame_update(idle(), 10);

    assert_eq!(state.score, 1);
    assert_eq!(state.drops[0].y, 0);
    assert!(state.drops[0].x < 640 - DROP_SIZE);
    // The drops parked at the top-left corner hit nothing.
    for d in state.drops.iter().skip(1) {
        assert_eq!(d.x, 0);
        assert_eq!(d.y, 0);
    }
    assert_eq!(state.mode, GameMode::Playing);
}

#[test]
fn drop_on_the_cat_costs_five_points() {
    let mut state = GameState::new(640, 480, 0);
    for d in state.drops.iter_mut() {
        d.start_time = 1_000_000;
        d.x = 0;
        d.y = 0;
    }
    let (cx, cy, _, _) = cat_rect(640, 480, state.player.size);
    state.drops[0].x = cx;
    state.drops[0].y = cy;

    state.frame_update(idle(), 10);

    assert_eq!(state.score, -5);
    assert_eq!(state.drops[0].y, 0);
    assert_eq!(state.mode, GameMode::Playing);
}

#[test]
fn score_past_growth_threshold_grows_the_player() {
    let mut state = GameState::new(640, 480, 0);
    state.score = 11;
    // No drop hits anything: park them before their start time.
    for d in state.drops.iter_mut() {
        d.start_time = 1_000_000;
        d.x = 634 - DROP_SIZE;
        d.y = 0;
    }
    let before = state.player;
    state.frame_update(idle(), 10);
    assert_eq!(state.player.size, 50);
    // The grown square is re-centered on the old one.
    assert_eq!(state.player.x, before.x - 10);
    assert_eq!(state.player.y, before.y - 10);

    state.score = 0;
    state.frame_update(idle(), 20);
    assert_eq!(state.player.size, 30);
}

#[test]
fn render_paints_drops_over_player_over_background() {
    let state = GameState {
        mode: GameMode::Playing,
        score: 0,
        player: Player { x: 3, y: 3, size: 2 },
        drops: vec![Raindrop { x: 7, y: 7, start_time: 0, last_update: 0 }],
        width: 10,
        height: 10,
    };
    let background = vec![0xFF123456u32; 100];

    let frame = state.render_frame(&background);

    assert_eq!(frame.len(), 100);
    for y in 0u32..10 {
        for x in 0u32..10 {
            let on_drop = x >= 7 && y >= 7;
            let on_player = (3..5).contains(&x) && (3..5).contains(&y);
            let expected = if on_drop {
                0xFFFFFFFFu32
            } else if on_player {
                0xFFFF0000u32
            } else {
                0xFF123456u32
            };
            assert_eq!(frame[(y * 10 + x) as usize], expected);
        }
    }
}

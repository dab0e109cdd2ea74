use breakout::blocks::Block;
use breakout::blocks::Color;
use breakout::state::GameState;
use breakout::state::Input;

fn no_keys() -> Input {
    Input { left: false, right: false, confirm: false }
}

fn playing_state(ball_x: i64, ball_y: i64, blocks: Vec<Block>) -> GameState {
    GameState {
        paddle_pos: 350_000,
        ball_x,
        ball_y,
        ball_vx: 300,
        ball_vy: 300,
        blocks,
        score: 0,
        high_score: 0,
        game_over: false,
    }
}

#[test]
fn new_starts_centred_with_full_grid() {
    let s = GameState::new();
    assert_eq!(s.paddle_pos, 350_000);
    assert_eq!(s.ball_x, 400_000);
    assert_eq!(s.ball_y, 300_000);
    assert_eq!(s.ball_vx, 300);
    assert_eq!(s.ball_vy, 300);
    assert_eq!(s.blocks.len(), 60);
    assert_eq!(s.score, 0);
    assert_eq!(s.high_score, 0);
    assert!(!s.game_over);
}

#[test]
fn grid_cells_have_row_colours_and_points() {
    let s = GameState::new();
    // Cell (row 0, col 0).
    assert_eq!(s.blocks[0].points, 20);
    assert_eq!(s.blocks[0].color, Color::Red);
    assert_eq!(s.blocks[0].x, 0);
    assert_eq!(s.blocks[0].y, 50_000);
    // Cell (row 2, col 0) sits at index 2 * 10.
    assert_eq!(s.blocks[20].points, 5);
    assert_eq!(s.blocks[20].color, Color::Yellow);
    assert_eq!(s.blocks[20].y, 110_000);
    // Columns advance by a block width plus the gap.
    assert_eq!(s.blocks[1].x, 80_000);
    // Cell (row 1, col 1).
    assert_eq!(s.blocks[11].x, 80_000);
    assert_eq!(s.blocks[11].y, 80_000);
    assert_eq!(s.blocks[11].color, Color::Orange);
    assert_eq!(s.blocks[11].points, 10);
    // Bottom row.
    assert_eq!(s.blocks[59].color, Color::Indigo);
    assert_eq!(s.blocks[59].points, 20);
}

#[test]
fn block_hit_scores_and_flips_vertical_velocity() {
    // Ball at (390, 295) in screen units, a block at (375, 300): a frame
    // with dt = 0 isolates the collision pass.
    let block = Block { x: 375_000, y: 300_000, color: Color::Yellow, points: 5 };
    let mut s = playing_state(390_000, 295_000, vec![block]);
    s.advance(0, no_keys());
    assert_eq!(s.score, 5);
    assert_eq!(s.blocks.len(), 0);
    assert_eq!(s.ball_vy, -300);
    assert_eq!(s.ball_vx, 300);
    assert!(!s.game_over);
}

#[test]
fn two_hits_in_one_frame_flip_twice_and_score_both() {
    let a = Block { x: 375_000, y: 300_000, color: Color::Yellow, points: 5 };
    let b = Block { x: 380_000, y: 290_000, color: Color::Blue, points: 10 };
    let mut s = playing_state(390_000, 295_000, vec![a, b]);
    s.advance(0, no_keys());
    assert_eq!(s.score, 15);
    assert_eq!(s.blocks.len(), 0);
    // An even number of hits leaves the vertical velocity as it was.
    assert_eq!(s.ball_vy, 300);
}

#[test]
fn miss_keeps_block_and_score() {
    let block = Block { x: 0, y: 50_000, color: Color::Red, points: 20 };
    let mut s = playing_state(390_000, 295_000, vec![block]);
    s.advance(0, no_keys());
    assert_eq!(s.score, 0);
    assert_eq!(s.blocks.len(), 1);
    assert_eq!(s.blocks[0], block);
    assert_eq!(s.ball_vy, 300);
}

#[test]
fn confirm_in_lost_round_fully_resets() {
    let mut s = GameState {
        paddle_pos: 12_345,
        ball_x: 700_000,
        ball_y: 650_000,
        ball_vx: -300,
        ball_vy: 300,
        blocks: vec![Block { x: 0, y: 50_000, color: Color::Red, points: 20 }],
        score: 500,
        high_score: 100,
        game_over: true,
    };
    // Other keys held alongside confirm must not change the outcome.
    s.advance(16, Input { left: true, right: true, confirm: true });
    assert_eq!(s.paddle_pos, 350_000);
    assert_eq!(s.ball_x, 400_000);
    assert_eq!(s.ball_y, 300_000);
    assert_eq!(s.ball_vx, 300);
    assert_eq!(s.ball_vy, 300);
    assert_eq!(s.blocks.len(), 60);
    assert_eq!(s.score, 0);
    assert_eq!(s.high_score, 500);
    assert!(!s.game_over);
    // The rebuilt grid is the same grid a fresh simulation starts with.
    let fresh = GameState::new();
    assert_eq!(s.blocks, fresh.blocks);
}

#[test]
fn reset_keeps_higher_old_high_score() {
    let mut s = GameState::new();
    s.score = 100;
    s.high_score = 300;
    s.reset();
    assert_eq!(s.high_score, 300);
    assert_eq!(s.score, 0);

    let mut t = GameState::new();
    t.score = 300;
    t.high_score = 100;
    t.reset();
    assert_eq!(t.high_score, 300);
}

#[test]
fn lost_round_without_confirm_is_frozen() {
    let block = Block { x: 375_000, y: 300_000, color: Color::Yellow, points: 5 };
    let mut s = GameState {
        paddle_pos: 12_345,
        ball_x: 390_000,
        ball_y: 295_000,
        ball_vx: 300,
        ball_vy: -300,
        blocks: vec![block],
        score: 7,
        high_score: 9,
        game_over: true,
    };
    s.advance(16, Input { left: true, right: true, confirm: false });
    assert_eq!(s.paddle_pos, 12_345);
    assert_eq!(s.ball_x, 390_000);
    assert_eq!(s.ball_y, 295_000);
    assert_eq!(s.ball_vx, 300);
    assert_eq!(s.ball_vy, -300);
    assert_eq!(s.blocks.len(), 1);
    assert_eq!(s.score, 7);
    assert_eq!(s.high_score, 9);
    assert!(s.game_over);
}

#[test]
fn ball_at_bottom_ends_round_without_block_pass() {
    // The ball square overlaps this block, but the frame that ends the
    // round must stop before the block pass.
    let block = Block { x: 90_000, y: 590_000, color: Color::Green, points: 5 };
    let mut s = playing_state(100_000, 600_000, vec![block]);
    s.advance(0, no_keys());
    assert!(s.game_over);
    assert_eq!(s.blocks.len(), 1);
    assert_eq!(s.score, 0);
    // The paddle is far away, so the velocity is untouched as well.
    assert_eq!(s.ball_vy, 300);
    assert_eq!(s.ball_vx, 300);
}

#[test]
fn paddle_moves_by_speed_times_dt() {
    let mut s = playing_state(400_000, 300_000, Vec::new());
    s.advance(16, Input { left: true, right: false, confirm: false });
    // 600 units per second over 16 ms is 9 600 subunits.
    assert_eq!(s.paddle_pos, 340_400);
    s.advance(16, Input { left: false, right: true, confirm: false });
    assert_eq!(s.paddle_pos, 350_000);
}

#[test]
fn paddle_guards_hold_it_at_the_edges() {
    let mut s = playing_state(400_000, 100_000, Vec::new());
    s.paddle_pos = 0;
    s.advance(100, Input { left: true, right: false, confirm: false });
    assert!(!s.game_over);
    assert_eq!(s.paddle_pos, 0);
    s.paddle_pos = 700_000;
    s.advance(100, Input { left: false, right: true, confirm: false });
    assert!(!s.game_over);
    assert_eq!(s.paddle_pos, 700_000);
}

#[test]
fn side_wall_flips_horizontal_velocity() {
    let mut s = playing_state(779_000, 100_000, Vec::new());
    s.advance(1_000, no_keys());
    // One second at 300 units per second carries the ball past the right
    // boundary; only the velocity flips, the position is not corrected.
    assert_eq!(s.ball_x, 1_079_000);
    assert_eq!(s.ball_vx, -300);
    assert_eq!(s.ball_vy, 300);
    assert!(!s.game_over);
}

#[test]
fn top_wall_flips_vertical_velocity() {
    let mut s = playing_state(400_000, 5_000, Vec::new());
    s.ball_vy = -300;
    s.advance(100, no_keys());
    assert_eq!(s.ball_y, -25_000);
    assert_eq!(s.ball_vy, 300);
}

#[test]
fn paddle_deflects_the_ball() {
    let mut s = playing_state(400_000, 550_000, Vec::new());
    s.advance(50, no_keys());
    // After 50 ms the ball is at y = 565 000, inside the paddle band, and
    // horizontally over the paddle at 350 000.
    assert_eq!(s.ball_y, 565_000);
    assert_eq!(s.ball_vy, -300);
    assert!(!s.game_over);
}

#[test]
fn score_can_reach_the_top_of_its_range() {
    let block = Block { x: 375_000, y: 300_000, color: Color::Yellow, points: 5 };
    let mut s = playing_state(390_000, 295_000, vec![block]);
    s.score = u32::MAX - 5;
    s.advance(0, no_keys());
    assert_eq!(s.score, u32::MAX);
    assert_eq!(s.blocks.len(), 0);
}

#[test]
fn far_out_coordinates_saturate_in_play() {
    let mut s = playing_state(i64::MAX - 1_000, 100_000, Vec::new());
    s.advance(1_000, no_keys());
    // The sum would pass the representable range; the coordinate pins to
    // its extreme, which is past the right boundary, so the velocity flips.
    assert_eq!(s.ball_x, i64::MAX);
    assert_eq!(s.ball_vx, -300);
    assert!(!s.game_over);
}

#[test]
fn score_never_decreases_within_a_round() {
    let mut s = GameState::new();
    let mut last: u32 = 0;
    let inputs = [
        Input { left: true, right: false, confirm: false },
        Input { left: false, right: true, confirm: false },
        no_keys(),
    ];
    for frame in 0..600 {
        s.advance(16, inputs[frame % 3]);
        if s.game_over {
            break;
        }
        assert!(s.score >= last);
        last = s.score;
    }
}

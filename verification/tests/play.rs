use breakout_core::audio::{SoundCommand, SoundOp, Source};
use breakout_core::graphics::{Canvas, Color, DrawOp, Font, Quad, Sheet, Text};
use breakout_core::key::{KeyCode, KeySet};
use breakout_core::objects::{
    init_global_sprite, Ball, Block, Object, Paddle, BLUE, GREEN, HUGE, LARGE, MAGENTA, MEDIUM, RED, SMALL,
};
use breakout_core::reg::Reg;
use breakout_core::states::{center, strike_blocks, PlayAssets, PlayState, StateResult, States};

fn assets() -> PlayAssets {
    PlayAssets {
        default_font: Font { asset: 100 },
        pause_message: Text { asset: 101, width: 200 },
        music: Source { asset: 1 },
        paddle_hit: Source { asset: 2 },
        score: Source { asset: 3 },
        wall_hit: Source { asset: 4 },
        brick_hit_1: Source { asset: 5 },
        brick_hit_2: Source { asset: 6 },
        hurt: Source { asset: 7 },
        victory: Source { asset: 8 },
        recover: Source { asset: 9 },
        high_score: Source { asset: 10 },
        pause: Source { asset: 11 },
    }
}

fn keys(down: &[KeyCode]) -> KeySet {
    let mut set = KeySet::new();
    for k in down {
        set.insert(*k);
    }
    set
}

fn cmd(op: SoundOp, asset: u64) -> SoundCommand {
    SoundCommand { op, source: Source { asset } }
}

fn game(blocks: Vec<Block>) -> (PlayState, Reg) {
    let mut reg = Reg::new();
    init_global_sprite(&mut reg);
    let state = PlayState::with_blocks(&mut reg, &assets(), blocks);
    assert_eq!(reg.take_audio(), vec![cmd(SoundOp::PlayBgm, 1)]);
    (state, reg)
}

#[test]
fn play_starts_on_level_one() {
    let mut reg = Reg::new();
    let state = PlayState::with_blocks(&mut reg, &assets(), vec![Block::new(8, 16)]);
    assert!(!state.paused);
    assert_eq!(state.paddle, Paddle::new());
    assert_eq!(state.ball, Ball::new());
    assert_eq!(state.blocks, vec![Block::new(8, 16)]);
    assert_eq!((state.score, state.health, state.level), (0, 3, 1));
    assert_eq!(reg.get_font("default".to_owned()), Some(&Font { asset: 100 }));
    assert_eq!(reg.get_text("pause".to_owned()), Some(&Text { asset: 101, width: 200 }));
    assert_eq!(reg.get_sound_mut("music".to_owned()), Some(Source { asset: 1 }));
    assert_eq!(reg.get_sound_mut("paddle-hit".to_owned()), Some(Source { asset: 2 }));
    assert_eq!(reg.get_sound_mut("score".to_owned()), Some(Source { asset: 3 }));
    assert_eq!(reg.get_sound_mut("wall-hit".to_owned()), Some(Source { asset: 4 }));
    assert_eq!(reg.get_sound_mut("brick-hit-1".to_owned()), Some(Source { asset: 5 }));
    assert_eq!(reg.get_sound_mut("brick-hit-2".to_owned()), Some(Source { asset: 6 }));
    assert_eq!(reg.get_sound_mut("hurt".to_owned()), Some(Source { asset: 7 }));
    assert_eq!(reg.get_sound_mut("victory".to_owned()), Some(Source { asset: 8 }));
    assert_eq!(reg.get_sound_mut("recover".to_owned()), Some(Source { asset: 9 }));
    assert_eq!(reg.get_sound_mut("high-score".to_owned()), Some(Source { asset: 10 }));
    assert_eq!(reg.get_sound_mut("pause".to_owned()), Some(Source { asset: 11 }));
    assert_eq!(reg.get_i32("score".to_owned()), Some(&0));
    assert_eq!(reg.get_i32("health".to_owned()), Some(&3));
    assert_eq!(reg.take_audio(), vec![cmd(SoundOp::PlayBgm, 1)]);
}

#[test]
fn random_play_starts_with_a_wall_in_range() {
    let mut reg = Reg::new();
    let state = PlayState::new(&mut reg, &assets());
    assert!(state.blocks.len() <= 33);
    assert!(state.blocks.iter().all(|b| b.inplay && b.y >= 16 && b.y <= 48));
    assert_eq!(state.ball, Ball::new());
    assert_eq!(state.health, 3);
}

#[test]
fn ball_bounces_off_the_left_wall() {
    let mut reg = Reg::new();
    reg.add_sound("wall-hit".to_owned(), Source { asset: 4 });
    let mut ball = Ball::new();
    ball.x = -1;
    ball.dx = -2;
    ball.update(&KeySet::new(), &mut reg, 1000);
    assert_eq!(ball.dx, 2);
    assert_eq!((ball.x, ball.part_x), (1, 0));
    assert_eq!((ball.y, ball.part_y, ball.dy), (440, 0, 0));
    assert_eq!(reg.take_audio(), vec![cmd(SoundOp::PlayOnce, 4)]);
}

#[test]
fn ball_still_past_the_wall_turns_again() {
    let mut reg = Reg::new();
    reg.add_sound("wall-hit".to_owned(), Source { asset: 4 });
    let mut ball = Ball::new();
    ball.x = -1;
    ball.dx = -2;
    // 16 ms at 2 units a second: 32 parts of a unit, not enough to come back.
    ball.update(&KeySet::new(), &mut reg, 16);
    assert_eq!((ball.x, ball.part_x, ball.dx), (-1, 32, 2));
    assert_eq!(reg.take_audio(), vec![cmd(SoundOp::PlayOnce, 4)]);
    ball.update(&KeySet::new(), &mut reg, 16);
    assert_eq!((ball.x, ball.part_x, ball.dx), (-1, 0, -2));
    assert_eq!(reg.take_audio(), vec![cmd(SoundOp::PlayOnce, 4)]);
}

#[test]
fn ball_step_scales_with_time() {
    let mut reg = Reg::new();
    let mut ball = Ball::new();
    ball.dx = 1;
    ball.dy = -3;
    ball.update(&KeySet::new(), &mut reg, 2000);
    assert_eq!((ball.x, ball.y), (162, 434));
    assert_eq!((ball.part_x, ball.part_y), (0, 0));
    ball.update(&KeySet::new(), &mut reg, 500);
    assert_eq!((ball.x, ball.part_x), (162, 500));
    assert_eq!((ball.y, ball.part_y), (432, 500));
    ball.update(&KeySet::new(), &mut reg, 500);
    assert_eq!((ball.x, ball.part_x), (163, 0));
    assert_eq!((ball.y, ball.part_y), (431, 0));
    ball.update(&KeySet::new(), &mut reg, 0);
    assert_eq!((ball.x, ball.y, ball.part_x, ball.part_y), (163, 431, 0, 0));
    assert_eq!((ball.dx, ball.dy), (1, -3));
    assert_eq!(reg.take_audio(), vec![]);
}

#[test]
fn slow_ball_still_moves() {
    let mut reg = Reg::new();
    let mut ball = Ball::new();
    ball.dx = 1;
    ball.dy = -1;
    for _ in 0..62 {
        ball.update(&KeySet::new(), &mut reg, 16);
    }
    // 992 ms at one unit a second: not yet a whole unit to the right, and
    // the first part of the way up is already in the unit above.
    assert_eq!((ball.x, ball.part_x), (160, 992));
    assert_eq!((ball.y, ball.part_y), (439, 8));
    ball.update(&KeySet::new(), &mut reg, 16);
    assert_eq!((ball.x, ball.part_x), (161, 8));
    assert_eq!((ball.y, ball.part_y), (438, 992));
}

#[test]
fn ball_at_the_end_of_the_numbers() {
    let mut ball = Ball::new();
    ball.x = i32::MAX;
    ball.dx = 1;
    assert!(ball.past_sides());
    // Past the right wall the velocity turns round, so the ball comes back.
    assert!(ball.movable(u32::MAX));
    ball.x = i32::MIN;
    ball.dx = 1;
    // Past the left wall it turns to -1 and would leave the numbers.
    assert!(ball.movable(0));
    assert!(!ball.movable(1));
    ball.dx = i32::MIN;
    assert!(!ball.movable(0));
    ball.x = 10;
    assert!(!ball.past_sides());
    assert!(ball.movable(0));
    assert!(!ball.movable(u32::MAX));
    ball.dx = 1_000_000;
    assert!(ball.movable(2_147_000));
    assert!(!ball.movable(2_148_000));
    ball.y = 480;
    ball.part_y = 0;
    assert!(!ball.past_ends() && !ball.past_floor());
    ball.part_y = 1;
    assert!(ball.past_ends() && ball.past_floor());
    ball.y = -1;
    ball.part_y = 999;
    assert!(ball.past_ends() && !ball.past_floor());
}

#[test]
fn ball_bounces_off_the_right_wall_and_the_top() {
    let mut reg = Reg::new();
    reg.add_sound("wall-hit".to_owned(), Source { asset: 4 });
    let mut ball = Ball::new();
    ball.x = 321;
    ball.dx = 3;
    ball.y = -2;
    ball.dy = -5;
    ball.update(&KeySet::new(), &mut reg, 1000);
    assert_eq!((ball.x, ball.y, ball.dx, ball.dy), (318, 3, -3, 5));
    assert_eq!(reg.take_audio(), vec![cmd(SoundOp::PlayOnce, 4), cmd(SoundOp::PlayOnce, 4)]);
}

#[test]
fn ball_inside_the_walls_keeps_its_course() {
    let mut reg = Reg::new();
    let mut ball = Ball::new();
    ball.x = 0;
    ball.dx = -2;
    ball.y = 480;
    ball.dy = 1;
    ball.update(&KeySet::new(), &mut reg, 1000);
    assert_eq!((ball.x, ball.y, ball.dx, ball.dy), (-2, 481, -2, 1));
    assert_eq!(reg.take_audio(), vec![]);
    ball.reset();
    assert_eq!(ball, Ball::new());
}

#[test]
fn paddle_stops_at_the_left_edge() {
    let mut reg = Reg::new();
    let mut paddle = Paddle::new();
    paddle.x = 0;
    paddle.update(&keys(&[KeyCode::Left]), &mut reg, 16);
    assert_eq!(paddle.x, 0);
    assert_eq!(paddle.dx, -200);
    paddle.x = 2;
    paddle.update(&keys(&[KeyCode::Left]), &mut reg, 1000);
    assert_eq!(paddle.x, 0);
    paddle.update(&keys(&[KeyCode::Left]), &mut reg, u32::MAX);
    assert_eq!(paddle.x, 0);
}

#[test]
fn paddle_stops_at_the_right_edge() {
    let mut reg = Reg::new();
    let mut paddle = Paddle::new();
    paddle.update(&keys(&[KeyCode::Right]), &mut reg, 1000);
    assert_eq!(paddle.x, 320);
    assert_eq!(paddle.dx, 200);
    paddle.update(&keys(&[KeyCode::Right]), &mut reg, u32::MAX);
    assert_eq!(paddle.x, 320);
}

#[test]
fn paddle_moves_at_full_speed_or_not_at_all() {
    let mut reg = Reg::new();
    let mut paddle = Paddle::new();
    // 200 units a second for a tenth of a second.
    paddle.update(&keys(&[KeyCode::Right]), &mut reg, 100);
    assert_eq!((paddle.x, paddle.dx), (180, 200));
    paddle.update(&keys(&[KeyCode::Left]), &mut reg, 50);
    assert_eq!((paddle.x, paddle.dx), (170, -200));
    // Left wins when both are down.
    paddle.update(&keys(&[KeyCode::Left, KeyCode::Right]), &mut reg, 50);
    assert_eq!((paddle.x, paddle.dx), (160, -200));
    paddle.update(&keys(&[]), &mut reg, 50);
    assert_eq!((paddle.x, paddle.dx), (160, 0));
    // Less than a unit of travel is kept for the next step.
    paddle.update(&keys(&[KeyCode::Right]), &mut reg, 4);
    assert_eq!((paddle.x, paddle.part_x, paddle.dx), (160, 800, 200));
    paddle.update(&keys(&[KeyCode::Right]), &mut reg, 4);
    assert_eq!((paddle.x, paddle.part_x, paddle.dx), (161, 600, 200));
    paddle.update(&keys(&[KeyCode::Left]), &mut reg, 9);
    assert_eq!((paddle.x, paddle.part_x, paddle.dx), (159, 800, -200));
    assert_eq!(reg.take_audio(), vec![]);
}

#[test]
fn paddle_outside_the_field_is_brought_inside() {
    let mut reg = Reg::new();
    let mut paddle = Paddle::new();
    paddle.x = -50;
    paddle.update(&keys(&[]), &mut reg, 16);
    assert_eq!((paddle.x, paddle.part_x, paddle.dx), (0, 0, 0));
    paddle.x = 400;
    paddle.update(&keys(&[KeyCode::Left]), &mut reg, 100);
    assert_eq!((paddle.x, paddle.part_x, paddle.dx), (320, 0, -200));
    paddle.x = 320;
    paddle.part_x = 1;
    paddle.update(&keys(&[]), &mut reg, 100);
    assert_eq!((paddle.x, paddle.part_x), (320, 0));
    paddle.x = i32::MIN;
    paddle.part_x = i32::MIN;
    paddle.update(&keys(&[KeyCode::Right]), &mut reg, u32::MAX);
    assert_eq!((paddle.x, paddle.part_x), (0, 0));
    paddle.x = i32::MAX;
    paddle.part_x = i32::MAX;
    paddle.update(&keys(&[KeyCode::Left]), &mut reg, 1);
    assert_eq!((paddle.x, paddle.part_x), (320, 0));
}

#[test]
fn sprites_follow_the_bits_of_the_key() {
    let mut paddle = Paddle::new();
    assert_eq!(paddle.get_width(), 64);
    paddle.set_sprite(BLUE + LARGE);
    assert_eq!((paddle.color, paddle.size), (BLUE, LARGE));
    assert_eq!(paddle.get_width(), 96);
    paddle.set_sprite(RED);
    assert_eq!((paddle.color, paddle.size), (RED, LARGE));
    paddle.set_sprite(SMALL);
    assert_eq!((paddle.color, paddle.size), (RED, SMALL));
    assert_eq!(paddle.get_width(), 32);
    paddle.set_sprite(0);
    assert_eq!((paddle.color, paddle.size), (RED, SMALL));
    paddle.set_sprite(HUGE);
    assert_eq!(paddle.get_width(), 128);
    let mut ball = Ball::new();
    ball.set_sprite(GREEN);
    assert_eq!(ball.color, GREEN);
    ball.set_sprite(0x100);
    assert_eq!(ball.color, GREEN);
    let mut block = Block::new(0, 0);
    block.set_sprite(MAGENTA);
    assert_eq!(block.color, MAGENTA);
}

#[test]
fn fallen_ball_costs_a_life_and_respawns() {
    let (mut state, mut reg) = game(vec![]);
    assert_eq!((state.ball.x, state.ball.y), (160, 440));
    state.ball.dy = 41;
    let leave = state.step(&KeySet::new(), &mut reg, 1000);
    assert!(!leave);
    assert_eq!(state.health, 2);
    assert_eq!((state.ball.x, state.ball.y, state.ball.dx, state.ball.dy), (160, 440, 0, 0));
    assert_eq!(reg.take_audio(), vec![]);
    // At rest the ball stays, and no further life is lost.
    state.step(&KeySet::new(), &mut reg, 16);
    assert_eq!(state.health, 2);
    assert_eq!(state.ball, Ball::new());
}

#[test]
fn ball_on_the_bottom_line_has_not_fallen() {
    let (mut state, mut reg) = game(vec![]);
    state.ball.x = 10;
    state.ball.y = 470;
    state.ball.dy = 10;
    state.step(&KeySet::new(), &mut reg, 1000);
    assert_eq!(state.health, 3);
    assert_eq!((state.ball.x, state.ball.y, state.ball.dy), (10, 480, 10));
    // One part of a unit below the line is fallen.
    state.step(&KeySet::new(), &mut reg, 1);
    assert_eq!(state.health, 2);
    assert_eq!((state.ball.x, state.ball.y, state.ball.dx, state.ball.dy), (160, 440, 0, 0));
}

#[test]
fn paddle_turns_the_ball_round() {
    let (mut state, mut reg) = game(vec![]);
    // The ball ends half way into the paddle from above.
    state.ball.x = 168;
    state.ball.y = 440;
    state.ball.dx = 2;
    state.ball.dy = 4;
    state.step(&KeySet::new(), &mut reg, 1000);
    assert_eq!((state.ball.x, state.ball.y), (170, 444));
    assert_eq!((state.ball.dx, state.ball.dy), (2, -4));
    assert_eq!(reg.take_audio(), vec![cmd(SoundOp::PlayOnce, 2)]);
    assert_eq!(state.health, 3);
}

#[test]
fn ball_below_the_paddle_top_is_not_turned() {
    let (mut state, mut reg) = game(vec![]);
    // The ball ends inside the paddle, below its top edge: no TOP side.
    state.ball.x = 168;
    state.ball.y = 446;
    state.ball.dx = 2;
    state.ball.dy = 4;
    state.step(&KeySet::new(), &mut reg, 1000);
    assert_eq!((state.ball.x, state.ball.y), (170, 450));
    assert_eq!((state.ball.dx, state.ball.dy), (2, 4));
    assert_eq!(reg.take_audio(), vec![]);
}

#[test]
fn struck_block_leaves_play() {
    let (mut state, mut reg) = game(vec![Block::new(100, 100), Block::new(200, 100)]);
    state.ball.x = 96;
    state.ball.y = 92;
    state.ball.dx = 2;
    state.ball.dy = 3;
    state.step(&KeySet::new(), &mut reg, 1000);
    // The ball is left of and above the block: LEFT and BOTTOM.
    assert_eq!((state.ball.x, state.ball.y), (98, 95));
    assert_eq!((state.ball.dx, state.ball.dy), (2, -3));
    assert!(!state.blocks[0].inplay);
    assert!(state.blocks[1].inplay);
    assert_eq!(state.blocks.len(), 2);
    assert_eq!(state.blocks[0], Block { inplay: false, ..Block::new(100, 100) });
    assert_eq!(reg.take_audio(), vec![cmd(SoundOp::Play, 6)]);

    // The block is still there but no longer struck.
    state.ball.dx = 0;
    state.ball.dy = 0;
    state.step(&KeySet::new(), &mut reg, 16);
    assert_eq!((state.ball.x, state.ball.y, state.ball.dx, state.ball.dy), (98, 95, 0, 0));
    assert_eq!(reg.take_audio(), vec![]);
    assert_eq!(state.blocks.len(), 2);

    // And no longer drawn.
    let mut canvas = Canvas::new();
    state.render(&mut reg, &mut canvas);
    let sprites: Vec<&DrawOp> = canvas
        .ops()
        .iter()
        .filter(|op| matches!(op, DrawOp::Sprite { sheet: Sheet::Main, src: Quad { w: 32, .. }, .. }))
        .collect();
    assert_eq!(
        sprites,
        vec![&DrawOp::Sprite { sheet: Sheet::Main, src: Quad { u: 0, v: 0, w: 32, h: 16 }, x: 200, y: 100 }]
    );
}

#[test]
fn corner_hit_turns_both_ways() {
    let mut reg = Reg::new();
    reg.add_sound("brick-hit-2".to_owned(), Source { asset: 6 });
    let mut ball = Ball::new();
    // Right of and below the block's corner, moving right and up.
    ball.x = 110;
    ball.y = 110;
    ball.dx = 3;
    ball.dy = -2;
    let mut blocks = vec![Block::new(100, 100)];
    strike_blocks(&mut ball, &mut blocks, &mut reg);
    assert_eq!((ball.dx, ball.dy), (-3, 2));
    assert_eq!((ball.x, ball.y), (110, 110));
    assert!(!blocks[0].inplay);
    assert_eq!(reg.take_audio(), vec![cmd(SoundOp::Play, 6)]);
}

#[test]
fn ball_moving_away_is_not_turned() {
    let mut reg = Reg::new();
    reg.add_sound("brick-hit-2".to_owned(), Source { asset: 6 });
    let mut ball = Ball::new();
    ball.x = 110;
    ball.y = 110;
    ball.dx = -3;
    ball.dy = 2;
    let mut blocks = vec![Block::new(100, 100)];
    strike_blocks(&mut ball, &mut blocks, &mut reg);
    assert_eq!((ball.dx, ball.dy), (-3, 2));
    assert!(!blocks[0].inplay);
    assert_eq!(reg.take_audio(), vec![cmd(SoundOp::Play, 6)]);
}

#[test]
fn two_blocks_struck_in_one_frame() {
    let mut reg = Reg::new();
    reg.add_sound("brick-hit-2".to_owned(), Source { asset: 6 });
    let mut ball = Ball::new();
    ball.x = 128;
    ball.y = 110;
    ball.dx = 1;
    ball.dy = -2;
    // The ball straddles two neighbours: right of the first, left of the second.
    let mut blocks = vec![Block::new(100, 100), Block::new(132, 100), Block::new(164, 100)];
    strike_blocks(&mut ball, &mut blocks, &mut reg);
    // First block: RIGHT while moving right and TOP while rising turn both;
    // second block: LEFT while moving left turns dx back, TOP no longer applies.
    assert_eq!((ball.dx, ball.dy), (1, 2));
    assert_eq!(blocks.iter().map(|b| b.inplay).collect::<Vec<bool>>(), vec![false, false, true]);
    assert_eq!(reg.take_audio(), vec![cmd(SoundOp::Play, 6), cmd(SoundOp::Play, 6)]);
}

#[test]
fn pause_freezes_until_return() {
    let (mut state, mut reg) = game(vec![Block::new(8, 16)]);
    state.ball.dx = 1;
    state.ball.dy = -1;
    state.step(&keys(&[KeyCode::P]), &mut reg, 16);
    assert!(state.paused);
    assert_eq!(reg.take_audio(), vec![cmd(SoundOp::Stop, 1), cmd(SoundOp::PlayOnce, 11)]);
    let paddle = state.paddle;
    let ball = state.ball;
    let blocks = state.blocks.clone();

    state.step(&keys(&[KeyCode::Left]), &mut reg, 500);
    state.step(&keys(&[KeyCode::Right, KeyCode::P]), &mut reg, 500);
    assert!(state.paused);
    assert_eq!(state.paddle, paddle);
    assert_eq!(state.ball, ball);
    assert_eq!(state.blocks, blocks);
    assert_eq!(reg.take_audio(), vec![]);

    state.step(&keys(&[KeyCode::Return]), &mut reg, 16);
    assert!(!state.paused);
    assert_eq!(state.ball, ball);
    assert_eq!(reg.take_audio(), vec![cmd(SoundOp::PlayBgm, 1)]);

    state.step(&keys(&[KeyCode::Right]), &mut reg, 100);
    assert_eq!(state.paddle.x, paddle.x + 20);
    assert_eq!((state.ball.x, state.ball.part_x), (ball.x, ball.part_x + 100));
    assert_eq!((state.ball.y, state.ball.part_y), (ball.y, ball.part_y - 100));
    state.step(&keys(&[]), &mut reg, 900);
    assert_eq!((state.ball.x, state.ball.part_x), (ball.x + 1, ball.part_x));
    assert_eq!((state.ball.y, state.ball.part_y), (ball.y - 1, ball.part_y));
}

#[test]
fn x_leaves_play() {
    let (mut state, mut reg) = game(vec![]);
    state.ball.dx = 5;
    let result = state.update(&keys(&[KeyCode::X, KeyCode::P]), &mut reg, 16);
    assert!(matches!(result, StateResult::PopState));
    assert_eq!(state.ball.x, 160);
    assert!(!state.paused);
    assert!(!reg.fonts.contains_key("default"));
    assert_eq!(reg.take_audio(), vec![]);
    let result = state.update(&keys(&[]), &mut reg, 1000);
    assert!(matches!(result, StateResult::Void));
    assert_eq!(state.ball.x, 165);
}

#[test]
fn digit_keys_restyle_the_paddle() {
    let (mut state, mut reg) = game(vec![]);
    state.step(&keys(&[KeyCode::Key2]), &mut reg, 16);
    assert_eq!((state.paddle.color, state.paddle.size), (RED, MEDIUM));
    state.step(&keys(&[KeyCode::Key3, KeyCode::Key8]), &mut reg, 16);
    assert_eq!((state.paddle.color, state.paddle.size), (GREEN, HUGE));
    state.step(&keys(&[KeyCode::Key1, KeyCode::Key4, KeyCode::Key5, KeyCode::Key6]), &mut reg, 16);
    assert_eq!((state.paddle.color, state.paddle.size), (BLUE, SMALL));
    state.step(&keys(&[]), &mut reg, 16);
    assert_eq!((state.paddle.color, state.paddle.size), (BLUE, SMALL));
}

#[test]
fn frame_of_a_running_game() {
    let (mut state, mut reg) = game(vec![Block::new(8, 16), Block::new(40, 16)]);
    state.blocks[0].inplay = false;
    state.blocks[1].color = 2;
    state.blocks[1].tier = 1;
    state.health = 2;
    let mut canvas = Canvas::new();
    let result = state.render(&mut reg, &mut canvas);
    assert!(matches!(result, StateResult::Void));
    assert!(!canvas.bound());
    let main = |u, v, w, h, x, y| DrawOp::Sprite { sheet: Sheet::Main, src: Quad { u, v, w, h }, x, y };
    let heart = |u, x| DrawOp::Sprite { sheet: Sheet::Hearts, src: Quad { u, v: 0, w: 10, h: 9 }, x, y: 0 };
    assert_eq!(
        canvas.ops(),
        &vec![
            DrawOp::Clear(Color { r: 0, g: 0, b: 0, a: 255 }),
            // Block sprite 1 + (2 - 1) * 4 + 1 = 6, the last of the first row.
            main(160, 0, 32, 16, 40, 16),
            main(32, 160, 64, 16, 160, 448),
            main(120, 48, 8, 8, 160, 440),
            heart(0, 0),
            heart(0, 11),
            heart(10, 22),
            DrawOp::Present,
        ]
    );
}

#[test]
fn frame_of_a_paused_game() {
    let (mut state, mut reg) = game(vec![]);
    state.paused = true;
    state.health = 0;
    let mut canvas = Canvas::new();
    state.render(&mut reg, &mut canvas);
    let heart = |u, x| DrawOp::Sprite { sheet: Sheet::Hearts, src: Quad { u, v: 0, w: 10, h: 9 }, x, y: 0 };
    assert_eq!(
        canvas.ops()[3..].to_vec(),
        vec![
            DrawOp::Label {
                text: Text { asset: 101, width: 200 },
                x: 60,
                y: 240,
                color: Color { r: 255, g: 255, b: 255, a: 255 },
            },
            heart(10, 0),
            heart(10, 11),
            heart(10, 22),
            DrawOp::Present,
        ]
    );
}

#[test]
fn health_row_beyond_three() {
    let (mut state, mut reg) = game(vec![]);
    state.health = 5;
    let mut canvas = Canvas::new();
    state.render(&mut reg, &mut canvas);
    let hearts: Vec<(i32, i32)> = canvas
        .ops()
        .iter()
        .filter_map(|op| match op {
            DrawOp::Sprite { sheet: Sheet::Hearts, src, x, .. } => Some((src.u, *x)),
            _ => None,
        })
        .collect();
    assert_eq!(hearts, vec![(0, 0), (0, 11), (0, 22), (0, 33), (0, 44)]);
    state.health = -1;
    canvas.reset();
    state.render(&mut reg, &mut canvas);
    let empty = canvas
        .ops()
        .iter()
        .filter(|op| matches!(op, DrawOp::Sprite { sheet: Sheet::Hearts, src: Quad { u: 10, .. }, .. }))
        .count();
    assert_eq!(empty, 4);
}

#[test]
fn centring_rounds_towards_the_middle() {
    assert_eq!(center(200), 60);
    assert_eq!(center(0), 160);
    assert_eq!(center(320), 0);
    assert_eq!(center(321), 0);
    assert_eq!(center(101), 109);
    assert_eq!(center(400), -40);
    assert_eq!(center(i32::MAX), -1073741663);
    assert_eq!(center(i32::MIN), 1073741984);
}

#[test]
fn readiness_follows_the_registry_and_the_ball() {
    let (mut state, mut reg) = game(vec![]);
    assert!(state.ready(&reg, 16));
    assert!(state.ready(&reg, u32::MAX));
    state.ball.dx = 1_000_000;
    assert!(state.ready(&reg, 2_000_000));
    assert!(!state.ready(&reg, u32::MAX));
    state.ball.dx = i32::MIN;
    assert!(!state.ready(&reg, 0));
    state.ball.dx = 0;
    state.health = i32::MIN;
    assert!(!state.ready(&reg, 16));
    state.health = 3;
    reg.clear_sound();
    assert!(!state.ready(&reg, 16));
    assert!(state.showable(&reg));
    state.paused = true;
    assert!(state.showable(&reg));
    reg.clear_text();
    assert!(!state.showable(&reg));
}

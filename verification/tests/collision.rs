use breakout_core::objects::{collide_aabb, has_flag, Ball, Block, CollideFlag, Object, Paddle};

fn block_at(x: i32, y: i32, w: i32, h: i32) -> Block {
    let mut b = Block::new(x, y);
    b.width = w;
    b.height = h;
    b
}

#[test]
fn rectangles_apart_report_nothing() {
    let a = block_at(0, 0, 10, 10);
    let b = block_at(20, 0, 10, 10);
    assert_eq!(collide_aabb(&a, &b), vec![]);
    let c = block_at(0, 20, 10, 10);
    assert_eq!(collide_aabb(&a, &c), vec![]);
    let d = block_at(50, 50, 10, 10);
    assert_eq!(collide_aabb(&a, &d), vec![]);
}

#[test]
fn touching_edges_do_not_collide() {
    let a = block_at(0, 0, 10, 10);
    let b = block_at(10, 0, 10, 10);
    assert_eq!(collide_aabb(&a, &b), vec![]);
    assert_eq!(collide_aabb(&b, &a), vec![]);
}

#[test]
fn left_and_above_reports_left_and_bottom() {
    let a = block_at(0, 0, 10, 10);
    let b = block_at(5, 5, 10, 10);
    assert_eq!(collide_aabb(&a, &b), vec![CollideFlag::LEFT, CollideFlag::BOTTOM]);
}

#[test]
fn right_and_below_reports_right_and_top() {
    let a = block_at(5, 5, 10, 10);
    let b = block_at(0, 0, 10, 10);
    assert_eq!(collide_aabb(&a, &b), vec![CollideFlag::RIGHT, CollideFlag::TOP]);
}

#[test]
fn same_column_reports_one_side() {
    let a = block_at(0, 0, 10, 10);
    let b = block_at(0, 5, 10, 10);
    assert_eq!(collide_aabb(&a, &b), vec![CollideFlag::BOTTOM]);
    assert_eq!(collide_aabb(&b, &a), vec![CollideFlag::TOP]);
    let c = block_at(5, 0, 10, 10);
    assert_eq!(collide_aabb(&a, &c), vec![CollideFlag::LEFT]);
    assert_eq!(collide_aabb(&c, &a), vec![CollideFlag::RIGHT]);
}

#[test]
fn same_corner_overlaps_without_a_side() {
    let a = block_at(0, 0, 10, 10);
    let b = block_at(0, 0, 4, 4);
    assert_eq!(collide_aabb(&a, &b), vec![]);
}

#[test]
fn collision_far_from_origin_does_not_wrap() {
    let a = block_at(i32::MAX - 5, i32::MAX - 5, 10, 10);
    let b = block_at(i32::MAX - 2, i32::MAX - 2, 10, 10);
    assert_eq!(collide_aabb(&a, &b), vec![CollideFlag::LEFT, CollideFlag::BOTTOM]);
    let c = block_at(i32::MIN, i32::MIN, 10, 10);
    assert_eq!(collide_aabb(&a, &c), vec![]);
}

#[test]
fn collision_between_kinds() {
    let paddle = Paddle::new();
    let mut ball = Ball::new();
    assert_eq!(paddle.get_xywh(), (160, 448, 64, 16));
    assert_eq!(ball.get_xywh(), (160, 440, 8, 8));
    // The ball rests just above the paddle and only touches it.
    assert_eq!(collide_aabb(&paddle, &ball), vec![]);
    ball.y = 444;
    ball.x = 170;
    assert_eq!(collide_aabb(&paddle, &ball), vec![CollideFlag::LEFT, CollideFlag::TOP]);
}

#[test]
fn has_flag_finds_members_only() {
    let flags = vec![CollideFlag::LEFT, CollideFlag::BOTTOM];
    assert!(has_flag(&flags, CollideFlag::LEFT));
    assert!(has_flag(&flags, CollideFlag::BOTTOM));
    assert!(!has_flag(&flags, CollideFlag::TOP));
    assert!(!has_flag(&flags, CollideFlag::RIGHT));
    assert!(!has_flag(&flags, CollideFlag::NONE));
    assert!(!has_flag(&vec![], CollideFlag::LEFT));
}

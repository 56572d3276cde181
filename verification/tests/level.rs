use breakout_core::level_maker::{build_map, create_map};
use breakout_core::objects::Block;

#[test]
fn wall_of_known_size() {
    let blocks = build_map(3, 8);
    assert_eq!(blocks.len(), 14);
    // 8 columns drawn: the wall starts at 8 + (13 - 8) * 16.
    assert_eq!(blocks[0], Block::new(88, 16));
    assert_eq!(blocks[1], Block::new(120, 16));
    assert_eq!(blocks[6], Block::new(280, 16));
    assert_eq!(blocks[7], Block::new(88, 32));
    assert_eq!(blocks[13], Block::new(280, 32));
}

#[test]
fn widest_and_highest_wall() {
    let blocks = build_map(4, 12);
    assert_eq!(blocks.len(), 33);
    assert_eq!(blocks[0], Block::new(24, 16));
    assert_eq!(blocks[10], Block::new(344, 16));
    assert_eq!(blocks[32], Block::new(344, 48));
}

#[test]
fn no_rows_no_blocks() {
    assert_eq!(build_map(1, 12), vec![]);
    assert_eq!(build_map(0, 12), vec![]);
    assert_eq!(build_map(-3, 12), vec![]);
    assert_eq!(build_map(4, 1), vec![]);
    assert_eq!(build_map(4, -7), vec![]);
}

#[test]
fn fresh_blocks_are_in_play() {
    let b = Block::new(8, 16);
    assert_eq!(
        b,
        Block { color: 1, tier: 0, width: 32, height: 16, x: 8, y: 16, dx: 0, dy: 0, inplay: true }
    );
}

#[test]
fn random_walls_stay_in_range() {
    let mut sizes = std::collections::BTreeSet::new();
    for _ in 0..400 {
        let blocks = create_map(1);
        let len = blocks.len();
        assert!(len <= 33);
        if len == 0 {
            sizes.insert((0, 0));
            continue;
        }
        // Every row has the same number of blocks, between 6 and 11.
        let cols = blocks.iter().filter(|b| b.y == 16).count();
        assert!((6..=11).contains(&cols));
        assert_eq!(len % cols, 0);
        let rows = len / cols;
        assert!((1..=3).contains(&rows));
        assert_eq!(blocks, build_map(rows as i32 + 1, cols as i32 + 1));
        sizes.insert((rows, cols));
    }
    // The draw is not a constant.
    assert!(sizes.len() > 1);
    assert!(sizes.iter().any(|(rows, _)| *rows > 0));
    assert!(sizes.iter().any(|(_, cols)| *cols > 6));
}

//! Lays out the wall of blocks for a level.

use crate::objects::Block;
use rand::Rng;
use vstd::prelude::*;

verus! {

/// Corner of the block in column `col` (counted from 0) of row `row`
/// (counted from 1) of a wall drawn for `cols`: blocks are 32 wide and 16
/// high, and the fewer columns, the further right the wall starts.
pub open spec fn block_corner(cols: int, row: int, col: int) -> (int, int) {
    (col * 32 + 8 + (13 - cols) * 16, row * 16)
}

/// One row of the wall, left to right: `cols - 1` blocks.
pub open spec fn wall_row(cols: int, row: int) -> Seq<Block> {
    Seq::new(
        if cols > 1 {
            (cols - 1) as nat
        } else {
            0
        },
        |col: int| Block::fresh(block_corner(cols, row, col).0 as i32, block_corner(cols, row, col).1 as i32),
    )
}

/// The first `count` rows of the wall, top to bottom.
pub open spec fn wall_rows(cols: int, count: nat) -> Seq<Block>
    decreases count,
{
    if count == 0 {
        Seq::empty()
    } else {
        wall_rows(cols, (count - 1) as nat) + wall_row(cols, count as int)
    }
}

/// The wall for the drawn numbers `rows` and `cols`: `rows - 1` rows of
/// `cols - 1` blocks.
pub open spec fn wall(rows: int, cols: int) -> Seq<Block> {
    wall_rows(
        cols,
        if rows > 1 {
            (rows - 1) as nat
        } else {
            0
        },
    )
}

/// Whether every corner of the wall for `rows` and `cols` can be
/// represented.
pub open spec fn wall_fits(rows: int, cols: int) -> bool {
    rows * 16 <= i32::MAX && cols * 16 + 152 <= i32::MAX
}

/// Draws a number from `low` up to but not including `high` with
/// `rand::Rng::gen_range` on the thread's generator. The contract claims
/// only the range; which number comes is left open.
#[verifier::external_body]
fn draw_between(low: i32, high: i32) -> (n: i32)
    requires
        low < high,
    ensures
        low <= n < high,
{
    rand::thread_rng().gen_range(low, high)
}

/// Builds the wall for the drawn numbers `rows` and `cols`.
pub fn build_map(rows: i32, cols: i32) -> (blocks: Vec<Block>)
    requires
        wall_fits(rows as int, cols as int),
    ensures
        blocks@ == wall(rows as int, cols as int),
{
    let mut blocks: Vec<Block> = Vec::new();
    let mut y: i32 = 1;
    while y < rows
        invariant
            1 <= y,
            y <= rows || y == 1,
            wall_fits(rows as int, cols as int),
            blocks@ == wall_rows(cols as int, (y - 1) as nat),
        decreases rows - y,
    {
        let ghost done = blocks@;
        let mut x: i32 = 1;
        while x < cols
            invariant
                1 <= x,
                x <= cols || x == 1,
                1 <= y < rows,
                wall_fits(rows as int, cols as int),
                blocks@ == done + wall_row(cols as int, y as int).subrange(0, x - 1),
            decreases cols - x,
        {
            let left: i64 = (x as i64 - 1) * 32 + 8 + (13 - cols as i64) * 16;
            let block = Block::new(left as i32, y * 16);
            blocks.push(block);
            assert(blocks@ =~= done + wall_row(cols as int, y as int).subrange(0, x as int));
            x = x + 1;
        }
        assert(blocks@ =~= done + wall_row(cols as int, y as int));
        y = y + 1;
    }
    blocks
}

/// Builds a wall of random size for `level`: between no and three rows of
/// between six and eleven blocks.
pub fn create_map(level: i32) -> (blocks: Vec<Block>)
    ensures
        exists|rows: int, cols: int| 1 <= rows < 5 && 7 <= cols < 13 && blocks@ == wall(rows, cols),
{
    let rows = draw_between(1, 5);
    let cols = draw_between(7, 13);
    build_map(rows, cols)
}

} // verus!

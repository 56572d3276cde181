//! The entities of the playfield (paddle, ball, blocks), their sprites and
//! the rectangle collision rule.

use crate::audio::{SoundCommand, SoundOp};
use crate::game::{VIRTUAL_HEIGHT, VIRTUAL_WIDTH};
use crate::graphics::{Canvas, DrawOp, Quad, Sheet};
use crate::key::{KeyCode, KeySet};
use crate::reg::{Reg, RegView};
use crate::states::{play_sound, play_sound_once};
use vstd::prelude::*;

verus! {

pub const PADDLE_FLAG: i32 = 0b0000_0000_0000_0000_0001_0000_0000_0000;

pub const BALL_FLAG: i32 = 0b0000_0000_0000_0000_0010_0000_0000_0000;

pub const BLOCK_FLAG: i32 = 0b0000_0000_0000_0000_0100_0000_0000_0000;

pub const HEARTS_FLAG: i32 = 0b0000_0000_0000_0000_1000_0000_0000_0000;

pub const BLUE: i32 = 1;

pub const GREEN: i32 = 2;

pub const RED: i32 = 4;

pub const MAGENTA: i32 = 8;

pub const STAT_1: i32 = 0b0001_0000;

pub const STAT_2: i32 = 0b0010_0000;

pub const STAT_3: i32 = 0b0100_0000;

pub const COLOR_MASK: i32 = 0b1111;

pub const BALL_MASK: i32 = 0b1111_1111;

pub const SMALL: i32 = 0b0001_0000;

pub const MEDIUM: i32 = 0b0010_0000;

pub const LARGE: i32 = 0b0100_0000;

pub const HUGE: i32 = 0b1000_0000;

pub const SIZE_MASK: i32 = 0b1111_0000;

/// Paddle speed in logical units per second.
pub const PADDLE_SPEED: i32 = 200;

/// Side of impact reported by the collision rule.
#[derive(Clone, Copy, Debug, PartialEq, Eq, Structural)]
pub enum CollideFlag {
    TOP,
    BOTTOM,
    LEFT,
    RIGHT,
    NONE,
}

/// What every entity of the playfield can do.
pub trait Object: Sized {
    /// Top-left corner, width and height.
    spec fn bounds(&self) -> (i32, i32, i32, i32);

    /// Whether one step of `dt` milliseconds can be taken: the sounds it
    /// asks for are registered and the new position can be represented.
    spec fn can_update(&self, dt: u32, reg: RegView) -> bool;

    /// The entity after one step of `dt` milliseconds with `keys` down.
    spec fn updated(&self, keys: Set<KeyCode>, dt: u32) -> Self;

    /// The sound commands one step queues.
    spec fn update_audio(&self, reg: RegView) -> Seq<SoundCommand>;

    /// The atlas key of what the entity shows, if it shows anything.
    spec fn sprite_key(&self) -> Option<int>;

    /// The entity after its appearance was set from `idx`.
    spec fn with_sprite(&self, idx: i32) -> Self;

    /// Advances the entity by `dt` milliseconds.
    fn update(&mut self, keys: &KeySet, reg: &mut Reg, dt: u32)
        requires
            old(self).can_update(dt, old(reg)@),
        ensures
            *final(self) == old(self).updated(keys@, dt),
            final(reg)@ == (RegView {
                audio: old(reg)@.audio + old(self).update_audio(old(reg)@),
                ..old(reg)@
            }),
    ;

    /// Records the entity's sprite at its position.
    fn draw(&mut self, reg: &Reg, canvas: &mut Canvas)
        requires
            old(canvas).is_bound(),
            old(self).sprite_key() matches Some(k) ==> i32::MIN <= k <= i32::MAX
                && reg@.sprites.contains_key(k as i32),
        ensures
            *final(self) == *old(self),
            final(canvas).is_bound(),
            final(canvas)@ == old(canvas)@ + sprite_ops(
                old(self).sprite_key(),
                old(self).bounds(),
                reg@.sprites,
            ),
    ;

    /// Sets the entity's appearance from the bits of `idx`.
    fn set_sprite(&mut self, idx: i32)
        ensures
            *final(self) == old(self).with_sprite(idx),
    ;

    /// Top-left corner, width and height.
    fn get_xywh(&self) -> (r: (i32, i32, i32, i32))
        ensures
            r == self.bounds(),
    ;
}

/// The drawing steps for an entity with atlas key `key` and bounds `at`.
pub open spec fn sprite_ops(key: Option<int>, at: (i32, i32, i32, i32), atlas: Map<i32, Quad>) -> Seq<
    DrawOp,
> {
    match key {
        Some(k) => seq![DrawOp::Sprite { sheet: Sheet::Main, src: atlas[k as i32], x: at.0, y: at.1 }],
        None => Seq::empty(),
    }
}

/// Whether two rectangles, each given as corner, width and height, overlap.
pub open spec fn overlaps(a: (i32, i32, i32, i32), b: (i32, i32, i32, i32)) -> bool {
    &&& a.0 < b.0 + b.2
    &&& a.0 + a.2 > b.0
    &&& a.1 < b.1 + b.3
    &&& a.1 + a.3 > b.1
}

/// The sides reported for `a` against `b`: none unless the rectangles
/// overlap, and then one per axis on which the corners differ.
pub open spec fn collide_flags(a: (i32, i32, i32, i32), b: (i32, i32, i32, i32)) -> Seq<CollideFlag> {
    if overlaps(a, b) {
        (if a.0 < b.0 {
            seq![CollideFlag::LEFT]
        } else if a.0 > b.0 {
            seq![CollideFlag::RIGHT]
        } else {
            Seq::empty()
        }) + (if a.1 < b.1 {
            seq![CollideFlag::BOTTOM]
        } else if a.1 > b.1 {
            seq![CollideFlag::TOP]
        } else {
            Seq::empty()
        })
    } else {
        Seq::empty()
    }
}

/// Compares the bounding boxes of `a` and `b` and reports the likely sides
/// of impact.
pub fn collide_aabb<A: Object, B: Object>(a: &A, b: &B) -> (flags: Vec<CollideFlag>)
    ensures
        flags@ == collide_flags(a.bounds(), b.bounds()),
{
    let a_xywh = a.get_xywh();
    let b_xywh = b.get_xywh();
    let a_left: i64 = a_xywh.0 as i64;
    let a_top: i64 = a_xywh.1 as i64;
    let b_left: i64 = b_xywh.0 as i64;
    let b_top: i64 = b_xywh.1 as i64;
    let a_right: i64 = a_left + a_xywh.2 as i64;
    let a_bottom: i64 = a_top + a_xywh.3 as i64;
    let b_right: i64 = b_left + b_xywh.2 as i64;
    let b_bottom: i64 = b_top + b_xywh.3 as i64;

    let mut vec: Vec<CollideFlag> = Vec::new();
    if a_left < b_right && a_right > b_left && a_top < b_bottom && a_bottom > b_top {
        if a_left < b_left {
            vec.push(CollideFlag::LEFT);
        }
        if a_left > b_left {
            vec.push(CollideFlag::RIGHT);
        }
        if a_top < b_top {
            vec.push(CollideFlag::BOTTOM);
        }
        if a_top > b_top {
            vec.push(CollideFlag::TOP);
        }
    }
    assert(vec@ =~= collide_flags(a.bounds(), b.bounds()));
    vec
}

/// Whether `flag` is among `flags`.
pub fn has_flag(flags: &Vec<CollideFlag>, flag: CollideFlag) -> (found: bool)
    ensures
        found == flags@.contains(flag),
{
    let mut i: usize = 0;
    while i < flags.len()
        invariant
            i <= flags@.len(),
            forall|j: int| 0 <= j < i ==> flags@[j] != flag,
        decreases flags@.len() - i,
    {
        if flags[i] == flag {
            return true;
        }
        i = i + 1;
    }
    false
}

/// Rectangles that do not overlap report no side.
pub proof fn lemma_apart_reports_nothing(a: (i32, i32, i32, i32), b: (i32, i32, i32, i32))
    requires
        !overlaps(a, b),
    ensures
        collide_flags(a, b) == Seq::<CollideFlag>::empty(),
{
}

/// Overlapping rectangles whose corners differ report at least one side,
/// and each side is reported exactly when the corners compare that way:
/// `LEFT` when `a` starts left of `b`, `RIGHT` when right of it, `BOTTOM`
/// when above it, `TOP` when below it. No side is reported twice.
pub proof fn lemma_overlap_reports_sides(a: (i32, i32, i32, i32), b: (i32, i32, i32, i32))
    requires
        overlaps(a, b),
    ensures
        (a.0 != b.0 || a.1 != b.1) ==> collide_flags(a, b).len() > 0,
        (a.0 == b.0 && a.1 == b.1) ==> collide_flags(a, b).len() == 0,
        collide_flags(a, b).contains(CollideFlag::LEFT) <==> a.0 < b.0,
        collide_flags(a, b).contains(CollideFlag::RIGHT) <==> a.0 > b.0,
        collide_flags(a, b).contains(CollideFlag::BOTTOM) <==> a.1 < b.1,
        collide_flags(a, b).contains(CollideFlag::TOP) <==> a.1 > b.1,
        !collide_flags(a, b).contains(CollideFlag::NONE),
        collide_flags(a, b).no_duplicates(),
{
    let f = collide_flags(a, b);
    let h: Seq<CollideFlag> = if a.0 < b.0 {
        seq![CollideFlag::LEFT]
    } else if a.0 > b.0 {
        seq![CollideFlag::RIGHT]
    } else {
        Seq::empty()
    };
    let v: Seq<CollideFlag> = if a.1 < b.1 {
        seq![CollideFlag::BOTTOM]
    } else if a.1 > b.1 {
        seq![CollideFlag::TOP]
    } else {
        Seq::empty()
    };
    assert(f == h + v);
    assert(f.len() == h.len() + v.len());
    assert forall|flag: CollideFlag| f.contains(flag) <==> (h.contains(flag) || v.contains(flag)) by {
        if h.contains(flag) {
            let i = choose|i: int| 0 <= i < h.len() && h[i] == flag;
            assert(f[i] == flag);
        }
        if v.contains(flag) {
            let i = choose|i: int| 0 <= i < v.len() && v[i] == flag;
            assert(f[h.len() + i] == flag);
        }
    }
    if a.0 < b.0 {
        assert(h[0] == CollideFlag::LEFT);
    }
    if a.0 > b.0 {
        assert(h[0] == CollideFlag::RIGHT);
    }
    if a.1 < b.1 {
        assert(v[0] == CollideFlag::BOTTOM);
    }
    if a.1 > b.1 {
        assert(v[0] == CollideFlag::TOP);
    }
}

/// Rectangle of the paddle sprite of a colour and a size, if there is one.
/// Each colour has a band of the sheet: the three smaller sizes side by
/// side, the largest on a row of its own below them.
pub open spec fn paddle_sprite(color: int, size: int) -> Option<Quad> {
    let band: Option<int> = if color == BLUE {
        Some(64int)
    } else if color == GREEN {
        Some(96int)
    } else if color == RED {
        Some(128int)
    } else if color == MAGENTA {
        Some(160int)
    } else {
        None
    };
    match band {
        None => None,
        Some(v) => if size == SMALL {
            Some(Quad { u: 0, v: v as i32, w: 32, h: 16 })
        } else if size == MEDIUM {
            Some(Quad { u: 32, v: v as i32, w: 64, h: 16 })
        } else if size == LARGE {
            Some(Quad { u: 96, v: v as i32, w: 96, h: 16 })
        } else if size == HUGE {
            Some(Quad { u: 0, v: (v + 16) as i32, w: 128, h: 16 })
        } else {
            None
        },
    }
}

/// Rectangle of the ball sprite numbered `kind`, if there is one: four
/// colours on one row, three more on the row below.
pub open spec fn ball_sprite(kind: int) -> Option<Quad> {
    if kind == BLUE {
        Some(Quad { u: 96, v: 48, w: 8, h: 8 })
    } else if kind == GREEN {
        Some(Quad { u: 104, v: 48, w: 8, h: 8 })
    } else if kind == RED {
        Some(Quad { u: 112, v: 48, w: 8, h: 8 })
    } else if kind == MAGENTA {
        Some(Quad { u: 120, v: 48, w: 8, h: 8 })
    } else if kind == STAT_1 {
        Some(Quad { u: 96, v: 56, w: 8, h: 8 })
    } else if kind == STAT_2 {
        Some(Quad { u: 104, v: 56, w: 8, h: 8 })
    } else if kind == STAT_3 {
        Some(Quad { u: 112, v: 56, w: 8, h: 8 })
    } else {
        None
    }
}

/// Number of block sprites on the sheet.
pub const BLOCK_SPRITES: i32 = 21;

/// Rectangle of the block sprite numbered `index`, if there is one: the
/// sprites fill the sheet six to a row.
pub open spec fn block_sprite(index: int) -> Option<Quad> {
    if 1 <= index <= BLOCK_SPRITES {
        Some(Quad { u: (((index - 1) % 6) * 32) as i32, v: (((index - 1) / 6) * 16) as i32, w: 32, h: 16 })
    } else {
        None
    }
}

/// Rectangle that the game registers for `key` on the main sheet, if any.
pub open spec fn global_sprite(key: i32) -> Option<Quad> {
    if PADDLE_FLAG <= key < BALL_FLAG {
        paddle_sprite((key - PADDLE_FLAG) % 16, (key - PADDLE_FLAG) - (key - PADDLE_FLAG) % 16)
    } else if BALL_FLAG <= key < BLOCK_FLAG {
        ball_sprite(key - BALL_FLAG)
    } else if BLOCK_FLAG <= key < HEARTS_FLAG {
        block_sprite(key - BLOCK_FLAG)
    } else {
        None
    }
}

/// Rectangle that the game registers for `key` on the hearts sheet, if any:
/// the full heart, then the empty one.
pub open spec fn global_heart(key: i32) -> Option<Quad> {
    if key == HEARTS_FLAG {
        Some(Quad { u: 0, v: 0, w: 10, h: 9 })
    } else if key == HEARTS_FLAG + 1 {
        Some(Quad { u: 10, v: 0, w: 10, h: 9 })
    } else {
        None
    }
}

/// The atlas `base` with every key that `added` knows set to its rectangle.
pub open spec fn overlay(base: Map<i32, Quad>, added: spec_fn(i32) -> Option<Quad>) -> Map<i32, Quad> {
    Map::new(
        |k: i32| base.contains_key(k) || added(k) is Some,
        |k: i32|
            match added(k) {
                Some(q) => q,
                None => base[k],
            },
    )
}

/// Registers every sprite of the game: paddles, balls, blocks and hearts.
pub fn init_global_sprite(reg: &mut Reg)
    ensures
        final(reg)@ == (RegView {
            sprites: overlay(old(reg)@.sprites, |k: i32| global_sprite(k)),
            hearts: overlay(old(reg)@.hearts, |k: i32| global_heart(k)),
            ..old(reg)@
        }),
{
    // Paddle
    reg.register_sprite(PADDLE_FLAG + BLUE + SMALL, 0, 64, 32, 16);
    reg.register_sprite(PADDLE_FLAG + BLUE + MEDIUM, 32, 64, 64, 16);
    reg.register_sprite(PADDLE_FLAG + BLUE + LARGE, 96, 64, 96, 16);
    reg.register_sprite(PADDLE_FLAG + BLUE + HUGE, 0, 80, 128, 16);

    reg.register_sprite(PADDLE_FLAG + GREEN + SMALL, 0, 96, 32, 16);
    reg.register_sprite(PADDLE_FLAG + GREEN + MEDIUM, 32, 96, 64, 16);
    reg.register_sprite(PADDLE_FLAG + GREEN + LARGE, 96, 96, 96, 16);
    reg.register_sprite(PADDLE_FLAG + GREEN + HUGE, 0, 112, 128, 16);

    reg.register_sprite(PADDLE_FLAG + RED + SMALL, 0, 128, 32, 16);
    reg.register_sprite(PADDLE_FLAG + RED + MEDIUM, 32, 128, 64, 16);
    reg.register_sprite(PADDLE_FLAG + RED + LARGE, 96, 128, 96, 16);
    reg.register_sprite(PADDLE_FLAG + RED + HUGE, 0, 144, 128, 16);

    reg.register_sprite(PADDLE_FLAG + MAGENTA + SMALL, 0, 160, 32, 16);
    reg.register_sprite(PADDLE_FLAG + MAGENTA + MEDIUM, 32, 160, 64, 16);
    reg.register_sprite(PADDLE_FLAG + MAGENTA + LARGE, 96, 160, 96, 16);
    reg.register_sprite(PADDLE_FLAG + MAGENTA + HUGE, 0, 176, 128, 16);

    // Ball
    reg.register_sprite(BALL_FLAG + BLUE, 96, 48, 8, 8);
    reg.register_sprite(BALL_FLAG + GREEN, 104, 48, 8, 8);
    reg.register_sprite(BALL_FLAG + RED, 112, 48, 8, 8);
    reg.register_sprite(BALL_FLAG + MAGENTA, 120, 48, 8, 8);

    reg.register_sprite(BALL_FLAG + STAT_1, 96, 56, 8, 8);
    reg.register_sprite(BALL_FLAG + STAT_2, 104, 56, 8, 8);
    reg.register_sprite(BALL_FLAG + STAT_3, 112, 56, 8, 8);

    let ghost fixed = reg@.sprites;
    assert forall|k: i32| #[trigger] fixed.contains_key(k) <==> (old(reg)@.sprites.contains_key(k) || (
    global_sprite(k) is Some && k < BLOCK_FLAG)) by {}
    assert forall|k: i32| #[trigger] fixed.contains_key(k) implies fixed[k] == (if global_sprite(k) is Some
        && k < BLOCK_FLAG {
        global_sprite(k)->0
    } else {
        old(reg)@.sprites[k]
    }) by {}

    // Blocks, six to a row.
    let mut x: i32 = 0;
    let mut y: i32 = 0;
    let mut i: i32 = 1;
    while i < 22
        invariant
            1 <= i <= 22,
            x == ((i - 1) % 6) * 32,
            y == ((i - 1) / 6) * 16,
            reg@ == (RegView { sprites: reg@.sprites, ..old(reg)@ }),
            forall|k: i32| #[trigger]
                reg@.sprites.contains_key(k) <==> (fixed.contains_key(k) || BLOCK_FLAG < k < BLOCK_FLAG
                    + i),
            forall|k: i32| #[trigger]
                reg@.sprites.contains_key(k) ==> reg@.sprites[k] == (if BLOCK_FLAG < k < BLOCK_FLAG + i {
                    block_sprite(k - BLOCK_FLAG)->0
                } else {
                    fixed[k]
                }),
        decreases 22 - i,
    {
        reg.register_sprite(BLOCK_FLAG + i, x, y, 32, 16);
        if i % 6 == 0 {
            x = 0;
            y = y + 16;
        } else {
            x = x + 32;
        }
        i = i + 1;
    }

    // Hearts
    reg.register_heart(HEARTS_FLAG, 0, 0, 10, 9);
    reg.register_heart(HEARTS_FLAG + 1, 10, 0, 10, 9);

    assert(reg@.sprites =~= overlay(old(reg)@.sprites, |k: i32| global_sprite(k)));
    assert(reg@.hearts =~= overlay(old(reg)@.hearts, |k: i32| global_heart(k)));
}

/// The player's paddle. Its corner is at `(x, y)` in whole units; `part_x`
/// is what its exact place lies beyond `x`, in parts of a unit. Its speed is
/// in units a second.
#[derive(Clone, Copy, Debug, PartialEq, Eq, Structural)]
pub struct Paddle {
    pub size: i32,
    pub color: i32,
    pub width: i32,
    pub height: i32,
    pub x: i32,
    pub y: i32,
    pub part_x: i32,
    pub dx: i32,
}

/// Paddle velocity for the keys that are down: left wins over right, and
/// there is nothing between full speed and rest.
pub open spec fn paddle_velocity(keys: Set<KeyCode>) -> int {
    if keys.contains(KeyCode::Left) {
        -PADDLE_SPEED
    } else if keys.contains(KeyCode::Right) {
        PADDLE_SPEED as int
    } else {
        0
    }
}

/// The exact place `fine`, in parts of a unit, kept between the left and
/// the right edge of the playfield.
pub open spec fn kept_inside(fine: int) -> int {
    if fine < 0 {
        0
    } else if fine > VIRTUAL_WIDTH * PARTS {
        VIRTUAL_WIDTH * PARTS
    } else {
        fine
    }
}

/// Exact paddle place after `dt` milliseconds with `keys` down, in parts of
/// a unit: the velocity times the time is added, and the paddle stops at
/// the edges of the playfield.
pub open spec fn paddle_position(fine: int, keys: Set<KeyCode>, dt: u32) -> int {
    kept_inside(fine + paddle_velocity(keys) * dt)
}

impl Paddle {
    /// The paddle's exact place along the width, in parts of a unit.
    pub open spec fn fine_x(&self) -> int {
        self.x * PARTS + self.part_x
    }

    /// Width of the sprite that goes with the paddle's size.
    pub open spec fn size_width(size: i32) -> i32 {
        if size == MEDIUM {
            64
        } else if size == LARGE {
            96
        } else if size == HUGE {
            128
        } else {
            32
        }
    }

    /// Width of the sprite that goes with the paddle's size.
    pub fn get_width(&self) -> (w: i32)
        ensures
            w == Paddle::size_width(self.size),
    {
        if self.size == SMALL {
            32
        } else if self.size == MEDIUM {
            64
        } else if self.size == LARGE {
            96
        } else if self.size == HUGE {
            128
        } else {
            32
        }
    }

    /// A medium magenta paddle at rest in the middle of the playfield.
    pub fn new() -> (paddle: Paddle)
        ensures
            paddle == (Paddle {
                size: MEDIUM,
                color: MAGENTA,
                x: 160,
                y: 448,
                part_x: 0,
                width: 64,
                height: 16,
                dx: 0,
            }),
    {
        Paddle {
            size: MEDIUM,
            color: MAGENTA,
            x: VIRTUAL_WIDTH / 2,
            y: VIRTUAL_HEIGHT - 32,
            part_x: 0,
            width: 64,
            height: 16,
            dx: 0,
        }
    }
}

impl Object for Paddle {
    open spec fn bounds(&self) -> (i32, i32, i32, i32) {
        (self.x, self.y, self.width, self.height)
    }

    open spec fn can_update(&self, dt: u32, reg: RegView) -> bool {
        true
    }

    open spec fn updated(&self, keys: Set<KeyCode>, dt: u32) -> Paddle {
        Paddle {
            dx: paddle_velocity(keys) as i32,
            x: whole_of(paddle_position(self.fine_x(), keys, dt)) as i32,
            part_x: part_of(paddle_position(self.fine_x(), keys, dt)) as i32,
            ..*self
        }
    }

    open spec fn update_audio(&self, reg: RegView) -> Seq<SoundCommand> {
        Seq::empty()
    }

    open spec fn sprite_key(&self) -> Option<int> {
        Some(PADDLE_FLAG + self.color + self.size)
    }

    open spec fn with_sprite(&self, idx: i32) -> Paddle {
        Paddle {
            color: if idx & COLOR_MASK > 0 {
                idx & COLOR_MASK
            } else {
                self.color
            },
            size: if idx & SIZE_MASK > 0 {
                idx & SIZE_MASK
            } else {
                self.size
            },
            ..*self
        }
    }

    fn update(&mut self, keys: &KeySet, reg: &mut Reg, dt: u32) {
        if keys.contains(KeyCode::Left) {
            self.dx = -PADDLE_SPEED;
        } else if keys.contains(KeyCode::Right) {
            self.dx = PADDLE_SPEED;
        } else {
            self.dx = 0;
        }
        let to = advance(self.x, self.part_x, self.dx, dt);
        if to.0 < 0 {
            self.x = 0;
            self.part_x = 0;
        } else if to.0 > VIRTUAL_WIDTH as i128 || (to.0 == VIRTUAL_WIDTH as i128 && to.1 > 0) {
            self.x = VIRTUAL_WIDTH;
            self.part_x = 0;
        } else {
            self.x = to.0 as i32;
            self.part_x = to.1;
        }
        assert(final(reg)@.audio =~= old(reg)@.audio + Seq::<SoundCommand>::empty());
    }

    fn draw(&mut self, reg: &Reg, canvas: &mut Canvas) {
        let key: i64 = PADDLE_FLAG as i64 + self.color as i64 + self.size as i64;
        reg.draw_sprite(canvas, key as i32, self.x, self.y);
        assert(final(canvas)@ =~= old(canvas)@ + sprite_ops(self.sprite_key(), self.bounds(), reg@.sprites));
    }

    fn set_sprite(&mut self, idx: i32) {
        let color: i32 = idx & COLOR_MASK;
        if color > 0 {
            self.color = color;
        }
        let size: i32 = idx & SIZE_MASK;
        if size > 0 {
            self.size = size;
        }
    }

    fn get_xywh(&self) -> (i32, i32, i32, i32) {
        (self.x, self.y, self.width, self.height)
    }
}

/// The paddle never leaves the playfield: wherever it started, whatever
/// the keys and however long the step, it ends between the left and the
/// right edge, and a paddle on the left edge that is steered left stays
/// there.
pub proof fn lemma_paddle_stays_inside(paddle: Paddle, keys: Set<KeyCode>, dt: u32)
    ensures
        0 <= paddle.updated(keys, dt).fine_x() <= VIRTUAL_WIDTH * PARTS,
        0 <= paddle.updated(keys, dt).x <= VIRTUAL_WIDTH,
        0 <= paddle.updated(keys, dt).part_x < PARTS,
        paddle.fine_x() == 0 && keys.contains(KeyCode::Left) ==> paddle.updated(keys, dt).x == 0
            && paddle.updated(keys, dt).part_x == 0,
{
    if keys.contains(KeyCode::Left) {
        assert(-PADDLE_SPEED * dt <= 0) by (nonlinear_arith)
            requires
                dt >= 0,
        ;
    }
}

/// Inside the playfield the paddle's step scales with time: its exact
/// place moves by its speed times the milliseconds of the step, so that no
/// movement is lost however short the step.
pub proof fn lemma_paddle_moves_with_time(paddle: Paddle, keys: Set<KeyCode>, dt: u32)
    requires
        0 <= paddle.fine_x() + paddle_velocity(keys) * dt <= VIRTUAL_WIDTH * PARTS,
    ensures
        paddle.updated(keys, dt).fine_x() == paddle.fine_x() + paddle_velocity(keys) * dt,
        paddle.updated(keys, dt).dx == paddle_velocity(keys),
{
}

/// Parts into which a unit is divided for the ball's exact place. A speed
/// of one unit a second moves the ball by one part a millisecond.
pub const PARTS: i32 = 1000;

/// The ball. Its corner is at `(x, y)` in whole units; `part_x` and
/// `part_y` are what its exact place lies beyond that, in parts of a unit.
/// Speeds are in units a second.
#[derive(Clone, Copy, Debug, PartialEq, Eq, Structural)]
pub struct Ball {
    pub color: i32,
    pub width: i32,
    pub height: i32,
    pub x: i32,
    pub y: i32,
    pub part_x: i32,
    pub part_y: i32,
    pub dx: i32,
    pub dy: i32,
}

/// Where the ball starts and where it returns after a lost life.
pub const BALL_SPAWN_X: i32 = 160;

pub const BALL_SPAWN_Y: i32 = 440;

/// The whole units in an exact place given in parts.
pub open spec fn whole_of(fine: int) -> int {
    fine / (PARTS as int)
}

/// The parts that an exact place lies beyond its whole units: from 0 up to
/// but not including `PARTS`.
pub open spec fn part_of(fine: int) -> int {
    fine % (PARTS as int)
}

/// Splits the exact place reached from `place` units and `part` parts at
/// `speed` units a second in `dt` milliseconds into whole units and parts.
fn advance(place: i32, part: i32, speed: i32, dt: u32) -> (to: (i128, i32))
    ensures
        to.0 == whole_of(place * PARTS + part + speed * dt),
        to.1 == part_of(place * PARTS + part + speed * dt),
{
    assert(-0x8000_0000_0000_0000 <= speed * dt <= 0x8000_0000_0000_0000) by (nonlinear_arith)
        requires
            -0x8000_0000 <= speed <= 0x8000_0000,
            0 <= dt <= 0x1_0000_0000,
    ;
    let fine: i128 = place as i128 * PARTS as i128 + part as i128 + speed as i128 * dt as i128;
    if fine >= 0 {
        (fine / PARTS as i128, (fine % PARTS as i128) as i32)
    } else {
        let back: i128 = -fine;
        let units: i128 = back / PARTS as i128;
        let rest: i128 = back % PARTS as i128;
        if rest == 0 {
            (-units, 0)
        } else {
            (-units - 1, (PARTS as i128 - rest) as i32)
        }
    }
}

impl Ball {
    /// The ball's exact place along the width, in parts of a unit.
    pub open spec fn fine_x(&self) -> int {
        self.x * PARTS + self.part_x
    }

    /// The ball's exact place along the height, in parts of a unit.
    pub open spec fn fine_y(&self) -> int {
        self.y * PARTS + self.part_y
    }

    /// Whether the ball is past the left or the right wall.
    pub open spec fn off_sides(&self) -> bool {
        self.fine_x() < 0 || self.fine_x() > VIRTUAL_WIDTH * PARTS
    }

    /// Whether the ball is past the top or the bottom of the playfield.
    pub open spec fn off_ends(&self) -> bool {
        self.fine_y() < 0 || self.fine_y() > VIRTUAL_HEIGHT * PARTS
    }

    /// Whether the ball is below the bottom of the playfield.
    pub open spec fn below_floor(&self) -> bool {
        self.fine_y() > VIRTUAL_HEIGHT * PARTS
    }

    /// Horizontal velocity after the walls were looked at.
    pub open spec fn bounced_dx(&self) -> int {
        if self.off_sides() {
            -self.dx
        } else {
            self.dx as int
        }
    }

    /// Vertical velocity after the walls were looked at.
    pub open spec fn bounced_dy(&self) -> int {
        if self.off_ends() {
            -self.dy
        } else {
            self.dy as int
        }
    }

    /// The exact place along the width after `dt` milliseconds: the
    /// velocity, turned round by a wall if need be, times the time.
    pub open spec fn moved_x(&self, dt: u32) -> int {
        self.fine_x() + self.bounced_dx() * dt
    }

    /// The exact place along the height after `dt` milliseconds.
    pub open spec fn moved_y(&self, dt: u32) -> int {
        self.fine_y() + self.bounced_dy() * dt
    }

    /// Whether the ball can move for `dt` milliseconds: the velocity can be
    /// turned round where a wall asks for it, and the place it reaches can
    /// be represented.
    pub open spec fn can_move(&self, dt: u32) -> bool {
        &&& i32::MIN <= self.bounced_dx() <= i32::MAX
        &&& i32::MIN <= self.bounced_dy() <= i32::MAX
        &&& i32::MIN <= whole_of(self.moved_x(dt)) <= i32::MAX
        &&& i32::MIN <= whole_of(self.moved_y(dt)) <= i32::MAX
    }

    /// A magenta ball at rest on its spawn point.
    pub fn new() -> (ball: Ball)
        ensures
            ball == (Ball {
                color: MAGENTA,
                x: BALL_SPAWN_X,
                y: BALL_SPAWN_Y,
                part_x: 0,
                part_y: 0,
                width: 8,
                height: 8,
                dx: 0,
                dy: 0,
            }),
    {
        Ball {
            color: MAGENTA,
            x: VIRTUAL_WIDTH / 2,
            y: VIRTUAL_HEIGHT - 40,
            part_x: 0,
            part_y: 0,
            width: 8,
            height: 8,
            dx: 0,
            dy: 0,
        }
    }

    /// Puts the ball back on its spawn point, at rest.
    pub fn reset(&mut self)
        ensures
            *final(self) == (Ball {
                x: BALL_SPAWN_X,
                y: BALL_SPAWN_Y,
                part_x: 0,
                part_y: 0,
                dx: 0,
                dy: 0,
                ..*old(self)
            }),
    {
        self.x = VIRTUAL_WIDTH / 2;
        self.y = VIRTUAL_HEIGHT - 40;
        self.part_x = 0;
        self.part_y = 0;
        self.dx = 0;
        self.dy = 0;
    }

    /// Whether the ball is past the left or the right wall.
    pub fn past_sides(&self) -> (off: bool)
        ensures
            off == self.off_sides(),
    {
        let fine: i64 = self.x as i64 * PARTS as i64 + self.part_x as i64;
        fine < 0 || fine > VIRTUAL_WIDTH as i64 * PARTS as i64
    }

    /// Whether the ball is past the top or the bottom of the playfield.
    pub fn past_ends(&self) -> (off: bool)
        ensures
            off == self.off_ends(),
    {
        let fine: i64 = self.y as i64 * PARTS as i64 + self.part_y as i64;
        fine < 0 || fine > VIRTUAL_HEIGHT as i64 * PARTS as i64
    }

    /// Whether the ball is below the bottom of the playfield.
    pub fn past_floor(&self) -> (below: bool)
        ensures
            below == self.below_floor(),
    {
        let fine: i64 = self.y as i64 * PARTS as i64 + self.part_y as i64;
        fine > VIRTUAL_HEIGHT as i64 * PARTS as i64
    }

    /// Whether the ball can move for `dt` milliseconds.
    pub fn movable(&self, dt: u32) -> (ok: bool)
        ensures
            ok == self.can_move(dt),
    {
        let turn_x = self.past_sides();
        let turn_y = self.past_ends();
        if (turn_x && self.dx == i32::MIN) || (turn_y && self.dy == i32::MIN) {
            return false;
        }
        let dx: i32 = if turn_x {
            -self.dx
        } else {
            self.dx
        };
        let dy: i32 = if turn_y {
            -self.dy
        } else {
            self.dy
        };
        let to_x = advance(self.x, self.part_x, dx, dt);
        let to_y = advance(self.y, self.part_y, dy, dt);
        i32::MIN as i128 <= to_x.0 && to_x.0 <= i32::MAX as i128 && i32::MIN as i128 <= to_y.0 && to_y.0
            <= i32::MAX as i128
    }
}

impl Object for Ball {
    open spec fn bounds(&self) -> (i32, i32, i32, i32) {
        (self.x, self.y, self.width, self.height)
    }

    open spec fn can_update(&self, dt: u32, reg: RegView) -> bool {
        &&& (self.off_sides() || self.off_ends()) ==> reg.sounds.contains_key("wall-hit"@)
        &&& self.can_move(dt)
    }

    open spec fn updated(&self, keys: Set<KeyCode>, dt: u32) -> Ball {
        Ball {
            dx: self.bounced_dx() as i32,
            dy: self.bounced_dy() as i32,
            x: whole_of(self.moved_x(dt)) as i32,
            y: whole_of(self.moved_y(dt)) as i32,
            part_x: part_of(self.moved_x(dt)) as i32,
            part_y: part_of(self.moved_y(dt)) as i32,
            ..*self
        }
    }

    open spec fn update_audio(&self, reg: RegView) -> Seq<SoundCommand> {
        let hit = SoundCommand { op: SoundOp::PlayOnce, source: reg.sounds["wall-hit"@] };
        (if self.off_sides() {
            seq![hit]
        } else {
            Seq::empty()
        }) + (if self.off_ends() {
            seq![hit]
        } else {
            Seq::empty()
        })
    }

    open spec fn sprite_key(&self) -> Option<int> {
        Some(BALL_FLAG + self.color)
    }

    open spec fn with_sprite(&self, idx: i32) -> Ball {
        Ball {
            color: if idx & BALL_MASK > 0 {
                idx & BALL_MASK
            } else {
                self.color
            },
            ..*self
        }
    }

    fn update(&mut self, keys: &KeySet, reg: &mut Reg, dt: u32) {
        if self.past_sides() {
            self.dx = -self.dx;
            play_sound_once(&"wall-hit".to_owned(), reg);
        }
        if self.past_ends() {
            self.dy = -self.dy;
            play_sound_once(&"wall-hit".to_owned(), reg);
        }
        let to_x = advance(self.x, self.part_x, self.dx, dt);
        let to_y = advance(self.y, self.part_y, self.dy, dt);
        self.x = to_x.0 as i32;
        self.part_x = to_x.1;
        self.y = to_y.0 as i32;
        self.part_y = to_y.1;
        assert(final(reg)@.audio =~= old(reg)@.audio + old(self).update_audio(old(reg)@));
    }

    fn draw(&mut self, reg: &Reg, canvas: &mut Canvas) {
        let key: i64 = BALL_FLAG as i64 + self.color as i64;
        reg.draw_sprite(canvas, key as i32, self.x, self.y);
        assert(final(canvas)@ =~= old(canvas)@ + sprite_ops(self.sprite_key(), self.bounds(), reg@.sprites));
    }

    fn set_sprite(&mut self, idx: i32) {
        let color: i32 = idx & BALL_MASK;
        if color > 0 {
            self.color = color;
        }
    }

    fn get_xywh(&self) -> (i32, i32, i32, i32) {
        (self.x, self.y, self.width, self.height)
    }
}

/// A ball past a side wall leaves the step with its horizontal velocity
/// turned round and one wall sound queued for that wall; a ball between the
/// walls keeps its velocity and queues none.
pub proof fn lemma_wall_turns_ball(ball: Ball, reg: RegView, keys: Set<KeyCode>, dt: u32)
    requires
        ball.can_update(dt, reg),
    ensures
        ball.off_sides() ==> ball.updated(keys, dt).dx == -ball.dx,
        !ball.off_sides() ==> ball.updated(keys, dt).dx == ball.dx,
        ball.off_ends() ==> ball.updated(keys, dt).dy == -ball.dy,
        !ball.off_ends() ==> ball.updated(keys, dt).dy == ball.dy,
        ball.update_audio(reg).len() == (if ball.off_sides() {
            1int
        } else {
            0int
        }) + (if ball.off_ends() {
            1int
        } else {
            0int
        }),
        forall|i: int|
            0 <= i < ball.update_audio(reg).len() ==> ball.update_audio(reg)[i] == (SoundCommand {
                op: SoundOp::PlayOnce,
                source: reg.sounds["wall-hit"@],
            }),
{
}

/// The ball's step scales with time: its exact place moves by its velocity
/// times the milliseconds of the step, and what is short of a whole unit is
/// carried in its parts, so that no movement is lost however slow the ball
/// or short the step.
pub proof fn lemma_ball_moves_with_time(ball: Ball, reg: RegView, keys: Set<KeyCode>, dt: u32)
    requires
        ball.can_update(dt, reg),
    ensures
        ball.updated(keys, dt).fine_x() == ball.fine_x() + ball.bounced_dx() * dt,
        ball.updated(keys, dt).fine_y() == ball.fine_y() + ball.bounced_dy() * dt,
        0 <= ball.updated(keys, dt).part_x < PARTS,
        0 <= ball.updated(keys, dt).part_y < PARTS,
        dt == 0 ==> ball.updated(keys, dt).fine_x() == ball.fine_x() && ball.updated(keys, dt).fine_y()
            == ball.fine_y(),
{
    assert(ball.bounced_dx() * 0 == 0);
    assert(ball.bounced_dy() * 0 == 0);
}

/// On a ball between the walls with whole places, a step of whole seconds
/// moves it by its velocity for each second.
pub proof fn lemma_ball_whole_seconds(ball: Ball, keys: Set<KeyCode>, seconds: u32)
    requires
        !ball.off_sides(),
        !ball.off_ends(),
        ball.part_x == 0,
        ball.part_y == 0,
        seconds * 1000 <= u32::MAX,
        ball.can_move((seconds * 1000) as u32),
    ensures
        ball.updated(keys, (seconds * 1000) as u32).x == ball.x + ball.dx * seconds,
        ball.updated(keys, (seconds * 1000) as u32).y == ball.y + ball.dy * seconds,
        ball.updated(keys, (seconds * 1000) as u32).part_x == 0,
        ball.updated(keys, (seconds * 1000) as u32).part_y == 0,
{
    let dt = (seconds * 1000) as u32;
    assert(ball.dx * dt == (ball.dx * seconds) * 1000) by (nonlinear_arith)
        requires
            dt == seconds * 1000,
    ;
    assert(ball.dy * dt == (ball.dy * seconds) * 1000) by (nonlinear_arith)
        requires
            dt == seconds * 1000,
    ;
    assert(ball.moved_x(dt) == (ball.x + ball.dx * seconds) * 1000);
    assert(ball.moved_y(dt) == (ball.y + ball.dy * seconds) * 1000);
}

/// Two steps in a row are as good as one step of their sum, as long as no
/// wall turns the ball in between: the exact place after both is the exact
/// place after the one.
pub proof fn lemma_ball_steps_add_up(ball: Ball, keys: Set<KeyCode>, first: u32, second: u32)
    requires
        first + second <= u32::MAX,
        !ball.off_sides(),
        !ball.off_ends(),
        ball.can_move(first),
        !ball.updated(keys, first).off_sides(),
        !ball.updated(keys, first).off_ends(),
        ball.updated(keys, first).can_move(second),
    ensures
        ball.updated(keys, first).updated(keys, second) == ball.updated(keys, (first + second) as u32),
{
    let mid = ball.updated(keys, first);
    let sum = (first + second) as u32;
    assert(mid.fine_x() == ball.fine_x() + ball.dx * first);
    assert(mid.fine_y() == ball.fine_y() + ball.dy * first);
    assert(ball.dx * first + ball.dx * second == ball.dx * sum) by (nonlinear_arith)
        requires
            sum == first + second,
    ;
    assert(ball.dy * first + ball.dy * second == ball.dy * sum) by (nonlinear_arith)
        requires
            sum == first + second,
    ;
    assert(mid.moved_x(second) == ball.moved_x(sum));
    assert(mid.moved_y(second) == ball.moved_y(sum));
}

/// A block of the wall.
#[derive(Clone, Copy, Debug, PartialEq, Eq, Structural)]
pub struct Block {
    pub color: i32,
    pub tier: i32,
    pub width: i32,
    pub height: i32,
    pub x: i32,
    pub y: i32,
    pub dx: i32,
    pub dy: i32,
    pub inplay: bool,
}

/// Number of the block sprite for a colour and a tier.
pub open spec fn block_sprite_index(color: i32, tier: i32) -> int {
    1 + (color - 1) * 4 + tier
}

impl Block {
    /// A blue block of the lowest tier, in play, with its corner at
    /// `(ox, oy)`.
    pub open spec fn fresh(ox: i32, oy: i32) -> Block {
        Block { color: 1, tier: 0, x: ox, y: oy, width: 32, height: 16, dx: 0, dy: 0, inplay: true }
    }

    /// A blue block of the lowest tier, in play, with its corner at
    /// `(ox, oy)`.
    pub fn new(ox: i32, oy: i32) -> (block: Block)
        ensures
            block == Block::fresh(ox, oy),
    {
        Block { color: 1, tier: 0, x: ox, y: oy, width: 32, height: 16, dx: 0, dy: 0, inplay: true }
    }

    /// Takes the block out of play and queues the brick sound.
    pub fn hit(&mut self, reg: &mut Reg)
        requires
            old(reg)@.sounds.contains_key("brick-hit-2"@),
        ensures
            *final(self) == (Block { inplay: false, ..*old(self) }),
            final(reg)@ == old(reg)@.queued(SoundOp::Play, old(reg)@.sounds["brick-hit-2"@]),
    {
        self.inplay = false;
        play_sound(&"brick-hit-2".to_owned(), reg);
    }
}

impl Object for Block {
    open spec fn bounds(&self) -> (i32, i32, i32, i32) {
        (self.x, self.y, self.width, self.height)
    }

    open spec fn can_update(&self, dt: u32, reg: RegView) -> bool {
        true
    }

    open spec fn updated(&self, keys: Set<KeyCode>, dt: u32) -> Block {
        *self
    }

    open spec fn update_audio(&self, reg: RegView) -> Seq<SoundCommand> {
        Seq::empty()
    }

    open spec fn sprite_key(&self) -> Option<int> {
        if self.inplay {
            Some(BLOCK_FLAG + block_sprite_index(self.color, self.tier))
        } else {
            None
        }
    }

    open spec fn with_sprite(&self, idx: i32) -> Block {
        Block {
            color: if idx & BALL_MASK > 0 {
                idx & BALL_MASK
            } else {
                self.color
            },
            ..*self
        }
    }

    fn update(&mut self, keys: &KeySet, reg: &mut Reg, dt: u32) {
        assert(final(reg)@.audio =~= old(reg)@.audio + Seq::<SoundCommand>::empty());
    }

    fn draw(&mut self, reg: &Reg, canvas: &mut Canvas) {
        if self.inplay {
            let key: i64 = BLOCK_FLAG as i64 + 1 + (self.color as i64 - 1) * 4 + self.tier as i64;
            reg.draw_sprite(canvas, key as i32, self.x, self.y);
        }
        assert(final(canvas)@ =~= old(canvas)@ + sprite_ops(self.sprite_key(), self.bounds(), reg@.sprites));
    }

    fn set_sprite(&mut self, idx: i32) {
        let color: i32 = idx & BALL_MASK;
        if color > 0 {
            self.color = color;
        }
    }

    fn get_xywh(&self) -> (i32, i32, i32, i32) {
        (self.x, self.y, self.width, self.height)
    }
}

/// Any entity of the playfield.
#[derive(Clone, Copy, Debug, PartialEq, Eq, Structural)]
pub enum Entity {
    Paddle(Paddle),
    Ball(Ball),
    Block(Block),
}

impl Object for Entity {
    open spec fn bounds(&self) -> (i32, i32, i32, i32) {
        match *self {
            Entity::Paddle(p) => p.bounds(),
            Entity::Ball(b) => b.bounds(),
            Entity::Block(b) => b.bounds(),
        }
    }

    open spec fn can_update(&self, dt: u32, reg: RegView) -> bool {
        match *self {
            Entity::Paddle(p) => p.can_update(dt, reg),
            Entity::Ball(b) => b.can_update(dt, reg),
            Entity::Block(b) => b.can_update(dt, reg),
        }
    }

    open spec fn updated(&self, keys: Set<KeyCode>, dt: u32) -> Entity {
        match *self {
            Entity::Paddle(p) => Entity::Paddle(p.updated(keys, dt)),
            Entity::Ball(b) => Entity::Ball(b.updated(keys, dt)),
            Entity::Block(b) => Entity::Block(b.updated(keys, dt)),
        }
    }

    open spec fn update_audio(&self, reg: RegView) -> Seq<SoundCommand> {
        match *self {
            Entity::Paddle(p) => p.update_audio(reg),
            Entity::Ball(b) => b.update_audio(reg),
            Entity::Block(b) => b.update_audio(reg),
        }
    }

    open spec fn sprite_key(&self) -> Option<int> {
        match *self {
            Entity::Paddle(p) => p.sprite_key(),
            Entity::Ball(b) => b.sprite_key(),
            Entity::Block(b) => b.sprite_key(),
        }
    }

    open spec fn with_sprite(&self, idx: i32) -> Entity {
        match *self {
            Entity::Paddle(p) => Entity::Paddle(p.with_sprite(idx)),
            Entity::Ball(b) => Entity::Ball(b.with_sprite(idx)),
            Entity::Block(b) => Entity::Block(b.with_sprite(idx)),
        }
    }

    fn update(&mut self, keys: &KeySet, reg: &mut Reg, dt: u32) {
        match *self {
            Entity::Paddle(mut p) => {
                p.update(keys, reg, dt);
                *self = Entity::Paddle(p);
            },
            Entity::Ball(mut b) => {
                b.update(keys, reg, dt);
                *self = Entity::Ball(b);
            },
            Entity::Block(mut b) => {
                b.update(keys, reg, dt);
                *self = Entity::Block(b);
            },
        }
    }

    fn draw(&mut self, reg: &Reg, canvas: &mut Canvas) {
        match *self {
            Entity::Paddle(mut p) => p.draw(reg, canvas),
            Entity::Ball(mut b) => b.draw(reg, canvas),
            Entity::Block(mut b) => b.draw(reg, canvas),
        }
    }

    fn set_sprite(&mut self, idx: i32) {
        match *self {
            Entity::Paddle(mut p) => {
                p.set_sprite(idx);
                *self = Entity::Paddle(p);
            },
            Entity::Ball(mut b) => {
                b.set_sprite(idx);
                *self = Entity::Ball(b);
            },
            Entity::Block(mut b) => {
                b.set_sprite(idx);
                *self = Entity::Block(b);
            },
        }
    }

    fn get_xywh(&self) -> (i32, i32, i32, i32) {
        match self {
            Entity::Paddle(p) => p.get_xywh(),
            Entity::Ball(b) => b.get_xywh(),
            Entity::Block(b) => b.get_xywh(),
        }
    }
}

/// No entity changes its width or its height by moving or by a change of
/// its sprite.
pub proof fn lemma_entities_keep_their_size(entity: Entity, keys: Set<KeyCode>, dt: u32, idx: i32)
    ensures
        entity.updated(keys, dt).bounds().2 == entity.bounds().2,
        entity.updated(keys, dt).bounds().3 == entity.bounds().3,
        entity.with_sprite(idx).bounds() == entity.bounds(),
{
}

} // verus!

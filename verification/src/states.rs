//! The game states (menu, play, pause) and the sound requests they share.

use crate::audio::{SoundCommand, SoundOp, Source};
use crate::game::{INITIAL_HEALTH, VIRTUAL_HEIGHT, VIRTUAL_WIDTH};
use crate::graphics::{black, green, highlight, white, Canvas, Color, DrawOp, Font, Quad, Sheet, Text};
use crate::key::{after_press, after_release, press_counts, KeyCode, KeySet};
use crate::level_maker::{create_map, wall};
use crate::objects::{
    collide_aabb, collide_flags, global_heart, global_sprite, has_flag, init_global_sprite, overlay,
    sprite_ops, Ball, Block, CollideFlag, Object, Paddle, BALL_FLAG, BLOCK_FLAG, BLUE, GREEN, HEARTS_FLAG,
    HUGE, LARGE, MAGENTA, MEDIUM, PADDLE_FLAG, RED, SMALL,
};
use crate::reg::{Reg, RegView};
use vstd::prelude::*;

verus! {

/// Queues a single-shot start of the sound `name`.
pub fn play_sound_once(name: &String, reg: &mut Reg)
    requires
        old(reg)@.sounds.contains_key(name@),
    ensures
        final(reg)@ == old(reg)@.queued(SoundOp::PlayOnce, old(reg)@.sounds[name@]),
{
    let source = *reg.sounds.get(name.as_str()).unwrap();
    reg.audio.push(SoundCommand { op: SoundOp::PlayOnce, source });
}

/// Queues a start of the sound `name`.
pub fn play_sound(name: &String, reg: &mut Reg)
    requires
        old(reg)@.sounds.contains_key(name@),
    ensures
        final(reg)@ == old(reg)@.queued(SoundOp::Play, old(reg)@.sounds[name@]),
{
    let source = *reg.sounds.get(name.as_str()).unwrap();
    reg.audio.push(SoundCommand { op: SoundOp::Play, source });
}

/// Queues a looping start of the sound `name`.
pub fn play_bgm(name: &String, reg: &mut Reg)
    requires
        old(reg)@.sounds.contains_key(name@),
    ensures
        final(reg)@ == old(reg)@.queued(SoundOp::PlayBgm, old(reg)@.sounds[name@]),
{
    let source = *reg.sounds.get(name.as_str()).unwrap();
    reg.audio.push(SoundCommand { op: SoundOp::PlayBgm, source });
}

/// Queues a stop of the sound `name`.
pub fn stop_sound(name: &String, reg: &mut Reg)
    requires
        old(reg)@.sounds.contains_key(name@),
    ensures
        final(reg)@ == old(reg)@.queued(SoundOp::Stop, old(reg)@.sounds[name@]),
{
    let source = *reg.sounds.get(name.as_str()).unwrap();
    reg.audio.push(SoundCommand { op: SoundOp::Stop, source });
}

/// The handles the menu needs, loaded by the host.
#[derive(Clone, Copy, Debug, PartialEq, Eq, Structural)]
pub struct MenuAssets {
    pub font: Font,
    pub title: Text,
    pub start_menu: Text,
    pub exit_menu: Text,
    pub music: Source,
}

/// The entry of the menu under the cursor.
#[derive(Clone, Copy, Debug, PartialEq, Eq, Structural)]
pub enum InitStateMenu {
    Start,
    Exit,
}

/// The menu the game opens with.
#[derive(Clone, Copy, Debug, PartialEq, Eq, Structural)]
pub struct InitState {
    pub status: InitStateMenu,
    pub play_assets: PlayAssets,
}

/// A screen that waits until the game goes on.
#[derive(Clone, Copy, Debug, PartialEq, Eq, Structural)]
pub struct PauseState {}

/// Any state of the game.
#[derive(Debug)]
pub enum GameState {
    Init(InitState),
    Play(PlayState),
    Pause(PauseState),
}

/// What a state of the game holds.
pub enum GameView {
    Init(InitState),
    Play(PlayView),
    Pause(PauseState),
}

/// What a state asks of the stack it is on.
#[derive(Debug)]
pub enum StateResult {
    /// Put a state on top of this one.
    PushState(GameState),
    /// Take this state off.
    PopState,
    /// Put a state in the place of this one.
    Trans(GameState),
    /// Leave the stack as it is.
    Void,
}

/// What a state asks of the stack, over what the states hold.
pub enum ResultView {
    PushState(GameView),
    PopState,
    Trans(GameView),
    Void,
}

impl View for InitState {
    type V = InitState;

    open spec fn view(&self) -> InitState {
        *self
    }
}

impl View for PauseState {
    type V = PauseState;

    open spec fn view(&self) -> PauseState {
        *self
    }
}

impl View for GameState {
    type V = GameView;

    open spec fn view(&self) -> GameView {
        match self {
            GameState::Init(s) => GameView::Init(*s),
            GameState::Play(s) => GameView::Play(s@),
            GameState::Pause(s) => GameView::Pause(*s),
        }
    }
}

impl View for StateResult {
    type V = ResultView;

    open spec fn view(&self) -> ResultView {
        match self {
            StateResult::PushState(s) => ResultView::PushState(s@),
            StateResult::PopState => ResultView::PopState,
            StateResult::Trans(s) => ResultView::Trans(s@),
            StateResult::Void => ResultView::Void,
        }
    }
}

/// What every state of the game can do. Only the state on top of the stack
/// is updated and rendered.
pub trait States: Sized + View {
    /// Whether a frame can be taken: what it looks up is registered and
    /// what it computes can be represented.
    spec fn can_update(&self, keys: Set<KeyCode>, dt: u32, reg: RegView) -> bool;

    /// Whether a frame of `dt` milliseconds with `keys` down may lead from
    /// this state and the registry `reg` to the state `next`, the registry
    /// `reg_next` and the request `result`.
    spec fn updates_to(
        &self,
        keys: Set<KeyCode>,
        dt: u32,
        reg: RegView,
        next: Self::V,
        reg_next: RegView,
        result: ResultView,
    ) -> bool;

    /// Whether the state can be drawn: the sprites and texts it shows are
    /// registered and their places can be represented.
    spec fn can_render(&self, reg: RegView) -> bool;

    /// The drawing steps of one frame.
    spec fn frame(&self, reg: RegView) -> Seq<DrawOp>;

    /// Takes one frame of `dt` milliseconds with `keys` down.
    fn update(&mut self, keys: &KeySet, reg: &mut Reg, dt: u32) -> (result: StateResult)
        requires
            old(self).can_update(keys@, dt, old(reg)@),
        ensures
            old(self).updates_to(keys@, dt, old(reg)@, final(self)@, final(reg)@, result@),
    ;

    /// Draws the state on `buffer`, which is bound for the time of the
    /// drawing and given back at the end.
    fn render(&mut self, reg: &mut Reg, buffer: &mut Canvas) -> (result: StateResult)
        requires
            old(self).can_render(old(reg)@),
        ensures
            result@ == ResultView::Void,
            final(self)@ == old(self)@,
            final(reg)@ == old(reg)@,
            final(buffer)@ == old(buffer)@ + old(self).frame(old(reg)@),
            !final(buffer).is_bound(),
    ;
}

/// Height of the title on the menu.
pub const TITLE_Y: i32 = 24;

/// Height of the first menu entry.
pub const START_Y: i32 = 408;

/// Height of the second menu entry.
pub const EXIT_Y: i32 = 456;

/// Left edge of something `span` wide that is centred on the playfield.
pub open spec fn centered(span: i32) -> int {
    if span <= VIRTUAL_WIDTH {
        (VIRTUAL_WIDTH - span) / 2
    } else {
        -((span - VIRTUAL_WIDTH) / 2)
    }
}

/// Left edge of something `span` wide that is centred on the playfield.
pub fn center(span: i32) -> (x: i32)
    ensures
        x == centered(span),
{
    if span <= VIRTUAL_WIDTH {
        ((VIRTUAL_WIDTH as i64 - span as i64) / 2) as i32
    } else {
        (-((span as i64 - VIRTUAL_WIDTH as i64) / 2)) as i32
    }
}

/// Whether the menu cursor moves: `Up` or `Down` is down and has not
/// counted yet.
pub open spec fn menu_moves(latched: Set<KeyCode>, keys: Set<KeyCode>) -> bool {
    keys.contains(KeyCode::Up) && press_counts(latched, KeyCode::Up) || keys.contains(KeyCode::Down)
        && press_counts(latched, KeyCode::Down)
}

/// The key latch after the menu looked at `Up` and `Down`: a key that is up
/// is released, and a key that is down is latched, `Down` only if `Up` did
/// not already move the cursor.
pub open spec fn menu_latch(latched: Set<KeyCode>, keys: Set<KeyCode>) -> Set<KeyCode> {
    let up = if keys.contains(KeyCode::Up) {
        after_press(latched, KeyCode::Up)
    } else {
        after_release(latched, KeyCode::Up)
    };
    if !keys.contains(KeyCode::Down) {
        after_release(up, KeyCode::Down)
    } else if keys.contains(KeyCode::Up) && press_counts(latched, KeyCode::Up) {
        up
    } else {
        after_press(up, KeyCode::Down)
    }
}

/// The other entry of the menu.
pub open spec fn toggled(status: InitStateMenu) -> InitStateMenu {
    match status {
        InitStateMenu::Start => InitStateMenu::Exit,
        InitStateMenu::Exit => InitStateMenu::Start,
    }
}

/// The registry `base` once the menu has entered: its font, its texts, its
/// music and every sprite are registered.
pub open spec fn menu_registry(base: RegView, assets: MenuAssets) -> RegView {
    RegView {
        fonts: base.fonts.insert("font"@, assets.font),
        texts: base.texts.insert("title"@, assets.title).insert("start_menu"@, assets.start_menu).insert(
            "exit_menu"@,
            assets.exit_menu,
        ),
        sounds: base.sounds.insert("music"@, assets.music),
        sprites: overlay(base.sprites, |k: i32| global_sprite(k)),
        hearts: overlay(base.hearts, |k: i32| global_heart(k)),
        ..base
    }
}

/// The registry after the menu looked at the keys: the music is asked to
/// play and the latch has moved on.
pub open spec fn menu_polled(reg: RegView, keys: Set<KeyCode>) -> RegView {
    RegView {
        audio: reg.audio.push(SoundCommand { op: SoundOp::Play, source: reg.sounds["music"@] }),
        latched: menu_latch(reg.latched, keys),
        ..reg
    }
}

/// The registry with its fonts, images, sounds and texts forgotten.
pub open spec fn menu_left(reg: RegView) -> RegView {
    RegView { fonts: Map::empty(), images: Map::empty(), sounds: Map::empty(), texts: Map::empty(), ..reg }
}

/// The handles a game in play needs, loaded by the host.
#[derive(Clone, Copy, Debug, PartialEq, Eq, Structural)]
pub struct PlayAssets {
    pub default_font: Font,
    pub pause_message: Text,
    pub music: Source,
    pub paddle_hit: Source,
    pub score: Source,
    pub wall_hit: Source,
    pub brick_hit_1: Source,
    pub brick_hit_2: Source,
    pub hurt: Source,
    pub victory: Source,
    pub recover: Source,
    pub high_score: Source,
    pub pause: Source,
}

/// The sounds of play under their names, on top of `base`.
pub open spec fn play_sounds(base: Map<Seq<char>, Source>, assets: PlayAssets) -> Map<Seq<char>, Source> {
    base.insert("music"@, assets.music).insert("paddle-hit"@, assets.paddle_hit).insert(
        "score"@,
        assets.score,
    ).insert("wall-hit"@, assets.wall_hit).insert("brick-hit-1"@, assets.brick_hit_1).insert(
        "brick-hit-2"@,
        assets.brick_hit_2,
    ).insert("hurt"@, assets.hurt).insert("victory"@, assets.victory).insert(
        "recover"@,
        assets.recover,
    ).insert("high-score"@, assets.high_score).insert("pause"@, assets.pause)
}

/// The registry `base` once a game in play has entered: its font, its
/// sounds, its text and its counters are registered and the music is asked
/// to loop.
pub open spec fn play_registry(base: RegView, assets: PlayAssets) -> RegView {
    RegView {
        fonts: base.fonts.insert("default"@, assets.default_font),
        texts: base.texts.insert("pause"@, assets.pause_message),
        sounds: play_sounds(base.sounds, assets),
        i32_values: base.i32_values.insert("score"@, 0).insert("health"@, INITIAL_HEALTH),
        audio: base.audio.push(SoundCommand { op: SoundOp::PlayBgm, source: assets.music }),
        ..base
    }
}

/// The names under which play registers its sounds are all different.
pub proof fn lemma_sound_names_differ()
    ensures
        "music"@ != "pause"@,
        "music"@ != "paddle-hit"@,
        "music"@ != "score"@,
        "music"@ != "wall-hit"@,
        "music"@ != "brick-hit-1"@,
        "music"@ != "brick-hit-2"@,
        "music"@ != "hurt"@,
        "music"@ != "victory"@,
        "music"@ != "recover"@,
        "music"@ != "high-score"@,
        "pause"@ != "paddle-hit"@,
        "pause"@ != "wall-hit"@,
        "pause"@ != "brick-hit-2"@,
        "paddle-hit"@ != "score"@,
        "paddle-hit"@ != "wall-hit"@,
        "paddle-hit"@ != "brick-hit-1"@,
        "paddle-hit"@ != "brick-hit-2"@,
        "paddle-hit"@ != "hurt"@,
        "paddle-hit"@ != "victory"@,
        "paddle-hit"@ != "recover"@,
        "paddle-hit"@ != "high-score"@,
        "wall-hit"@ != "brick-hit-1"@,
        "wall-hit"@ != "brick-hit-2"@,
        "wall-hit"@ != "hurt"@,
        "wall-hit"@ != "victory"@,
        "wall-hit"@ != "recover"@,
        "wall-hit"@ != "high-score"@,
        "brick-hit-2"@ != "hurt"@,
        "brick-hit-2"@ != "victory"@,
        "brick-hit-2"@ != "recover"@,
        "brick-hit-2"@ != "high-score"@,
{
    reveal_strlit("music");
    reveal_strlit("pause");
    reveal_strlit("paddle-hit");
    reveal_strlit("score");
    reveal_strlit("wall-hit");
    reveal_strlit("brick-hit-1");
    reveal_strlit("brick-hit-2");
    reveal_strlit("hurt");
    reveal_strlit("victory");
    reveal_strlit("recover");
    reveal_strlit("high-score");
    assert("music"@.len() == 5 && "pause"@.len() == 5 && "score"@.len() == 5);
    assert("paddle-hit"@.len() == 10 && "high-score"@.len() == 10);
    assert("wall-hit"@.len() == 8);
    assert("brick-hit-1"@.len() == 11 && "brick-hit-2"@.len() == 11);
    assert("hurt"@.len() == 4);
    assert("victory"@.len() == 7 && "recover"@.len() == 7);
    assert("music"@[0] != "pause"@[0]);
    assert("music"@[0] != "score"@[0]);
    assert("paddle-hit"@[0] != "high-score"@[0]);
}

/// After play has entered, each sound that play asks for is found under
/// its name.
pub proof fn lemma_play_sounds_found(base: Map<Seq<char>, Source>, assets: PlayAssets)
    ensures
        play_sounds(base, assets).contains_key("music"@),
        play_sounds(base, assets)["music"@] == assets.music,
        play_sounds(base, assets).contains_key("pause"@),
        play_sounds(base, assets)["pause"@] == assets.pause,
        play_sounds(base, assets).contains_key("wall-hit"@),
        play_sounds(base, assets)["wall-hit"@] == assets.wall_hit,
        play_sounds(base, assets).contains_key("paddle-hit"@),
        play_sounds(base, assets)["paddle-hit"@] == assets.paddle_hit,
        play_sounds(base, assets).contains_key("brick-hit-2"@),
        play_sounds(base, assets)["brick-hit-2"@] == assets.brick_hit_2,
{
    lemma_sound_names_differ();
}

/// A game in play.
#[derive(Debug)]
pub struct PlayState {
    pub paused: bool,
    pub paddle: Paddle,
    pub ball: Ball,
    pub blocks: Vec<Block>,
    pub score: i32,
    pub health: i32,
    pub level: i32,
}

/// What a game in play holds.
pub struct PlayView {
    pub paused: bool,
    pub paddle: Paddle,
    pub ball: Ball,
    pub blocks: Seq<Block>,
    pub score: i32,
    pub health: i32,
    pub level: i32,
}

impl View for PlayState {
    type V = PlayView;

    open spec fn view(&self) -> PlayView {
        PlayView {
            paused: self.paused,
            paddle: self.paddle,
            ball: self.ball,
            blocks: self.blocks@,
            score: self.score,
            health: self.health,
            level: self.level,
        }
    }
}

impl PlayView {
    /// The first level at its start, with the wall `blocks`.
    pub open spec fn fresh(blocks: Seq<Block>) -> PlayView {
        PlayView {
            paused: false,
            paddle: Paddle {
                size: MEDIUM,
                color: MAGENTA,
                x: 160,
                y: 448,
                part_x: 0,
                width: 64,
                height: 16,
                dx: 0,
            },
            ball: Ball {
                color: MAGENTA,
                x: 160,
                y: 440,
                part_x: 0,
                part_y: 0,
                width: 8,
                height: 8,
                dx: 0,
                dy: 0,
            },
            blocks,
            score: 0,
            health: INITIAL_HEALTH,
            level: 1,
        }
    }

    /// Whether this is the first level at its start with a wall that the
    /// level maker can draw.
    pub open spec fn is_fresh(self) -> bool {
        exists|rows: int, cols: int| 1 <= rows < 5 && 7 <= cols < 13 && self == PlayView::fresh(wall(rows, cols))
    }
}

/// Paddle colour asked for by the digit keys 1 to 4, or 0.
pub open spec fn color_choice(keys: Set<KeyCode>) -> i32 {
    if keys.contains(KeyCode::Key1) {
        BLUE
    } else if keys.contains(KeyCode::Key2) {
        RED
    } else if keys.contains(KeyCode::Key3) {
        GREEN
    } else if keys.contains(KeyCode::Key4) {
        MAGENTA
    } else {
        0
    }
}

/// Paddle size asked for by the digit keys 5 to 8, or 0.
pub open spec fn size_choice(keys: Set<KeyCode>) -> i32 {
    if keys.contains(KeyCode::Key5) {
        SMALL
    } else if keys.contains(KeyCode::Key6) {
        MEDIUM
    } else if keys.contains(KeyCode::Key7) {
        LARGE
    } else if keys.contains(KeyCode::Key8) {
        HUGE
    } else {
        0
    }
}

/// The paddle after one frame: restyled if a digit key asks for it, then
/// moved.
pub open spec fn steered(paddle: Paddle, keys: Set<KeyCode>, dt: u32) -> Paddle {
    let styled = if color_choice(keys) != 0 || size_choice(keys) != 0 {
        paddle.with_sprite((PADDLE_FLAG + color_choice(keys) + size_choice(keys)) as i32)
    } else {
        paddle
    };
    styled.updated(keys, dt)
}

/// Whether the ball has fallen below the playfield.
pub open spec fn fell(ball: Ball) -> bool {
    ball.below_floor()
}

/// The ball back on its spawn point, at rest.
pub open spec fn respawned(ball: Ball) -> Ball {
    Ball { x: 160, y: 440, part_x: 0, part_y: 0, dx: 0, dy: 0, ..ball }
}

/// Whether the paddle reports the ball on its top side.
pub open spec fn paddle_strikes(paddle: Paddle, ball: Ball) -> bool {
    collide_flags(paddle.bounds(), ball.bounds()).contains(CollideFlag::TOP)
}

/// The ball after the paddle was looked at.
pub open spec fn off_paddle(paddle: Paddle, ball: Ball) -> Ball {
    if paddle_strikes(paddle, ball) {
        Ball { dy: (-ball.dy) as i32, ..ball }
    } else {
        ball
    }
}

/// Whether the ball strikes `block`: the block is in play and the collision
/// rule reports a side.
pub open spec fn block_struck(ball: Ball, block: Block) -> bool {
    block.inplay && collide_flags(ball.bounds(), block.bounds()).len() > 0
}

/// The ball after it struck `block`: it turns round vertically if the top
/// is reported while it rises or the bottom while it falls, and, on its
/// own, horizontally if the left is reported while it moves left or the
/// right while it moves right.
pub open spec fn deflected(ball: Ball, block: Block) -> Ball {
    let sides = collide_flags(ball.bounds(), block.bounds());
    Ball {
        dy: if sides.contains(CollideFlag::TOP) && ball.dy < 0 || sides.contains(CollideFlag::BOTTOM)
            && ball.dy > 0 {
            (-ball.dy) as i32
        } else {
            ball.dy
        },
        dx: if sides.contains(CollideFlag::LEFT) && ball.dx < 0 || sides.contains(CollideFlag::RIGHT)
            && ball.dx > 0 {
            (-ball.dx) as i32
        } else {
            ball.dx
        },
        ..ball
    }
}

/// The ball after it met the blocks one after the other.
pub open spec fn ball_through(ball: Ball, blocks: Seq<Block>) -> Ball
    decreases blocks.len(),
{
    if blocks.len() == 0 {
        ball
    } else {
        let before = ball_through(ball, blocks.drop_last());
        if block_struck(before, blocks.last()) {
            deflected(before, blocks.last())
        } else {
            before
        }
    }
}

/// The blocks after the ball met them: every block it struck is out of
/// play, and nothing else has changed.
pub open spec fn blocks_after(ball: Ball, blocks: Seq<Block>) -> Seq<Block> {
    Seq::new(
        blocks.len(),
        |i: int|
            if block_struck(ball, blocks[i]) {
                Block { inplay: false, ..blocks[i] }
            } else {
                blocks[i]
            },
    )
}

/// One start of `brick` for each block the ball struck.
pub open spec fn brick_audio(ball: Ball, blocks: Seq<Block>, brick: Source) -> Seq<SoundCommand>
    decreases blocks.len(),
{
    if blocks.len() == 0 {
        Seq::empty()
    } else {
        brick_audio(ball, blocks.drop_last(), brick) + (if block_struck(ball, blocks.last()) {
            seq![SoundCommand { op: SoundOp::Play, source: brick }]
        } else {
            Seq::empty()
        })
    }
}

/// The ball keeps its place and its size while it meets the blocks.
pub proof fn lemma_ball_through_keeps_bounds(ball: Ball, blocks: Seq<Block>)
    ensures
        ball_through(ball, blocks).bounds() == ball.bounds(),
        ball_through(ball, blocks).color == ball.color,
        ball.dx > i32::MIN ==> ball_through(ball, blocks).dx > i32::MIN,
        ball.dy > i32::MIN ==> ball_through(ball, blocks).dy > i32::MIN,
    decreases blocks.len(),
{
    if blocks.len() > 0 {
        lemma_ball_through_keeps_bounds(ball, blocks.drop_last());
    }
}

impl PlayView {
    /// The ball after it moved, and was put back if it fell.
    pub open spec fn ball_moved(self, keys: Set<KeyCode>, dt: u32) -> Ball {
        if fell(self.ball.updated(keys, dt)) {
            respawned(self.ball.updated(keys, dt))
        } else {
            self.ball.updated(keys, dt)
        }
    }

    /// The ball as it reaches the blocks: moved, and turned by the paddle.
    pub open spec fn ball_served(self, keys: Set<KeyCode>, dt: u32) -> Ball {
        off_paddle(steered(self.paddle, keys, dt), self.ball_moved(keys, dt))
    }

    /// One frame of a running game.
    pub open spec fn ran(self, keys: Set<KeyCode>, dt: u32) -> PlayView {
        PlayView {
            paused: keys.contains(KeyCode::P),
            paddle: steered(self.paddle, keys, dt),
            ball: ball_through(self.ball_served(keys, dt), self.blocks),
            blocks: blocks_after(self.ball_served(keys, dt), self.blocks),
            health: if fell(self.ball.updated(keys, dt)) {
                (self.health - 1) as i32
            } else {
                self.health
            },
            ..self
        }
    }

    /// One frame: `X` leaves the game as it is, a running game runs, and a
    /// paused one waits for `Return`.
    pub open spec fn stepped(self, keys: Set<KeyCode>, dt: u32) -> PlayView {
        if keys.contains(KeyCode::X) {
            self
        } else if !self.paused {
            self.ran(keys, dt)
        } else {
            PlayView { paused: !keys.contains(KeyCode::Return), ..self }
        }
    }

    /// The sound commands of one frame of a running game, in order: the
    /// pause jingle in place of the music, the walls, the paddle, the
    /// bricks.
    pub open spec fn ran_audio(self, keys: Set<KeyCode>, dt: u32, sounds: Map<Seq<char>, Source>) -> Seq<
        SoundCommand,
    > {
        (if keys.contains(KeyCode::P) {
            seq![
                SoundCommand { op: SoundOp::Stop, source: sounds["music"@] },
                SoundCommand { op: SoundOp::PlayOnce, source: sounds["pause"@] },
            ]
        } else {
            Seq::empty()
        }) + (if self.ball.off_sides() {
            seq![SoundCommand { op: SoundOp::PlayOnce, source: sounds["wall-hit"@] }]
        } else {
            Seq::empty()
        }) + (if self.ball.off_ends() {
            seq![SoundCommand { op: SoundOp::PlayOnce, source: sounds["wall-hit"@] }]
        } else {
            Seq::empty()
        }) + (if paddle_strikes(steered(self.paddle, keys, dt), self.ball_moved(keys, dt)) {
            seq![SoundCommand { op: SoundOp::PlayOnce, source: sounds["paddle-hit"@] }]
        } else {
            Seq::empty()
        }) + brick_audio(self.ball_served(keys, dt), self.blocks, sounds["brick-hit-2"@])
    }

    /// The sound commands of one frame.
    pub open spec fn stepped_audio(self, keys: Set<KeyCode>, dt: u32, sounds: Map<Seq<char>, Source>) -> Seq<
        SoundCommand,
    > {
        if keys.contains(KeyCode::X) {
            Seq::empty()
        } else if !self.paused {
            self.ran_audio(keys, dt, sounds)
        } else if keys.contains(KeyCode::Return) {
            seq![SoundCommand { op: SoundOp::PlayBgm, source: sounds["music"@] }]
        } else {
            Seq::empty()
        }
    }

    /// The registry after one frame: `X` forgets the fonts, anything else
    /// only queues sound commands.
    pub open spec fn stepped_registry(self, keys: Set<KeyCode>, dt: u32, reg: RegView) -> RegView {
        if keys.contains(KeyCode::X) {
            RegView { fonts: Map::empty(), ..reg }
        } else {
            RegView { audio: reg.audio + self.stepped_audio(keys, dt, reg.sounds), ..reg }
        }
    }

    /// Whether one frame can be taken: every sound it asks for is
    /// registered, and the ball's next place and the next health can be
    /// represented.
    pub open spec fn can_step(self, keys: Set<KeyCode>, dt: u32, reg: RegView) -> bool {
        if keys.contains(KeyCode::X) {
            true
        } else if self.paused {
            keys.contains(KeyCode::Return) ==> reg.sounds.contains_key("music"@)
        } else {
            &&& keys.contains(KeyCode::P) ==> reg.sounds.contains_key("music"@) && reg.sounds.contains_key(
                "pause"@,
            )
            &&& self.ball.dx > i32::MIN
            &&& self.ball.dy > i32::MIN
            &&& self.ball.can_update(dt, reg)
            &&& fell(self.ball.updated(keys, dt)) ==> self.health > i32::MIN
            &&& paddle_strikes(steered(self.paddle, keys, dt), self.ball_moved(keys, dt))
                ==> reg.sounds.contains_key("paddle-hit"@)
            &&& brick_audio(self.ball_served(keys, dt), self.blocks, reg.sounds["brick-hit-2"@]).len() > 0
                ==> reg.sounds.contains_key("brick-hit-2"@)
        }
    }
}

impl PlayState {
    /// Enters play on the first level with a wall of random size, and
    /// registers what play needs.
    pub fn new(reg: &mut Reg, assets: &PlayAssets) -> (state: PlayState)
        ensures
            state@.is_fresh(),
            final(reg)@ == play_registry(old(reg)@, *assets),
    {
        let blocks = create_map(1);
        PlayState::with_blocks(reg, assets, blocks)
    }

    /// Enters play on the first level with the wall `blocks`, and registers
    /// what play needs.
    pub fn with_blocks(reg: &mut Reg, assets: &PlayAssets, blocks: Vec<Block>) -> (state: PlayState)
        ensures
            state@ == PlayView::fresh(blocks@),
            final(reg)@ == play_registry(old(reg)@, *assets),
    {
        reg.add_font("default".to_owned(), assets.default_font);
        reg.add_text("pause".to_owned(), assets.pause_message);

        let paddle = Paddle::new();
        let ball = Ball::new();

        // Music
        reg.add_sound("music".to_owned(), assets.music);

        // Effects
        reg.add_sound("paddle-hit".to_owned(), assets.paddle_hit);
        reg.add_sound("score".to_owned(), assets.score);
        reg.add_sound("wall-hit".to_owned(), assets.wall_hit);
        reg.add_sound("brick-hit-1".to_owned(), assets.brick_hit_1);
        reg.add_sound("brick-hit-2".to_owned(), assets.brick_hit_2);
        reg.add_sound("hurt".to_owned(), assets.hurt);
        reg.add_sound("victory".to_owned(), assets.victory);
        reg.add_sound("recover".to_owned(), assets.recover);
        reg.add_sound("high-score".to_owned(), assets.high_score);
        reg.add_sound("pause".to_owned(), assets.pause);

        proof {
            lemma_play_sounds_found(old(reg)@.sounds, *assets);
        }
        play_bgm(&"music".to_owned(), reg);

        reg.add_i32("score".to_owned(), 0);
        reg.add_i32("health".to_owned(), INITIAL_HEALTH);

        PlayState { paused: false, paddle, ball, blocks, health: INITIAL_HEALTH, level: 1, score: 0 }
    }
}

/// Paddle colour asked for by the digit keys 1 to 4, or 0.
fn digit_color(keys: &KeySet) -> (color: i32)
    ensures
        color == color_choice(keys@),
{
    if keys.contains(KeyCode::Key1) {
        BLUE
    } else if keys.contains(KeyCode::Key2) {
        RED
    } else if keys.contains(KeyCode::Key3) {
        GREEN
    } else if keys.contains(KeyCode::Key4) {
        MAGENTA
    } else {
        0
    }
}

/// Paddle size asked for by the digit keys 5 to 8, or 0.
fn digit_size(keys: &KeySet) -> (size: i32)
    ensures
        size == size_choice(keys@),
{
    if keys.contains(KeyCode::Key5) {
        SMALL
    } else if keys.contains(KeyCode::Key6) {
        MEDIUM
    } else if keys.contains(KeyCode::Key7) {
        LARGE
    } else if keys.contains(KeyCode::Key8) {
        HUGE
    } else {
        0
    }
}

/// Lets the ball meet the blocks one after the other: each block in play
/// that it strikes goes out of play, queues the brick sound and may turn
/// the ball round.
pub fn strike_blocks(ball: &mut Ball, blocks: &mut Vec<Block>, reg: &mut Reg)
    requires
        old(ball).dx > i32::MIN,
        old(ball).dy > i32::MIN,
        brick_audio(*old(ball), old(blocks)@, old(reg)@.sounds["brick-hit-2"@]).len() > 0 ==> old(
            reg,
        )@.sounds.contains_key("brick-hit-2"@),
    ensures
        *final(ball) == ball_through(*old(ball), old(blocks)@),
        final(blocks)@ == blocks_after(*old(ball), old(blocks)@),
        final(reg)@ == (RegView {
            audio: old(reg)@.audio + brick_audio(
                *old(ball),
                old(blocks)@,
                old(reg)@.sounds["brick-hit-2"@],
            ),
            ..old(reg)@
        }),
{
    let ghost served = *ball;
    let ghost wall = blocks@;
    let ghost brick = reg@.sounds["brick-hit-2"@];
    let mut i: usize = 0;
    assert(reg@.audio =~= old(reg)@.audio + brick_audio(served, wall.take(0), brick));
    while i < blocks.len()
        invariant
            i <= wall.len(),
            blocks@.len() == wall.len(),
            forall|j: int| 0 <= j < i ==> blocks@[j] == blocks_after(served, wall)[j],
            forall|j: int| i <= j < wall.len() ==> blocks@[j] == wall[j],
            *ball == ball_through(served, wall.take(i as int)),
            served.dx > i32::MIN,
            served.dy > i32::MIN,
            reg@ == (RegView {
                audio: old(reg)@.audio + brick_audio(served, wall.take(i as int), brick),
                ..old(reg)@
            }),
            brick == old(reg)@.sounds["brick-hit-2"@],
            brick_audio(served, wall, brick).len() > 0 ==> old(reg)@.sounds.contains_key("brick-hit-2"@),
        decreases wall.len() - i,
    {
        proof {
            lemma_ball_through_keeps_bounds(served, wall.take(i as int));
            assert(wall.take(i + 1).drop_last() =~= wall.take(i as int));
            assert(wall.take(i + 1).last() == wall[i as int]);
            lemma_brick_audio_grows(served, wall, i as int, brick);
        }
        let ghost before = *ball;
        let mut block = blocks[i];
        if block.inplay {
            let collide = collide_aabb(ball, &block);
            if collide.len() > 0 {
                block.hit(reg);
                blocks.set(i, block);

                // Top or bottom of the ball
                let up = has_flag(&collide, CollideFlag::TOP) && ball.dy < 0;
                let down = has_flag(&collide, CollideFlag::BOTTOM) && ball.dy > 0;
                // Left or right of the ball
                let left = has_flag(&collide, CollideFlag::LEFT) && ball.dx < 0;
                let right = has_flag(&collide, CollideFlag::RIGHT) && ball.dx > 0;
                if up || down {
                    ball.dy = -ball.dy;
                }
                if left || right {
                    ball.dx = -ball.dx;
                }
                assert(*ball == deflected(before, wall[i as int]));
            }
        }
        i = i + 1;
        assert(reg@.audio =~= old(reg)@.audio + brick_audio(served, wall.take(i as int), brick));
    }
    proof {
        assert(wall.take(wall.len() as int) =~= wall);
        assert(blocks@ =~= blocks_after(served, wall));
    }
}

/// Restyles the paddle if a digit key asks for it, then moves it.
fn steer(paddle: &mut Paddle, keys: &KeySet, reg: &mut Reg, dt: u32)
    ensures
        *final(paddle) == steered(*old(paddle), keys@, dt),
        final(reg)@ == old(reg)@,
{
    let color = digit_color(keys);
    let size = digit_size(keys);
    if color != 0 || size != 0 {
        paddle.set_sprite(PADDLE_FLAG + color + size);
    }
    paddle.update(keys, reg, dt);
    assert(final(reg)@.audio =~= old(reg)@.audio);
}

/// Turns the ball round if the paddle reports it on its top side, and
/// queues the paddle sound.
fn bounce_off_paddle(paddle: &Paddle, ball: &mut Ball, reg: &mut Reg)
    requires
        old(ball).dy > i32::MIN,
        paddle_strikes(*paddle, *old(ball)) ==> old(reg)@.sounds.contains_key("paddle-hit"@),
    ensures
        *final(ball) == off_paddle(*paddle, *old(ball)),
        final(reg)@ == (if paddle_strikes(*paddle, *old(ball)) {
            old(reg)@.queued(SoundOp::PlayOnce, old(reg)@.sounds["paddle-hit"@])
        } else {
            old(reg)@
        }),
{
    let collide = collide_aabb(paddle, ball);
    if has_flag(&collide, CollideFlag::TOP) {
        ball.dy = -ball.dy;
        play_sound_once(&"paddle-hit".to_owned(), reg);
    }
}

/// Queues the pause jingle in place of the music.
fn announce_pause(reg: &mut Reg)
    requires
        old(reg)@.sounds.contains_key("music"@),
        old(reg)@.sounds.contains_key("pause"@),
    ensures
        final(reg)@ == old(reg)@.queued(SoundOp::Stop, old(reg)@.sounds["music"@]).queued(
            SoundOp::PlayOnce,
            old(reg)@.sounds["pause"@],
        ),
{
    stop_sound(&"music".to_owned(), reg);
    play_sound_once(&"pause".to_owned(), reg);
}

impl PlayState {
    /// One frame of a running game: the paddle and the ball move, a fallen
    /// ball costs a life, and the ball bounces off the paddle and the
    /// blocks.
    pub fn run(&mut self, keys: &KeySet, reg: &mut Reg, dt: u32)
        requires
            !old(self).paused,
            !keys@.contains(KeyCode::X),
            old(self)@.can_step(keys@, dt, old(reg)@),
        ensures
            final(self)@ == old(self)@.ran(keys@, dt),
            final(reg)@ == (RegView {
                audio: old(reg)@.audio + old(self)@.ran_audio(keys@, dt, old(reg)@.sounds),
                ..old(reg)@
            }),
    {
        let ghost sounds = reg@.sounds;
        let ghost before = self@;
        if keys.contains(KeyCode::P) {
            self.paused = true;
            announce_pause(reg);
        }
        let ghost audio_1 = reg@.audio;
        // Paddle
        steer(&mut self.paddle, keys, reg, dt);

        // Ball
        self.ball.update(keys, reg, dt);
        let ghost audio_2 = reg@.audio;
        assert(audio_2 == audio_1 + before.ball.update_audio(old(reg)@));

        if self.ball.past_floor() {
            self.health = self.health - 1;
            self.ball.reset();
        }
        assert(self.ball == before.ball_moved(keys@, dt));
        // Paddle against ball
        bounce_off_paddle(&self.paddle, &mut self.ball, reg);
        let ghost audio_3 = reg@.audio;
        assert(self.ball == before.ball_served(keys@, dt));
        // Ball against blocks
        proof {
            lemma_ball_through_keeps_bounds(self.ball, self.blocks@);
        }
        strike_blocks(&mut self.ball, &mut self.blocks, reg);
        proof {
            let brick = brick_audio(before.ball_served(keys@, dt), before.blocks, sounds["brick-hit-2"@]);
            assert(reg@.audio == audio_3 + brick);
            assert(reg@.audio =~= old(reg)@.audio + before.ran_audio(keys@, dt, sounds));
        }
    }

    /// Plays one frame of `dt` milliseconds with `keys` down. `X` leaves
    /// play and forgets the fonts; otherwise a running game runs, and a
    /// paused one waits for `Return`, which starts the music again.
    pub fn step(&mut self, keys: &KeySet, reg: &mut Reg, dt: u32) -> (leave: bool)
        requires
            old(self)@.can_step(keys@, dt, old(reg)@),
        ensures
            leave == keys@.contains(KeyCode::X),
            final(self)@ == old(self)@.stepped(keys@, dt),
            final(reg)@ == old(self)@.stepped_registry(keys@, dt, old(reg)@),
    {
        if keys.contains(KeyCode::X) {
            reg.clear_font();
            true
        } else {
            if !self.paused {
                self.run(keys, reg, dt);
                false
            } else {
                if keys.contains(KeyCode::Return) {
                    self.paused = false;
                    play_bgm(&"music".to_owned(), reg);
                }
                assert(final(reg)@.audio =~= old(reg)@.audio + old(self)@.stepped_audio(
                    keys@,
                    dt,
                    old(reg)@.sounds,
                ));
                false
            }
        }
    }
}

/// Meeting one more block queues the brick sound once if the ball strikes
/// it, and nothing otherwise; and a strike among the first blocks is a
/// strike among all of them.
pub proof fn lemma_brick_audio_grows(ball: Ball, blocks: Seq<Block>, i: int, brick: Source)
    requires
        0 <= i < blocks.len(),
    ensures
        brick_audio(ball, blocks.take(i + 1), brick) == brick_audio(ball, blocks.take(i), brick) + (
        if block_struck(ball, blocks[i]) {
            seq![SoundCommand { op: SoundOp::Play, source: brick }]
        } else {
            Seq::empty()
        }),
        block_struck(ball, blocks[i]) ==> brick_audio(ball, blocks, brick).len() > 0,
{
    assert(blocks.take(i + 1).drop_last() =~= blocks.take(i));
    assert(blocks.take(i + 1).last() == blocks[i]);
    lemma_brick_audio_counts(ball, blocks, i, brick);
}

/// The brick sounds of the first `i` blocks are no more than those of all.
pub proof fn lemma_brick_audio_counts(ball: Ball, blocks: Seq<Block>, i: int, brick: Source)
    requires
        0 <= i < blocks.len(),
    ensures
        block_struck(ball, blocks[i]) ==> brick_audio(ball, blocks, brick).len() > 0,
    decreases blocks.len(),
{
    if i < blocks.len() - 1 {
        assert(blocks.drop_last()[i] == blocks[i]);
        lemma_brick_audio_counts(ball, blocks.drop_last(), i, brick);
    }
}

impl InitState {
    /// Enters the menu with the cursor on the first entry, and registers
    /// what the menu needs. `play_assets` is kept for the game that the
    /// menu may start.
    pub fn new(reg: &mut Reg, assets: &MenuAssets, play_assets: &PlayAssets) -> (state: InitState)
        ensures
            state == (InitState { status: InitStateMenu::Start, play_assets: *play_assets }),
            final(reg)@ == menu_registry(old(reg)@, *assets),
    {
        reg.add_font("font".to_owned(), assets.font);
        reg.add_text("title".to_owned(), assets.title);
        reg.add_text("start_menu".to_owned(), assets.start_menu);
        reg.add_text("exit_menu".to_owned(), assets.exit_menu);
        reg.add_sound("music".to_owned(), assets.music);

        init_global_sprite(reg);
        let state = InitState { status: InitStateMenu::Start, play_assets: *play_assets };

        state
    }

    /// Looks at `Up` and `Down`: releases the one that is up, and says
    /// whether one that is down counts as a new press.
    fn poll(keys: &KeySet, reg: &mut Reg) -> (moves: bool)
        ensures
            moves == menu_moves(old(reg)@.latched, keys@),
            final(reg)@ == (RegView { latched: menu_latch(old(reg)@.latched, keys@), ..old(reg)@ }),
    {
        if !keys.contains(KeyCode::Up) {
            reg.just_released(KeyCode::Up);
        }
        if !keys.contains(KeyCode::Down) {
            reg.just_released(KeyCode::Down);
        }
        let moves = keys.contains(KeyCode::Up) && reg.just_pressed(KeyCode::Up) || keys.contains(
            KeyCode::Down,
        ) && reg.just_pressed(KeyCode::Down);
        assert(final(reg)@.latched =~= menu_latch(old(reg)@.latched, keys@));
        moves
    }
}

impl States for InitState {
    open spec fn can_update(&self, keys: Set<KeyCode>, dt: u32, reg: RegView) -> bool {
        reg.sounds.contains_key("music"@)
    }

    open spec fn updates_to(
        &self,
        keys: Set<KeyCode>,
        dt: u32,
        reg: RegView,
        next: InitState,
        reg_next: RegView,
        result: ResultView,
    ) -> bool {
        if menu_moves(reg.latched, keys) {
            &&& next == (InitState { status: toggled(self.status), ..*self })
            &&& reg_next == menu_polled(reg, keys)
            &&& result == ResultView::Void
        } else if keys.contains(KeyCode::Return) {
            &&& next == *self
            &&& match self.status {
                InitStateMenu::Start => {
                    &&& reg_next == play_registry(menu_left(menu_polled(reg, keys)), self.play_assets)
                    &&& result matches ResultView::Trans(GameView::Play(play)) && play.is_fresh()
                },
                InitStateMenu::Exit => {
                    &&& reg_next == menu_left(menu_polled(reg, keys))
                    &&& result == ResultView::PopState
                },
            }
        } else {
            &&& next == *self
            &&& reg_next == menu_polled(reg, keys)
            &&& result == ResultView::Void
        }
    }

    open spec fn can_render(&self, reg: RegView) -> bool {
        &&& reg.texts.contains_key("title"@)
        &&& reg.texts.contains_key("start_menu"@)
        &&& reg.texts.contains_key("exit_menu"@)
    }

    open spec fn frame(&self, reg: RegView) -> Seq<DrawOp> {
        seq![
            DrawOp::Clear(black()),
            DrawOp::Label {
                text: reg.texts["title"@],
                x: centered(reg.texts["title"@].width) as i32,
                y: TITLE_Y,
                color: white(),
            },
            DrawOp::Label {
                text: reg.texts["start_menu"@],
                x: centered(reg.texts["start_menu"@].width) as i32,
                y: START_Y,
                color: if self.status == InitStateMenu::Start {
                    highlight()
                } else {
                    white()
                },
            },
            DrawOp::Label {
                text: reg.texts["exit_menu"@],
                x: centered(reg.texts["exit_menu"@].width) as i32,
                y: EXIT_Y,
                color: if self.status == InitStateMenu::Exit {
                    highlight()
                } else {
                    white()
                },
            },
            DrawOp::Present,
        ]
    }

    fn update(&mut self, keys: &KeySet, reg: &mut Reg, dt: u32) -> (result: StateResult) {
        // Keep the music going.
        play_sound(&"music".to_owned(), reg);

        // The arrows move the cursor.
        if InitState::poll(keys, reg) {
            if self.status == InitStateMenu::Exit {
                self.status = InitStateMenu::Start
            } else {
                self.status = InitStateMenu::Exit
            }

            StateResult::Void
        } else if keys.contains(KeyCode::Return) {
            reg.clear_font();
            reg.clear_image();
            reg.clear_sound();
            reg.clear_text();

            match self.status {
                InitStateMenu::Start => {
                    let game_state = PlayState::new(reg, &self.play_assets);

                    StateResult::Trans(GameState::Play(game_state))
                },
                InitStateMenu::Exit => StateResult::PopState,
            }
        } else {
            StateResult::Void
        }
    }

    /// Draws the title and the two entries, the one under the cursor in
    /// the highlight colour.
    fn render(&mut self, reg: &mut Reg, buffer: &mut Canvas) -> (result: StateResult) {
        buffer.bind();

        buffer.draw(DrawOp::Clear(Color { r: 0, g: 0, b: 0, a: 255 }));

        let title = *reg.get_text("title".to_owned()).unwrap();
        let start_menu = *reg.get_text("start_menu".to_owned()).unwrap();
        let exit_menu = *reg.get_text("exit_menu".to_owned()).unwrap();
        let white = Color { r: 255, g: 255, b: 255, a: 255 };
        let highlight = Color { r: 200, g: 200, b: 255, a: 255 };
        buffer.draw(DrawOp::Label { text: title, x: center(title.width), y: TITLE_Y, color: white });

        buffer.draw(
            DrawOp::Label {
                text: start_menu,
                x: center(start_menu.width),
                y: START_Y,
                color: match self.status {
                    InitStateMenu::Start => highlight,
                    InitStateMenu::Exit => white,
                },
            },
        );

        buffer.draw(
            DrawOp::Label {
                text: exit_menu,
                x: center(exit_menu.width),
                y: EXIT_Y,
                color: match self.status {
                    InitStateMenu::Exit => highlight,
                    InitStateMenu::Start => white,
                },
            },
        );

        buffer.draw(DrawOp::Present);

        buffer.release();
        assert(final(buffer)@ =~= old(buffer)@ + old(self).frame(old(reg)@));
        StateResult::Void
    }
}

impl PauseState {
    /// The waiting screen.
    pub fn new() -> (state: PauseState)
        ensures
            state == (PauseState {  }),
    {
        PauseState {  }
    }
}

impl States for PauseState {
    open spec fn can_update(&self, keys: Set<KeyCode>, dt: u32, reg: RegView) -> bool {
        true
    }

    open spec fn updates_to(
        &self,
        keys: Set<KeyCode>,
        dt: u32,
        reg: RegView,
        next: PauseState,
        reg_next: RegView,
        result: ResultView,
    ) -> bool {
        &&& reg_next == reg
        &&& result == (if keys.contains(KeyCode::Return) || keys.contains(KeyCode::Q) {
            ResultView::PopState
        } else {
            ResultView::Void
        })
    }

    open spec fn can_render(&self, reg: RegView) -> bool {
        true
    }

    open spec fn frame(&self, reg: RegView) -> Seq<DrawOp> {
        seq![DrawOp::Clear(green()), DrawOp::Present]
    }

    /// `Return` or `Q` ends the wait.
    fn update(&mut self, keys: &KeySet, reg: &mut Reg, dt: u32) -> (result: StateResult) {
        if keys.contains(KeyCode::Return) || keys.contains(KeyCode::Q) {
            StateResult::PopState
        } else {
            StateResult::Void
        }
    }

    fn render(&mut self, reg: &mut Reg, buffer: &mut Canvas) -> (result: StateResult) {
        buffer.bind();

        buffer.draw(DrawOp::Clear(Color { r: 0, g: 255, b: 0, a: 255 }));

        buffer.draw(DrawOp::Present);

        buffer.release();
        assert(final(buffer)@ =~= old(buffer)@ + old(self).frame(old(reg)@));
        StateResult::Void
    }
}

/// Height of the pause message.
pub const MESSAGE_Y: i32 = 240;

/// Distance between two hearts of the health row.
pub const HEART_STEP: i32 = 11;

/// The drawing steps for the blocks, first to last: one sprite for each
/// block in play.
pub open spec fn block_ops(blocks: Seq<Block>, atlas: Map<i32, Quad>) -> Seq<DrawOp>
    decreases blocks.len(),
{
    if blocks.len() == 0 {
        Seq::empty()
    } else {
        block_ops(blocks.drop_last(), atlas) + sprite_ops(
            blocks.last().sprite_key(),
            blocks.last().bounds(),
            atlas,
        )
    }
}

/// Number of hearts in the health row: the lives that are left, and empty
/// hearts up to three.
pub open spec fn hearts_shown(health: i32) -> int {
    (if health > 0 {
        health as int
    } else {
        0
    }) + (if health < 3 {
        3 - health
    } else {
        0
    })
}

/// The drawing steps for the health row, left to right: a full heart for
/// each life, then the empty ones.
pub open spec fn heart_ops(health: i32, hearts: Map<i32, Quad>) -> Seq<DrawOp> {
    Seq::new(
        hearts_shown(health) as nat,
        |k: int|
            DrawOp::Sprite {
                sheet: Sheet::Hearts,
                src: if k < health {
                    hearts[HEARTS_FLAG]
                } else {
                    hearts[(HEARTS_FLAG + 1) as i32]
                },
                x: (HEART_STEP * k) as i32,
                y: 0,
            },
    )
}

/// Whether the sprite an entity shows is registered.
pub open spec fn sprite_known(key: Option<int>, atlas: Map<i32, Quad>) -> bool {
    key matches Some(k) ==> i32::MIN <= k <= i32::MAX && atlas.contains_key(k as i32)
}

impl PlayView {
    /// Whether the game can be drawn.
    pub open spec fn drawable(self, reg: RegView) -> bool {
        &&& forall|i: int|
            0 <= i < self.blocks.len() ==> sprite_known(#[trigger] self.blocks[i].sprite_key(), reg.sprites)
        &&& sprite_known(self.paddle.sprite_key(), reg.sprites)
        &&& sprite_known(self.ball.sprite_key(), reg.sprites)
        &&& self.paused ==> reg.texts.contains_key("pause"@)
        &&& self.health > 0 ==> reg.hearts.contains_key(HEARTS_FLAG)
        &&& self.health < 3 ==> reg.hearts.contains_key((HEARTS_FLAG + 1) as i32)
        &&& HEART_STEP * (hearts_shown(self.health) - 1) <= i32::MAX
    }

    /// The drawing steps of one frame: the blocks in play, the paddle, the
    /// ball, the pause message while the game is paused, and the health
    /// row.
    pub open spec fn drawn(self, reg: RegView) -> Seq<DrawOp> {
        seq![DrawOp::Clear(black())] + block_ops(self.blocks, reg.sprites) + sprite_ops(
            self.paddle.sprite_key(),
            self.paddle.bounds(),
            reg.sprites,
        ) + sprite_ops(self.ball.sprite_key(), self.ball.bounds(), reg.sprites) + (if self.paused {
            seq![
                DrawOp::Label {
                    text: reg.texts["pause"@],
                    x: centered(reg.texts["pause"@].width) as i32,
                    y: MESSAGE_Y,
                    color: white(),
                },
            ]
        } else {
            Seq::empty()
        }) + heart_ops(self.health, reg.hearts) + seq![DrawOp::Present]
    }
}

/// Records the sprite of every block in play.
fn draw_blocks(blocks: &Vec<Block>, reg: &Reg, canvas: &mut Canvas)
    requires
        old(canvas).is_bound(),
        forall|i: int| 0 <= i < blocks@.len() ==> sprite_known(#[trigger] blocks@[i].sprite_key(), reg@.sprites),
    ensures
        final(canvas).is_bound(),
        final(canvas)@ == old(canvas)@ + block_ops(blocks@, reg@.sprites),
{
    let mut i: usize = 0;
    assert(canvas@ =~= old(canvas)@ + block_ops(blocks@.take(0), reg@.sprites));
    while i < blocks.len()
        invariant
            i <= blocks@.len(),
            canvas.is_bound(),
            forall|j: int|
                0 <= j < blocks@.len() ==> sprite_known(#[trigger] blocks@[j].sprite_key(), reg@.sprites),
            canvas@ == old(canvas)@ + block_ops(blocks@.take(i as int), reg@.sprites),
        decreases blocks@.len() - i,
    {
        let mut block = blocks[i];
        assert(sprite_known(blocks@[i as int].sprite_key(), reg@.sprites));
        block.draw(reg, canvas);
        proof {
            assert(blocks@.take(i + 1).drop_last() =~= blocks@.take(i as int));
            assert(blocks@.take(i + 1).last() == blocks@[i as int]);
            assert(canvas@ =~= old(canvas)@ + block_ops(blocks@.take(i + 1), reg@.sprites));
        }
        i = i + 1;
    }
    assert(blocks@.take(blocks@.len() as int) =~= blocks@);
}

/// Records the health row: a full heart for each life, then empty hearts
/// up to three, a step apart.
fn draw_hearts(health: i32, reg: &Reg, canvas: &mut Canvas)
    requires
        old(canvas).is_bound(),
        health > 0 ==> reg@.hearts.contains_key(HEARTS_FLAG),
        health < 3 ==> reg@.hearts.contains_key((HEARTS_FLAG + 1) as i32),
        HEART_STEP * (hearts_shown(health) - 1) <= i32::MAX,
    ensures
        final(canvas).is_bound(),
        final(canvas)@ == old(canvas)@ + heart_ops(health, reg@.hearts),
{
    let ghost row = heart_ops(health, reg@.hearts);
    let mut shown: i64 = 0;
    let mut k: i32 = 0;
    assert(canvas@ =~= old(canvas)@ + row.take(0));
    while k < health
        invariant
            0 <= k,
            k <= health || k == 0,
            shown == k,
            canvas.is_bound(),
            reg@.hearts.contains_key(HEARTS_FLAG) || health <= 0,
            HEART_STEP * (hearts_shown(health) - 1) <= i32::MAX,
            row == heart_ops(health, reg@.hearts),
            canvas@ == old(canvas)@ + row.take(shown as int),
        decreases health - k,
    {
        assert(0 <= shown <= hearts_shown(health) - 1);
        assert(0 <= HEART_STEP * shown <= i32::MAX);
        let hx: i64 = HEART_STEP as i64 * shown;
        reg.draw_heart(canvas, HEARTS_FLAG, hx as i32, 0);
        assert(canvas@ =~= old(canvas)@ + row.take(shown + 1));
        k = k + 1;
        shown = shown + 1;
    }
    let mut k: i32 = health;
    while k < 3
        invariant
            health <= k,
            k <= 3 || k == health,
            shown == (if health > 0 {
                health as int
            } else {
                0
            }) + (k - health),
            canvas.is_bound(),
            reg@.hearts.contains_key((HEARTS_FLAG + 1) as i32) || health >= 3,
            HEART_STEP * (hearts_shown(health) - 1) <= i32::MAX,
            row == heart_ops(health, reg@.hearts),
            canvas@ == old(canvas)@ + row.take(shown as int),
        decreases 3 - k,
    {
        assert(0 <= shown <= hearts_shown(health) - 1);
        assert(0 <= HEART_STEP * shown <= i32::MAX);
        let hx: i64 = HEART_STEP as i64 * shown;
        reg.draw_heart(canvas, HEARTS_FLAG + 1, hx as i32, 0);
        assert(canvas@ =~= old(canvas)@ + row.take(shown + 1));
        k = k + 1;
        shown = shown + 1;
    }
    assert(row.take(shown as int) =~= row);
}

impl States for PlayState {
    open spec fn can_update(&self, keys: Set<KeyCode>, dt: u32, reg: RegView) -> bool {
        self@.can_step(keys, dt, reg)
    }

    open spec fn updates_to(
        &self,
        keys: Set<KeyCode>,
        dt: u32,
        reg: RegView,
        next: PlayView,
        reg_next: RegView,
        result: ResultView,
    ) -> bool {
        &&& next == self@.stepped(keys, dt)
        &&& reg_next == self@.stepped_registry(keys, dt, reg)
        &&& result == (if keys.contains(KeyCode::X) {
            ResultView::PopState
        } else {
            ResultView::Void
        })
    }

    open spec fn can_render(&self, reg: RegView) -> bool {
        self@.drawable(reg)
    }

    open spec fn frame(&self, reg: RegView) -> Seq<DrawOp> {
        self@.drawn(reg)
    }

    fn update(&mut self, keys: &KeySet, reg: &mut Reg, dt: u32) -> (result: StateResult) {
        if self.step(keys, reg, dt) {
            StateResult::PopState
        } else {
            StateResult::Void
        }
    }

    fn render(&mut self, reg: &mut Reg, buffer: &mut Canvas) -> (result: StateResult) {
        buffer.bind();

        buffer.draw(DrawOp::Clear(Color { r: 0, g: 0, b: 0, a: 255 }));

        proof {
            assert(self@.drawable(reg@));
            assert forall|i: int| 0 <= i < self.blocks@.len() implies sprite_known(
                #[trigger] self.blocks@[i].sprite_key(),
                reg@.sprites,
            ) by {
                assert(self@.blocks[i] == self.blocks@[i]);
            }
        }
        draw_blocks(&self.blocks, reg, buffer);

        self.paddle.draw(reg, buffer);

        self.ball.draw(reg, buffer);
        if self.paused {
            let message = *reg.get_text("pause".to_owned()).unwrap();
            buffer.draw(
                DrawOp::Label {
                    text: message,
                    x: center(message.width),
                    y: MESSAGE_Y,
                    color: Color { r: 255, g: 255, b: 255, a: 255 },
                },
            );
        }
        // Health

        draw_hearts(self.health, reg, buffer);

        buffer.draw(DrawOp::Present);

        buffer.release();
        assert(final(buffer)@ =~= old(buffer)@ + old(self).frame(old(reg)@));

        StateResult::Void
    }
}

impl GameView {
    /// Whether the state can take a frame.
    pub open spec fn can_update(self, keys: Set<KeyCode>, dt: u32, reg: RegView) -> bool {
        match self {
            GameView::Init(s) => s.can_update(keys, dt, reg),
            GameView::Play(s) => s.can_step(keys, dt, reg),
            GameView::Pause(s) => s.can_update(keys, dt, reg),
        }
    }

    /// Whether a frame may lead from this state and the registry `reg` to
    /// the state `next`, the registry `reg_next` and the request `result`.
    pub open spec fn updates_to(
        self,
        keys: Set<KeyCode>,
        dt: u32,
        reg: RegView,
        next: GameView,
        reg_next: RegView,
        result: ResultView,
    ) -> bool {
        match self {
            GameView::Init(s) => next matches GameView::Init(n) && s.updates_to(
                keys,
                dt,
                reg,
                n,
                reg_next,
                result,
            ),
            GameView::Play(s) => {
                &&& next == GameView::Play(s.stepped(keys, dt))
                &&& reg_next == s.stepped_registry(keys, dt, reg)
                &&& result == (if keys.contains(KeyCode::X) {
                    ResultView::PopState
                } else {
                    ResultView::Void
                })
            },
            GameView::Pause(s) => next matches GameView::Pause(n) && s.updates_to(
                keys,
                dt,
                reg,
                n,
                reg_next,
                result,
            ),
        }
    }

    /// Whether the state can be drawn.
    pub open spec fn can_render(self, reg: RegView) -> bool {
        match self {
            GameView::Init(s) => s.can_render(reg),
            GameView::Play(s) => s.drawable(reg),
            GameView::Pause(s) => s.can_render(reg),
        }
    }

    /// The drawing steps of one frame.
    pub open spec fn frame(self, reg: RegView) -> Seq<DrawOp> {
        match self {
            GameView::Init(s) => s.frame(reg),
            GameView::Play(s) => s.drawn(reg),
            GameView::Pause(s) => s.frame(reg),
        }
    }
}

impl States for GameState {
    open spec fn can_update(&self, keys: Set<KeyCode>, dt: u32, reg: RegView) -> bool {
        self@.can_update(keys, dt, reg)
    }

    open spec fn updates_to(
        &self,
        keys: Set<KeyCode>,
        dt: u32,
        reg: RegView,
        next: GameView,
        reg_next: RegView,
        result: ResultView,
    ) -> bool {
        self@.updates_to(keys, dt, reg, next, reg_next, result)
    }

    open spec fn can_render(&self, reg: RegView) -> bool {
        self@.can_render(reg)
    }

    open spec fn frame(&self, reg: RegView) -> Seq<DrawOp> {
        self@.frame(reg)
    }

    fn update(&mut self, keys: &KeySet, reg: &mut Reg, dt: u32) -> (result: StateResult) {
        match self {
            GameState::Init(s) => s.update(keys, reg, dt),
            GameState::Play(s) => s.update(keys, reg, dt),
            GameState::Pause(s) => s.update(keys, reg, dt),
        }
    }

    fn render(&mut self, reg: &mut Reg, buffer: &mut Canvas) -> (result: StateResult) {
        match self {
            GameState::Init(s) => s.render(reg, buffer),
            GameState::Play(s) => s.render(reg, buffer),
            GameState::Pause(s) => s.render(reg, buffer),
        }
    }
}

/// A block that the ball strikes goes out of play, keeps its place, is
/// never struck again by any ball and shows no sprite; a block that is not
/// struck stays as it was.
pub proof fn lemma_struck_block_leaves_play(ball: Ball, blocks: Seq<Block>, i: int, later: Ball)
    requires
        0 <= i < blocks.len(),
    ensures
        blocks_after(ball, blocks).len() == blocks.len(),
        block_struck(ball, blocks[i]) ==> blocks_after(ball, blocks)[i] == (Block {
            inplay: false,
            ..blocks[i]
        }),
        block_struck(ball, blocks[i]) ==> !block_struck(later, blocks_after(ball, blocks)[i]),
        block_struck(ball, blocks[i]) ==> blocks_after(ball, blocks)[i].sprite_key() is None,
        !block_struck(ball, blocks[i]) ==> blocks_after(ball, blocks)[i] == blocks[i],
        !blocks[i].inplay ==> !block_struck(ball, blocks[i]),
{
}

/// The brick sound is queued once for each block the ball strikes, and
/// for nothing else.
pub proof fn lemma_brick_sound_once_per_strike(ball: Ball, blocks: Seq<Block>, brick: Source)
    ensures
        brick_audio(ball, blocks, brick).len() == blocks.filter(|b: Block| block_struck(ball, b)).len(),
        forall|k: int|
            0 <= k < brick_audio(ball, blocks, brick).len() ==> brick_audio(ball, blocks, brick)[k] == (
            SoundCommand { op: SoundOp::Play, source: brick }),
    decreases blocks.len(),
{
    reveal(Seq::filter);
    if blocks.len() > 0 {
        lemma_brick_sound_once_per_strike(ball, blocks.drop_last(), brick);
    }
}

/// A paused game stands still: whatever the keys, short of `X`, and
/// however long the frame, paddle, ball, blocks, score and health are
/// after the frame what they were before, no sound but the music is asked
/// for, and the game is still paused unless `Return` is down.
pub proof fn lemma_pause_freezes(game: PlayView, keys: Set<KeyCode>, dt: u32, sounds: Map<Seq<char>, Source>)
    requires
        game.paused,
        !keys.contains(KeyCode::X),
    ensures
        game.stepped(keys, dt).paddle == game.paddle,
        game.stepped(keys, dt).ball == game.ball,
        game.stepped(keys, dt).blocks == game.blocks,
        game.stepped(keys, dt).score == game.score,
        game.stepped(keys, dt).health == game.health,
        game.stepped(keys, dt).paused == !keys.contains(KeyCode::Return),
        !keys.contains(KeyCode::Return) ==> game.stepped_audio(keys, dt, sounds).len() == 0,
{
}

/// `P` pauses a running game at the end of the frame in which it is seen,
/// and without `P` the game keeps running; a game that `Return` has taken
/// out of its pause runs again on the next frame.
pub proof fn lemma_pause_and_resume(game: PlayView, keys: Set<KeyCode>, dt: u32, after: Set<KeyCode>)
    requires
        !keys.contains(KeyCode::X),
        !after.contains(KeyCode::X),
    ensures
        !game.paused ==> game.stepped(keys, dt).paused == keys.contains(KeyCode::P),
        game.paused && keys.contains(KeyCode::Return) ==> game.stepped(keys, dt).stepped(after, dt)
            == game.stepped(keys, dt).ran(after, dt),
{
}

/// A ball at rest stays at rest while it meets the blocks.
pub proof fn lemma_ball_at_rest_stays(ball: Ball, blocks: Seq<Block>)
    requires
        ball.dx == 0,
        ball.dy == 0,
    ensures
        ball_through(ball, blocks) == ball,
    decreases blocks.len(),
{
    if blocks.len() > 0 {
        lemma_ball_at_rest_stays(ball, blocks.drop_last());
    }
}

/// A ball that falls below the playfield costs one life and ends the frame
/// at rest on its spawn point; a ball that does not fall costs none.
pub proof fn lemma_fall_costs_a_life(game: PlayView, keys: Set<KeyCode>, dt: u32)
    requires
        !game.paused,
        !keys.contains(KeyCode::X),
        game.health > i32::MIN,
    ensures
        fell(game.ball.updated(keys, dt)) ==> game.stepped(keys, dt).health == game.health - 1,
        fell(game.ball.updated(keys, dt)) ==> game.stepped(keys, dt).ball == respawned(
            game.ball.updated(keys, dt),
        ),
        !fell(game.ball.updated(keys, dt)) ==> game.stepped(keys, dt).health == game.health,
{
    if fell(game.ball.updated(keys, dt)) {
        let back = respawned(game.ball.updated(keys, dt));
        assert(game.ball_moved(keys, dt) == back);
        assert(off_paddle(steered(game.paddle, keys, dt), back) == back);
        lemma_ball_at_rest_stays(back, game.blocks);
    }
}

impl PlayView {
    /// Whether a frame of `dt` milliseconds can be taken whatever the keys:
    /// the five sounds of a frame are registered, the ball can move and be
    /// turned round, and the health can still drop.
    pub open spec fn steppable(self, dt: u32, reg: RegView) -> bool {
        &&& reg.sounds.contains_key("music"@)
        &&& reg.sounds.contains_key("pause"@)
        &&& reg.sounds.contains_key("wall-hit"@)
        &&& reg.sounds.contains_key("paddle-hit"@)
        &&& reg.sounds.contains_key("brick-hit-2"@)
        &&& self.ball.dx > i32::MIN
        &&& self.ball.dy > i32::MIN
        &&& self.ball.can_move(dt)
        &&& self.health > i32::MIN
    }
}

/// A game that is steppable for `dt` can take a frame of `dt` whatever the
/// keys.
pub proof fn lemma_steppable(game: PlayView, reg: RegView, keys: Set<KeyCode>, dt: u32)
    requires
        game.steppable(dt, reg),
    ensures
        game.can_step(keys, dt, reg),
{
}

impl PlayState {
    /// Whether a frame of `dt` milliseconds can be taken whatever the keys.
    pub fn ready(&self, reg: &Reg, dt: u32) -> (ok: bool)
        ensures
            ok == self@.steppable(dt, reg@),
            ok ==> forall|keys: Set<KeyCode>| #[trigger] self@.can_step(keys, dt, reg@),
    {
        let ok = reg.sounds.contains_key("music") && reg.sounds.contains_key("pause")
            && reg.sounds.contains_key("wall-hit") && reg.sounds.contains_key("paddle-hit")
            && reg.sounds.contains_key("brick-hit-2") && self.ball.dx > i32::MIN && self.ball.dy
            > i32::MIN && self.ball.movable(dt) && self.health > i32::MIN;
        proof {
            if ok {
                assert forall|keys: Set<KeyCode>| #[trigger] self@.can_step(keys, dt, reg@) by {
                    lemma_steppable(self@, reg@, keys, dt);
                }
            }
        }
        ok
    }

    /// Whether the game can be drawn: every sprite and text it shows is
    /// registered and the health row can be placed.
    pub fn showable(&self, reg: &Reg) -> (ok: bool)
        ensures
            ok == self@.drawable(reg@),
    {
        let mut i: usize = 0;
        while i < self.blocks.len()
            invariant
                i <= self.blocks@.len(),
                forall|j: int|
                    0 <= j < i ==> sprite_known(#[trigger] self.blocks@[j].sprite_key(), reg@.sprites),
            decreases self.blocks@.len() - i,
        {
            let block = &self.blocks[i];
            if block.inplay {
                let key: i64 = BLOCK_FLAG as i64 + 1 + (block.color as i64 - 1) * 4
                    + block.tier as i64;
                if !known(key, reg) {
                    assert(!sprite_known(self@.blocks[i as int].sprite_key(), reg@.sprites));
                    return false;
                }
            }
            i = i + 1;
        }
        let paddle: i64 = PADDLE_FLAG as i64 + self.paddle.color as i64 + self.paddle.size as i64;
        let ball: i64 = BALL_FLAG as i64 + self.ball.color as i64;
        let hearts: i64 = if self.health > 3 {
            self.health as i64
        } else if self.health > 0 {
            3
        } else {
            3 - self.health as i64
        };
        known(paddle, reg) && known(ball, reg) && (!self.paused || reg.texts.contains_key("pause")) && (
        self.health <= 0 || reg.hearts.contains_key(&HEARTS_FLAG)) && (self.health >= 3
            || reg.hearts.contains_key(&(HEARTS_FLAG + 1))) && HEART_STEP as i64 * (hearts - 1)
            <= i32::MAX as i64
    }
}

/// Whether the main sheet has a sprite under `key`.
fn known(key: i64, reg: &Reg) -> (ok: bool)
    ensures
        ok == sprite_known(Some(key as int), reg@.sprites),
{
    if key < i32::MIN as i64 || key > i32::MAX as i64 {
        false
    } else {
        reg.sprites.contains_key(&(key as i32))
    }
}

impl InitState {
    /// Whether a frame can be taken: the music is registered.
    pub fn ready(&self, reg: &Reg) -> (ok: bool)
        ensures
            ok == reg@.sounds.contains_key("music"@),
            forall|keys: Set<KeyCode>, dt: u32| ok == #[trigger] self.can_update(keys, dt, reg@),
    {
        reg.sounds.contains_key("music")
    }

    /// Whether the menu can be drawn: its three texts are registered.
    pub fn showable(&self, reg: &Reg) -> (ok: bool)
        ensures
            ok == self.can_render(reg@),
    {
        reg.texts.contains_key("title") && reg.texts.contains_key("start_menu") && reg.texts.contains_key(
            "exit_menu",
        )
    }
}

impl GameState {
    /// Whether the state can take a frame of `dt` milliseconds whatever
    /// the keys.
    pub fn ready(&self, reg: &Reg, dt: u32) -> (ok: bool)
        ensures
            ok ==> forall|keys: Set<KeyCode>| #[trigger] self@.can_update(keys, dt, reg@),
            ok == match self@ {
                GameView::Init(s) => reg@.sounds.contains_key("music"@),
                GameView::Play(s) => s.steppable(dt, reg@),
                GameView::Pause(s) => true,
            },
    {
        match self {
            GameState::Init(s) => s.ready(reg),
            GameState::Play(s) => s.ready(reg, dt),
            GameState::Pause(s) => true,
        }
    }

    /// Whether the state can be drawn.
    pub fn showable(&self, reg: &Reg) -> (ok: bool)
        ensures
            ok == self@.can_render(reg@),
    {
        match self {
            GameState::Init(s) => s.showable(reg),
            GameState::Play(s) => s.showable(reg),
            GameState::Pause(s) => true,
        }
    }
}

} // verus!

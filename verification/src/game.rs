//! The playfield and the stack of game states.

use crate::graphics::Canvas;
use crate::key::{KeyCode, KeySet};
use crate::reg::Reg;
use crate::states::{GameState, GameView, ResultView, StateResult, States};
use vstd::prelude::*;

verus! {

/// Width of the playfield in logical units.
pub const VIRTUAL_WIDTH: i32 = 320;

/// Height of the playfield in logical units.
pub const VIRTUAL_HEIGHT: i32 = 480;

/// Lives at the start of play.
pub const INITIAL_HEALTH: i32 = 3;

/// The states of the game, the active one last. Only the active state is
/// updated and drawn; the ones below it wait.
#[derive(Debug)]
pub struct StateStack {
    pub states: Vec<GameState>,
}

impl View for StateStack {
    type V = Seq<GameView>;

    open spec fn view(&self) -> Seq<GameView> {
        Seq::new(self.states@.len(), |i: int| self.states@[i]@)
    }
}

/// The stack after its active state took a frame, became `next` and asked
/// for `result`: the request is applied once the frame is over.
pub open spec fn applied(stack: Seq<GameView>, next: GameView, result: ResultView) -> Seq<GameView> {
    match result {
        ResultView::PushState(state) => stack.drop_last().push(next).push(state),
        ResultView::PopState => stack.drop_last(),
        ResultView::Trans(state) => stack.drop_last().push(state),
        ResultView::Void => stack.drop_last().push(next),
    }
}

/// The stack with `state` in the place of its last state.
pub open spec fn replaced(stack: Seq<GameView>, state: GameView) -> Seq<GameView> {
    if stack.len() > 0 {
        stack.drop_last().push(state)
    } else {
        seq![state]
    }
}

impl StateStack {
    /// A stack with no state on it.
    pub fn new() -> (stack: StateStack)
        ensures
            stack@ == Seq::<GameView>::empty(),
    {
        let stack = StateStack { states: Vec::new() };
        assert(stack@ =~= Seq::<GameView>::empty());
        stack
    }

    /// Number of states on the stack.
    pub fn len(&self) -> (n: usize)
        ensures
            n == self@.len(),
    {
        self.states.len()
    }

    /// Whether the game is over: no state is left.
    pub fn is_empty(&self) -> (empty: bool)
        ensures
            empty == (self@.len() == 0),
    {
        self.states.len() == 0
    }

    /// The active state, if there is one.
    pub fn active(&self) -> (state: Option<&GameState>)
        ensures
            self@.len() == 0 ==> state is None,
            self@.len() > 0 ==> state is Some && state->0@ == self@.last(),
    {
        let n = self.states.len();
        if n == 0 {
            None
        } else {
            assert(self@.last() == self.states@[n - 1]@);
            Some(&self.states[n - 1])
        }
    }

    /// Whether there is an active state and it can take a frame of `dt`
    /// milliseconds whatever the keys.
    pub fn ready(&self, reg: &Reg, dt: u32) -> (ok: bool)
        ensures
            ok ==> self@.len() > 0,
            ok ==> forall|keys: Set<KeyCode>| #[trigger] self@.last().can_update(keys, dt, reg@),
            ok == (self@.len() > 0 && match self@.last() {
                GameView::Init(s) => reg@.sounds.contains_key("music"@),
                GameView::Play(s) => s.steppable(dt, reg@),
                GameView::Pause(s) => true,
            }),
    {
        match self.active() {
            None => false,
            Some(state) => state.ready(reg, dt),
        }
    }

    /// Whether there is an active state and it can be drawn.
    pub fn showable(&self, reg: &Reg) -> (ok: bool)
        ensures
            ok == (self@.len() > 0 && self@.last().can_render(reg@)),
    {
        match self.active() {
            None => false,
            Some(state) => state.showable(reg),
        }
    }

    /// Puts `state` on top, where it becomes the active state.
    pub fn push(&mut self, state: GameState)
        ensures
            final(self)@ == old(self)@.push(state@),
    {
        self.states.push(state);
        assert(final(self)@ =~= old(self)@.push(state@));
    }

    /// Takes the active state off, if there is one. The state below it
    /// becomes active; with none left the game is over.
    pub fn pop(&mut self) -> (state: Option<GameState>)
        ensures
            old(self)@.len() == 0 ==> state is None && final(self)@ == old(self)@,
            old(self)@.len() > 0 ==> state is Some && state->0@ == old(self)@.last(),
            old(self)@.len() > 0 ==> final(self)@ == old(self)@.drop_last(),
    {
        let state = self.states.pop();
        assert(old(self)@.len() > 0 ==> final(self)@ =~= old(self)@.drop_last());
        assert(old(self)@.len() == 0 ==> final(self)@ =~= old(self)@);
        state
    }

    /// Puts `state` in the place of the active state; on an empty stack it
    /// becomes the only state.
    pub fn transition(&mut self, state: GameState)
        ensures
            final(self)@ == replaced(old(self)@, state@),
    {
        let _ = self.states.pop();
        self.states.push(state);
        assert(final(self)@ =~= replaced(old(self)@, state@));
    }

    /// Lets the active state take one frame and then applies what it asked
    /// for. Says whether the game goes on, that is whether a state is left.
    pub fn update(&mut self, keys: &KeySet, reg: &mut Reg, dt: u32) -> (running: bool)
        requires
            old(self)@.len() > 0,
            old(self)@.last().can_update(keys@, dt, old(reg)@),
        ensures
            exists|next: GameView, result: ResultView|
                old(self)@.last().updates_to(keys@, dt, old(reg)@, next, final(reg)@, result)
                    && final(self)@ == applied(old(self)@, next, result),
            running == (final(self)@.len() > 0),
    {
        let ghost below = self@.drop_last();
        assert(self@.last() == self.states@.last()@);
        let mut top = self.states.pop().unwrap();
        assert(self@ =~= below);
        let result = top.update(keys, reg, dt);
        let ghost next = top@;
        let ghost asked = result@;
        match result {
            StateResult::PushState(state) => {
                self.states.push(top);
                self.states.push(state);
            },
            StateResult::PopState => {},
            StateResult::Trans(state) => {
                self.states.push(state);
            },
            StateResult::Void => {
                self.states.push(top);
            },
        }
        proof {
            assert(self@ =~= applied(old(self)@, next, asked));
            assert(old(self)@.last().updates_to(keys@, dt, old(reg)@, next, reg@, asked));
        }
        self.states.len() > 0
    }

    /// Draws the active state on `buffer`.
    pub fn render(&mut self, reg: &mut Reg, buffer: &mut Canvas)
        requires
            old(self)@.len() > 0,
            old(self)@.last().can_render(old(reg)@),
        ensures
            final(self)@ == old(self)@,
            final(reg)@ == old(reg)@,
            final(buffer)@ == old(buffer)@ + old(self)@.last().frame(old(reg)@),
            !final(buffer).is_bound(),
    {
        assert(self@.last() == self.states@.last()@);
        let mut top = self.states.pop().unwrap();
        let _ = top.render(reg, buffer);
        self.states.push(top);
        assert(final(self)@ =~= old(self)@);
    }
}

/// Only the active state takes part in a frame: what the stack holds below
/// it is the same after the frame, whatever the state asked for.
pub proof fn lemma_states_below_wait(stack: Seq<GameView>, next: GameView, result: ResultView, i: int)
    requires
        0 <= i < stack.len() - 1,
    ensures
        i < applied(stack, next, result).len(),
        applied(stack, next, result)[i] == stack[i],
{
}

/// A request to pop on a stack of one state leaves no state: the game is
/// over.
pub proof fn lemma_last_pop_ends(stack: Seq<GameView>, next: GameView)
    requires
        stack.len() == 1,
    ensures
        applied(stack, next, ResultView::PopState).len() == 0,
        applied(stack, next, ResultView::Void).len() == 1,
{
}

} // verus!

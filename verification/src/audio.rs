//! Sound handles and the commands the game sends to the audio device.

use vstd::prelude::*;

verus! {

/// Handle to a sound the host has loaded.
#[derive(Clone, Copy, Debug, PartialEq, Eq, Structural)]
pub struct Source {
    pub asset: u64,
}

/// What the game asks of a sound.
#[derive(Clone, Copy, Debug, PartialEq, Eq, Structural)]
pub enum SoundOp {
    /// Start the sound unless it is playing.
    Play,
    /// Start the sound as a single shot unless it is playing.
    PlayOnce,
    /// Loop the sound, starting it unless it is playing.
    PlayBgm,
    /// Silence the sound if it is playing.
    Stop,
}

/// One request to the audio device.
#[derive(Clone, Copy, Debug, PartialEq, Eq, Structural)]
pub struct SoundCommand {
    pub op: SoundOp,
    pub source: Source,
}

/// What becomes of a sound's repeat flag.
#[derive(Clone, Copy, Debug, PartialEq, Eq, Structural)]
pub enum Repeat {
    Keep,
    Off,
    On,
}

/// What the device does for one command, given whether the sound is playing.
#[derive(Clone, Copy, Debug, PartialEq, Eq, Structural)]
pub struct SoundAction {
    pub repeat: Repeat,
    pub start: bool,
    pub stop: bool,
}

/// The device action for `op` on a sound that is `playing` or not.
pub open spec fn action_for(op: SoundOp, playing: bool) -> SoundAction {
    match op {
        SoundOp::Play => SoundAction { repeat: Repeat::Keep, start: !playing, stop: false },
        SoundOp::PlayOnce => SoundAction {
            repeat: if playing { Repeat::Keep } else { Repeat::Off },
            start: !playing,
            stop: false,
        },
        SoundOp::PlayBgm => SoundAction { repeat: Repeat::On, start: !playing, stop: false },
        SoundOp::Stop => SoundAction { repeat: Repeat::Keep, start: false, stop: playing },
    }
}

/// Decides what the device does for `op` on a sound whose playing state the
/// host has just read.
pub fn resolve(op: SoundOp, playing: bool) -> (action: SoundAction)
    ensures
        action == action_for(op, playing),
{
    match op {
        SoundOp::Play => SoundAction { repeat: Repeat::Keep, start: !playing, stop: false },
        SoundOp::PlayOnce => if playing {
            SoundAction { repeat: Repeat::Keep, start: false, stop: false }
        } else {
            SoundAction { repeat: Repeat::Off, start: true, stop: false }
        },
        SoundOp::PlayBgm => SoundAction { repeat: Repeat::On, start: !playing, stop: false },
        SoundOp::Stop => SoundAction { repeat: Repeat::Keep, start: false, stop: playing },
    }
}

/// A command never both starts and stops a sound, and a sound that is
/// playing is never started again.
pub proof fn lemma_action_exclusive(op: SoundOp, playing: bool)
    ensures
        !(action_for(op, playing).start && action_for(op, playing).stop),
        playing ==> !action_for(op, playing).start,
        !playing ==> !action_for(op, playing).stop,
{
}

} // verus!

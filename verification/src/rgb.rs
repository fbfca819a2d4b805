//! A cyclic red-green-blue color transition driven by a three-phase state
//! machine: each phase raises one channel while lowering another, and hands
//! over to the next phase once the rising channel is full.
//!
//! Channel levels are held in units of 1/400 of full intensity, so one step
//! per frame walks a full transition in 400 frames; a renderer divides by
//! 400 to recover the usual 0-to-1 channel scale.

use vstd::prelude::*;

verus! {

/// Full intensity of one color channel, in transition units.
pub const CHANNEL_FULL: u16 = 400;

/// The transition currently in progress: which channel rises and which
/// falls.
#[derive(Clone, Copy, Debug, PartialEq, Eq, Structural)]
pub enum TransitionPhase {
    /// Red hands over to blue: blue rises, red falls.
    RedToBlue,
    /// Blue hands over to green: green rises, blue falls.
    BlueToGreen,
    /// Green hands over to red: red rises, green falls.
    GreenToRed,
}

/// The cycling color: three channel levels and the phase in progress.
#[derive(Clone, Copy, Debug, PartialEq, Eq, Structural)]
pub struct RgbCycle {
    pub red: u16,
    pub green: u16,
    pub blue: u16,
    pub phase: TransitionPhase,
}

impl RgbCycle {
    /// The channel that rises in the current phase.
    pub open spec fn rising(self) -> u16 {
        match self.phase {
            TransitionPhase::RedToBlue => self.blue,
            TransitionPhase::BlueToGreen => self.green,
            TransitionPhase::GreenToRed => self.red,
        }
    }

    /// The channel that falls in the current phase.
    pub open spec fn falling(self) -> u16 {
        match self.phase {
            TransitionPhase::RedToBlue => self.red,
            TransitionPhase::BlueToGreen => self.blue,
            TransitionPhase::GreenToRed => self.green,
        }
    }

    /// The channel the current phase leaves alone.
    pub open spec fn idle(self) -> u16 {
        match self.phase {
            TransitionPhase::RedToBlue => self.green,
            TransitionPhase::BlueToGreen => self.red,
            TransitionPhase::GreenToRed => self.blue,
        }
    }

    /// Well-formedness: what the rising channel has gained the falling one
    /// has lost, the idle channel is empty, and the rising channel is not
    /// yet full — a full rise hands over to the next phase at once.
    pub open spec fn wf(self) -> bool {
        &&& self.rising() + self.falling() == CHANNEL_FULL
        &&& self.rising() < CHANNEL_FULL
        &&& self.idle() == 0
    }

    /// The phase after `phase`, in the fixed red-blue-green circle.
    pub open spec fn next_phase(phase: TransitionPhase) -> TransitionPhase {
        match phase {
            TransitionPhase::RedToBlue => TransitionPhase::BlueToGreen,
            TransitionPhase::BlueToGreen => TransitionPhase::GreenToRed,
            TransitionPhase::GreenToRed => TransitionPhase::RedToBlue,
        }
    }

    /// The cycle's starting point: pure red, about to fade toward blue.
    pub fn new() -> (cycle: RgbCycle)
        ensures
            cycle.wf(),
            cycle.red == CHANNEL_FULL,
            cycle.green == 0,
            cycle.blue == 0,
            cycle.phase == TransitionPhase::RedToBlue,
    {
        RgbCycle { red: CHANNEL_FULL, green: 0, blue: 0, phase: TransitionPhase::RedToBlue }
    }

    /// One frame of the transition: the rising channel gains one unit and
    /// the falling channel loses one. When the rising channel reaches full
    /// intensity the next phase takes over, with the just-emptied channel
    /// as its new rising channel.
    pub fn step(&mut self)
        requires
            old(self).wf(),
        ensures
            final(self).wf(),
            final(self).rising() + final(self).falling() == CHANNEL_FULL,
            old(self).rising() + 1 < CHANNEL_FULL ==> {
                &&& final(self).phase == old(self).phase
                &&& final(self).rising() == old(self).rising() + 1
                &&& final(self).falling() == old(self).falling() - 1
                &&& final(self).idle() == 0
            },
            old(self).rising() + 1 == CHANNEL_FULL ==> {
                &&& final(self).phase == Self::next_phase(old(self).phase)
                &&& final(self).rising() == 0
                &&& final(self).falling() == CHANNEL_FULL
            },
    {
        match self.phase {
            TransitionPhase::RedToBlue => {
                self.blue = self.blue + 1;
                self.red = self.red - 1;
                if self.blue >= CHANNEL_FULL {
                    self.phase = TransitionPhase::BlueToGreen;
                }
            },
            TransitionPhase::BlueToGreen => {
                self.green = self.green + 1;
                self.blue = self.blue - 1;
                if self.green >= CHANNEL_FULL {
                    self.phase = TransitionPhase::GreenToRed;
                }
            },
            TransitionPhase::GreenToRed => {
                self.red = self.red + 1;
                self.green = self.green - 1;
                if self.red >= CHANNEL_FULL {
                    self.phase = TransitionPhase::RedToBlue;
                }
            },
        }
    }

    /// The three channel levels, in red-green-blue order.
    pub fn channels(&self) -> (c: (u16, u16, u16))
        ensures
            c.0 == self.red,
            c.1 == self.green,
            c.2 == self.blue,
    {
        (self.red, self.green, self.blue)
    }
}

/// In every well-formed cycle state the channel levels sum to exactly one
/// full intensity, so the displayed color always has constant total
/// brightness across the whole transition circle.
pub proof fn lemma_channels_sum_full(cycle: RgbCycle)
    requires
        cycle.wf(),
    ensures
        cycle.red + cycle.green + cycle.blue == CHANNEL_FULL,
{
}

} // verus!

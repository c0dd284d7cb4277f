//! The delay and sound timers: two byte counters that run down to zero at 60 Hz.

use vstd::prelude::*;

verus! {

/// The two countdown timers.
#[derive(Debug, Clone, Copy, PartialEq, Eq, Structural)]
pub struct Timers {
    /// The delay timer, which programs read back.
    pub delay: u8,
    /// The sound timer: a tone sounds for as long as it is not zero.
    pub sound: u8,
}

/// A counter one tick later: one less, and zero stays zero.
pub open spec fn ticked(counter: u8) -> u8 {
    if counter > 0 {
        (counter - 1) as u8
    } else {
        0
    }
}

impl Timers {
    /// The timers one tick later.
    pub open spec fn after_tick(self) -> Timers {
        Timers { delay: ticked(self.delay), sound: ticked(self.sound) }
    }

    /// The timers `n` ticks later.
    pub open spec fn after_ticks(self, n: nat) -> Timers
        decreases n,
    {
        if n == 0 {
            self
        } else {
            self.after_tick().after_ticks((n - 1) as nat)
        }
    }

    /// After `n` ticks each counter has gone down by `n`, and stopped at zero.
    pub proof fn lemma_after_ticks(self, n: nat)
        ensures
            self.after_ticks(n).delay == if self.delay >= n {
                self.delay - n
            } else {
                0
            },
            self.after_ticks(n).sound == if self.sound >= n {
                self.sound - n
            } else {
                0
            },
        decreases n,
    {
        if n > 0 {
            self.after_tick().lemma_after_ticks((n - 1) as nat);
        }
    }

    /// A counter at zero stays at zero, however many ticks follow.
    pub proof fn lemma_zero_stays_zero(self, n: nat)
        ensures
            self.delay == 0 ==> self.after_ticks(n).delay == 0,
            self.sound == 0 ==> self.after_ticks(n).sound == 0,
    {
        self.lemma_after_ticks(n);
    }

    /// Both timers at zero.
    pub fn new() -> (t: Timers)
        ensures
            t == (Timers { delay: 0, sound: 0 }),
    {
        Timers { delay: 0, sound: 0 }
    }

    /// Sets both timers to zero.
    pub fn reset(&mut self)
        ensures
            *final(self) == (Timers { delay: 0, sound: 0 }),
    {
        self.delay = 0;
        self.sound = 0;
    }

    /// One 60 Hz tick: each timer that is not zero goes down by one.
    pub fn tick(&mut self)
        ensures
            *final(self) == old(self).after_tick(),
            final(self).delay <= old(self).delay,
            final(self).sound <= old(self).sound,
    {
        if self.delay > 0 {
            self.delay -= 1;
        }
        if self.sound > 0 {
            self.sound -= 1;
        }
    }

    /// Whether the tone is sounding.
    pub fn sound_active(&self) -> (on: bool)
        ensures
            on == (self.sound > 0),
    {
        self.sound > 0
    }
}

} // verus!

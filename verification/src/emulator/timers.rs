use vstd::prelude::*;

verus! {

/// The delay and sound timers: two independent 8-bit counters that count down to zero.
#[derive(Clone, Copy, Debug, PartialEq, Eq, Structural)]
pub struct Timers {
    pub delay: u8,
    pub sound: u8,
}

/// One step of a countdown that stops at zero.
pub open spec fn count_down(value: u8) -> u8 {
    if value > 0 {
        (value - 1) as u8
    } else {
        0
    }
}

impl Timers {
    /// The timers after one tick.
    pub open spec fn ticked(self) -> Timers {
        Timers { delay: count_down(self.delay), sound: count_down(self.sound) }
    }

    /// The timers after `n` ticks.
    pub open spec fn ticked_n(self, n: nat) -> Timers
        decreases n,
    {
        if n == 0 {
            self
        } else {
            self.ticked().ticked_n((n - 1) as nat)
        }
    }

    /// Timers at rest: both zero.
    pub fn new() -> (timers: Timers)
        ensures
            timers.delay == 0,
            timers.sound == 0,
    {
        Timers { delay: 0, sound: 0 }
    }

    /// Counts both timers down by one; a timer at zero stays at zero.
    pub fn tick(&mut self)
        ensures
            *final(self) == old(self).ticked(),
    {
        if self.delay > 0 {
            self.delay -= 1;
        }
        if self.sound > 0 {
            self.sound -= 1;
        }
    }

    /// The delay timer.
    pub fn get_delay(&self) -> (value: u8)
        ensures
            value == self.delay,
    {
        self.delay
    }

    /// Starts the delay timer at `value`.
    pub fn set_delay(&mut self, value: u8)
        ensures
            final(self).delay == value,
            final(self).sound == old(self).sound,
    {
        self.delay = value;
    }

    /// The sound timer.
    pub fn get_sound(&self) -> (value: u8)
        ensures
            value == self.sound,
    {
        self.sound
    }

    /// Starts the sound timer at `value`.
    pub fn set_sound(&mut self, value: u8)
        ensures
            final(self).sound == value,
            final(self).delay == old(self).delay,
    {
        self.sound = value;
    }
}

/// After `n` ticks a timer that started at `d` holds `d - n`, or zero once
/// `n` has reached `d`. The two timers count down independently.
pub proof fn lemma_ticks_count_down(timers: Timers, n: nat)
    ensures
        timers.ticked_n(n).delay == if timers.delay >= n { timers.delay - n } else { 0 },
        timers.ticked_n(n).sound == if timers.sound >= n { timers.sound - n } else { 0 },
    decreases n,
{
    if n > 0 {
        lemma_ticks_count_down(timers.ticked(), (n - 1) as nat);
    }
}

} // verus!

//! Step counters: the periodic waiter behind each spawn category, and the
//! frame clock that turns elapsed frames into simulation steps.

use vstd::prelude::*;

verus! {

/// A periodic timer: counts steps and fires once `update_freq` of them have
/// passed since it last fired.
#[derive(Clone, Copy, Debug, PartialEq, Eq, Structural)]
pub struct Waiter {
    pub frame: u32,
    pub update_freq: u32,
}

impl Waiter {
    /// The counter has not run past the period, except from zero.
    pub open spec fn wf(self) -> bool {
        self.frame < self.update_freq || self.frame == 0
    }

    /// Whether the next `tick` fires.
    pub open spec fn fires_next(self) -> bool {
        self.frame + 1 >= self.update_freq
    }

    /// The waiter after one `tick`.
    pub open spec fn ticked(self) -> Waiter {
        Waiter {
            frame: if self.fires_next() {
                0
            } else {
                (self.frame + 1) as u32
            },
            update_freq: self.update_freq,
        }
    }

    /// A waiter that fires every `update_freq` steps.
    pub fn new(update_freq: u32) -> (w: Waiter)
        ensures
            w.frame == 0,
            w.update_freq == update_freq,
            w.wf(),
    {
        Waiter { frame: 0, update_freq }
    }

    /// Counts one step.
    pub fn next_frame(&mut self)
        requires
            old(self).frame < u32::MAX,
        ensures
            final(self).frame == old(self).frame + 1,
            final(self).update_freq == old(self).update_freq,
    {
        self.frame = self.frame + 1;
    }

    /// Whether the period has been reached; if so the counter starts again.
    pub fn time_to_update(&mut self) -> (r: bool)
        ensures
            r == (old(self).frame >= old(self).update_freq),
            final(self).frame == (if r {
                0
            } else {
                old(self).frame
            }),
            final(self).update_freq == old(self).update_freq,
    {
        if self.frame >= self.update_freq {
            self.frame = 0;
            true
        } else {
            false
        }
    }

    /// Counts one step and reports whether the waiter fired.
    pub fn tick(&mut self) -> (fired: bool)
        requires
            old(self).wf(),
        ensures
            fired == old(self).fires_next(),
            *final(self) == old(self).ticked(),
            final(self).wf(),
    {
        self.next_frame();
        self.time_to_update()
    }
}

/// Frames that a step waits for, where `delay` is given in hundredths of a
/// frame: the delay rounded up.
pub open spec fn frames_for(delay: u64) -> int {
    (delay as int + 99) / 100
}

/// Largest frame counter that a clock reaches.
pub open spec fn frame_bound() -> int {
    u64::MAX as int / 100 + 1
}

/// The clock of the simulation and the spawn categories' waiters.
///
/// `frame` counts the frames since the last step; a step is due once it
/// reaches `frame_delay`, given in hundredths of a frame and rounded up.
#[derive(Clone, Copy, Debug, PartialEq, Eq, Structural)]
pub struct FrameData {
    pub frame: u64,
    pub frame_delay: u64,
    pub bb_waiter: Waiter,
    pub ga_waiter: Waiter,
    pub or_waiter: Waiter,
    pub sw_waiter: Waiter,
}

impl FrameData {
    pub open spec fn wf(self) -> bool {
        &&& self.frame <= frame_bound()
        &&& self.bb_waiter.wf()
        &&& self.ga_waiter.wf()
        &&& self.or_waiter.wf()
        &&& self.sw_waiter.wf()
    }

    /// A clock at `frame_delay`, with waiters of the given periods.
    pub fn new(frame_delay: u64, bb_freq: u32, ga_freq: u32, or_freq: u32, sw_freq: u32) -> (f:
        FrameData)
        ensures
            f.wf(),
            f.frame == 0,
            f.frame_delay == frame_delay,
            f.bb_waiter == (Waiter { frame: 0, update_freq: bb_freq }),
            f.ga_waiter == (Waiter { frame: 0, update_freq: ga_freq }),
            f.or_waiter == (Waiter { frame: 0, update_freq: or_freq }),
            f.sw_waiter == (Waiter { frame: 0, update_freq: sw_freq }),
    {
        FrameData {
            frame: 0,
            frame_delay,
            bb_waiter: Waiter::new(bb_freq),
            ga_waiter: Waiter::new(ga_freq),
            or_waiter: Waiter::new(or_freq),
            sw_waiter: Waiter::new(sw_freq),
        }
    }

    /// Counts one frame.
    pub fn next_frame(&mut self)
        requires
            old(self).frame < u64::MAX,
        ensures
            *final(self) == (FrameData { frame: (old(self).frame + 1) as u64, ..*old(self) }),
    {
        self.frame = self.frame + 1;
    }

    /// Whether a step is due; if so the frame count starts again.
    pub fn time_to_update(&mut self) -> (r: bool)
        requires
            old(self).frame <= frame_bound() + 1,
        ensures
            r == (old(self).frame >= frames_for(old(self).frame_delay)),
            *final(self) == (FrameData {
                frame: if r {
                    0
                } else {
                    old(self).frame
                },
                ..*old(self)
            }),
            final(self).frame <= frame_bound(),
    {
        let whole = self.frame_delay / 100 + if self.frame_delay % 100 > 0 {
            1
        } else {
            0
        };
        assert(whole == frames_for(self.frame_delay));
        if self.frame >= whole {
            self.frame = 0;
            true
        } else {
            false
        }
    }

    /// Multiplies the delay by `percent` / 100, rounding down, but not below
    /// `floor`.
    pub fn speed_up(&mut self, percent: u64, floor: u64)
        requires
            percent <= 100,
        ensures
            *final(self) == (FrameData {
                frame_delay: sped_up(old(self).frame_delay, percent, floor),
                ..*old(self)
            }),
    {
        let d = self.frame_delay as u128;
        let p = percent as u128;
        assert(d * p <= d * 100 && d * 100 <= u64::MAX * 100) by (nonlinear_arith)
            requires
                p <= 100,
                d <= u64::MAX,
        ;
        let scaled128 = d * p / 100;
        assert(scaled128 <= d) by (nonlinear_arith)
            requires
                scaled128 == d * p / 100,
                d * p <= d * 100,
        ;
        let scaled = scaled128 as u64;
        self.frame_delay = if scaled > floor {
            scaled
        } else {
            floor
        };
    }

    /// Adds `increase` to the delay, stopping at the largest `u64`.
    pub fn slow_down(&mut self, increase: u64)
        ensures
            *final(self) == (FrameData {
                frame_delay: slowed_down(old(self).frame_delay, increase),
                ..*old(self)
            }),
    {
        self.frame_delay = self.frame_delay.saturating_add(increase);
    }
}

/// The delay after a speed-up by `percent`, bounded below by `floor`.
pub open spec fn sped_up(delay: u64, percent: u64, floor: u64) -> u64 {
    let scaled = (delay as int) * (percent as int) / 100;
    if scaled > floor {
        scaled as u64
    } else {
        floor
    }
}

/// The delay after a slow-down by `increase`.
pub open spec fn slowed_down(delay: u64, increase: u64) -> u64 {
    if delay + increase > u64::MAX {
        u64::MAX
    } else {
        (delay + increase) as u64
    }
}

} // verus!

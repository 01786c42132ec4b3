//! The periodic task that feeds the transmission engine: it supplies each
//! frame's colors and re-arms itself one period after its *previously
//! scheduled* time — never after the completion time — so the cycle keeps
//! phase and no drift accumulates beyond a single period.

use vstd::prelude::*;

use crate::pixel::wheel;
use crate::pixel::wheel_spec;
use crate::pixel::Pixel;

verus! {

/// The wheel position of pixel `i` in a frame whose animation is at `hue`:
/// the hue advanced by the pixel's index, wrapped to a byte.
pub open spec fn hue_at(hue: u8, i: int) -> u8 {
    ((hue + i) % 256) as u8
}

/// State of the periodic animation task: the cycle-count period, the
/// cycle count of the most recent scheduled activation, and the animation
/// position the next frame starts from.
pub struct Scheduler {
    /// Cycle count between two scheduled activations.
    pub period: u64,
    /// Cycle count the current activation was scheduled for.
    pub scheduled: u64,
    /// Wheel position of the first pixel of the next frame.
    pub hue: u8,
}

impl Scheduler {
    /// A task first scheduled at `start`, re-armed every `period` cycles.
    pub fn new(start: u64, period: u64) -> (s: Scheduler)
        ensures
            s.period == period,
            s.scheduled == start,
            s.hue == 0u8,
    {
        Scheduler { period, scheduled: start, hue: 0 }
    }

    /// The colors of the next frame: pixel `i` takes the wheel color at the
    /// current hue advanced by `i`, wrapping as a byte.
    pub fn frame_colors(&self, led_count: usize) -> (v: Vec<Pixel>)
        ensures
            v@.len() == led_count,
            forall|i: int| 0 <= i < led_count ==> v@[i] == wheel_spec(hue_at(self.hue, i)),
    {
        let mut v: Vec<Pixel> = Vec::new();
        let mut pos: u8 = self.hue;
        while v.len() < led_count
            invariant
                v@.len() <= led_count,
                pos == hue_at(self.hue, v@.len() as int),
                forall|i: int| 0 <= i < v@.len() ==> v@[i] == wheel_spec(hue_at(self.hue, i)),
            decreases led_count - v@.len(),
        {
            v.push(wheel(pos));
            proof {
                lemma_hue_at_step(self.hue, v@.len() as int - 1);
            }
            pos = if pos == 255 {
                0
            } else {
                pos + 1
            };
        }
        v
    }

    /// Advance the animation by one step for the next frame.
    pub fn advance(&mut self)
        ensures
            final(self).hue == hue_at(old(self).hue, 1),
            final(self).period == old(self).period,
            final(self).scheduled == old(self).scheduled,
    {
        self.hue = if self.hue == 255 {
            0
        } else {
            self.hue + 1
        };
        proof {
            lemma_hue_at_step(old(self).hue, 0);
        }
    }

    /// Re-arm the task for its next activation, exactly one period after the
    /// time the current activation was *scheduled* for. The completion time
    /// of the frame just transmitted plays no part, so a slow transfer delays
    /// one activation but never shifts the schedule. The bound is the machine
    /// limit of the cycle counter.
    pub fn rearm(&mut self)
        requires
            old(self).scheduled + old(self).period <= u64::MAX,
        ensures
            final(self).scheduled == old(self).scheduled + old(self).period,
            final(self).period == old(self).period,
            final(self).hue == old(self).hue,
    {
        self.scheduled = self.scheduled + self.period;
    }
}

/// Cycle count of the `k`-th activation of a task first scheduled at
/// `start`: every re-arm adds exactly one period to the previously
/// scheduled time.
pub open spec fn activation_time(start: u64, period: u64, k: nat) -> int {
    start + k * period
}

/// The schedule keeps phase: each activation stands exactly one period
/// after the one before it, so however late any one frame completed, the
/// `k`-th activation is still `start + k * period` and no drift accumulates
/// across activations.
pub proof fn lemma_schedule_keeps_phase(start: u64, period: u64, k: nat)
    ensures
        activation_time(start, period, k + 1) == activation_time(start, period, k) + period,
{
    assert((k + 1) * period == k * period + period) by (nonlinear_arith);
}

/// Advancing one pixel advances the wheel position by one, wrapping.
proof fn lemma_hue_at_step(hue: u8, i: int)
    requires
        0 <= i,
    ensures
        hue_at(hue, i + 1) == if hue_at(hue, i) == 255 {
            0u8
        } else {
            (hue_at(hue, i) + 1) as u8
        },
{
    let t = hue + i;
    assert(t >= 0);
    assert((t + 1) % 256 == if t % 256 == 255 {
        0int
    } else {
        t % 256 + 1
    }) by (nonlinear_arith)
        requires
            t >= 0,
    ;
}

} // verus!

use vstd::prelude::*;

verus! {

/// What the frame callback asks of the loop that drives it.
#[derive(Clone, Copy, Debug, PartialEq, Eq, Structural)]
pub enum Action {
    Stop,
    Continue,
}

/// Nanoseconds in a millisecond.
pub const NANOS_PER_MILLI: u64 = 1_000_000;

/// The state of a frame loop that runs at a fixed time step: the step, the
/// time carried over that did not fill a step, the clock reading at the last
/// frame, and the number of frames run. All times are in nanoseconds.
#[derive(Clone, Copy, Debug, PartialEq, Eq, Structural)]
pub struct FrameLoop {
    pub time_stamp: u64,
    pub accumulator: u64,
    pub previous_clock: u64,
    pub frame: u32,
}

/// The pause before the next frame, in milliseconds: what is left of the time
/// step, cut to its low 32 bits.
pub open spec fn pause_of(time_stamp: u64, accumulator: u64) -> u32 {
    (((time_stamp - accumulator) / 1_000_000) as u64) as u32
}

/// Reads the clock through `clock_ticks::precise_time_ns`: the nanoseconds
/// since a moment that is not specified. Nothing is claimed of the number: it
/// is the time of the system, which may be set back between two readings.
/// The count is made in 64 bits from the seconds since 1970, which fit as
/// nanoseconds for some five hundred years more.
#[verifier::external_body]
fn clock_now() -> (now: u64) {
    clock_ticks::precise_time_ns()
}

impl FrameLoop {
    /// Whether the carried time is less than a step, which is not zero.
    pub open spec fn wf(&self) -> bool {
        self.accumulator < self.time_stamp
    }

    /// Whether the next frame can be taken at clock reading `now`: the clock
    /// has not gone back, and neither the carried time nor the frame count
    /// would leave its range.
    pub open spec fn can_advance(&self, now: u64) -> bool {
        &&& now >= self.previous_clock
        &&& self.accumulator + (now - self.previous_clock) <= u64::MAX
        &&& self.frame < u32::MAX
    }

    /// A loop of the given time step that starts at clock reading `now`.
    pub fn new(time_stamp: u64, now: u64) -> (r: FrameLoop)
        requires
            time_stamp > 0,
        ensures
            r == (FrameLoop { time_stamp, accumulator: 0, previous_clock: now, frame: 0 }),
            r.wf(),
    {
        FrameLoop { time_stamp, accumulator: 0, previous_clock: now, frame: 0 }
    }

    /// A loop of the given time step that starts now, by the clock.
    pub fn start(time_stamp: u64) -> (r: FrameLoop)
        requires
            time_stamp > 0,
        ensures
            r.time_stamp == time_stamp,
            r.accumulator == 0,
            r.frame == 0,
            r.wf(),
    {
        FrameLoop::new(time_stamp, clock_now())
    }

    /// Reads the clock for the next frame. Gives the reading where the frame
    /// can be taken at it, and `None` where it cannot: the clock has gone
    /// back, or the carried time or the frame count would leave its range.
    pub fn begin_frame(&self) -> (r: Option<u64>)
        ensures
            exists|now: u64| r == #[trigger] self.taken_at(now),
            r is Some ==> self.can_advance(r->0),
    {
        let now: u64 = clock_now();
        let r = self.take_reading(now);
        assert(r == self.taken_at(now));
        r
    }

    /// The time since the last frame, at clock reading `now`.
    pub fn elapsed(&self, now: u64) -> (dt: u64)
        requires
            now >= self.previous_clock,
        ensures
            dt == now - self.previous_clock,
    {
        now - self.previous_clock
    }

    /// What a clock reading gives the next frame: the reading itself where
    /// the frame can be taken at it, and nothing where it cannot.
    pub open spec fn taken_at(&self, now: u64) -> Option<u64> {
        if self.can_advance(now) {
            Some(now)
        } else {
            None
        }
    }

    /// Takes a clock reading for the next frame: gives it back where the
    /// frame can be taken at it, and `None` where the clock has gone back or
    /// the carried time or the frame count would leave its range.
    pub fn take_reading(&self, now: u64) -> (r: Option<u64>)
        ensures
            r == self.taken_at(now),
    {
        if self.ready(now) {
            Some(now)
        } else {
            None
        }
    }

    /// Whether `advance` may be called at clock reading `now`.
    pub fn ready(&self, now: u64) -> (r: bool)
        ensures
            r == self.can_advance(now),
    {
        now >= self.previous_clock && self.accumulator <= u64::MAX - (now - self.previous_clock)
            && self.frame < u32::MAX
    }

    /// Takes the answer of the frame that ran at clock reading `now`. On
    /// `Stop` the loop ends: nothing changes and there is no pause. On
    /// `Continue` the frame is counted, the time since the last frame is
    /// added to the carried time, whole steps are taken out of it, and the
    /// result is the pause before the next frame, in milliseconds.
    pub fn advance(&mut self, now: u64, action: Action) -> (pause: Option<u32>)
        requires
            old(self).wf(),
            old(self).can_advance(now),
        ensures
            final(self).wf(),
            final(self).time_stamp == old(self).time_stamp,
            action == Action::Stop ==> pause is None && *final(self) == *old(self),
            action == Action::Continue ==> {
                &&& final(self).frame == old(self).frame + 1
                &&& final(self).previous_clock == now
                &&& final(self).accumulator == (old(self).accumulator + (now
                    - old(self).previous_clock)) % (old(self).time_stamp as int)
                &&& pause == Some(pause_of(final(self).time_stamp, final(self).accumulator))
                &&& (final(self).time_stamp - final(self).accumulator) / 1_000_000 <= u32::MAX
                    ==> pause->0 == (final(self).time_stamp - final(self).accumulator) / 1_000_000
            },
    {
        match action {
            Action::Stop => None,
            Action::Continue => {
                let dt: u64 = now - self.previous_clock;
                self.frame = self.frame + 1;
                self.accumulator = (self.accumulator + dt) % self.time_stamp;
                self.previous_clock = now;
                let rest: u64 = (self.time_stamp - self.accumulator) / NANOS_PER_MILLI;
                Some(#[verifier::truncate] (rest as u32))
            },
        }
    }
}

} // verus!

//! The clock of the main loop: periodic triggers for simulation steps, for
//! frames and for the refresh of the displayed rates. Time is a count of
//! nanoseconds on a clock that does not run backwards.

use vstd::prelude::*;
use vstd::arithmetic::div_mod::{lemma_fundamental_div_mod, lemma_mod_bound, lemma_div_pos_is_pos};

verus! {

/// Nanoseconds in a second.
pub const NANOS_PER_SECOND: u64 = 1_000_000_000;

/// The update trigger fires once more than this has passed: a sixtieth of a
/// second, in whole nanoseconds.
pub const UPDATE_PERIOD: u64 = 16_666_666;

/// The displayed rates are refreshed once more than this has passed: half a
/// second.
pub const STATUS_PERIOD: u64 = 500_000_000;

/// A periodic trigger: it fires when more than `period` has passed since the
/// reference time `last`. A period of zero fires at every poll.
#[derive(Copy, Clone, Debug, PartialEq, Eq, Structural)]
pub struct Trigger {
    pub period: u64,
    pub last: u64,
}

impl Trigger {
    /// Time passed since the reference time.
    pub open spec fn elapsed(self, now: u64) -> u64 {
        if now >= self.last {
            (now - self.last) as u64
        } else {
            0
        }
    }

    /// Whether a poll at `now` fires.
    pub open spec fn due(self, now: u64) -> bool {
        self.period == 0 || self.elapsed(now) > self.period
    }

    /// The trigger after a poll at `now`: when it fires, the reference time
    /// moves on by the time that has passed.
    pub open spec fn after(self, now: u64) -> Trigger {
        if self.due(now) {
            Trigger { last: (self.last + self.elapsed(now)) as u64, ..self }
        } else {
            self
        }
    }

    /// What a poll at `now` returns: the time passed, if it fires.
    pub open spec fn fired(self, now: u64) -> Option<u64> {
        if self.due(now) {
            Some(self.elapsed(now))
        } else {
            None
        }
    }

    /// A trigger with the given period whose reference time is `start`.
    pub fn new(period: u64, start: u64) -> (t: Trigger)
        ensures
            t == (Trigger { period, last: start }),
    {
        Trigger { period, last: start }
    }

    /// Whether a poll at `now` would fire.
    pub fn is_due(&self, now: u64) -> (due: bool)
        ensures
            due == self.due(now),
    {
        let elapsed: u64 = if now >= self.last {
            now - self.last
        } else {
            0
        };
        self.period == 0 || elapsed > self.period
    }

    /// Polls the trigger at `now`. When it fires, returns the time passed
    /// since the reference time and moves the reference time on by it.
    pub fn poll(&mut self, now: u64) -> (fired: Option<u64>)
        ensures
            fired == old(self).fired(now),
            *final(self) == old(self).after(now),
    {
        let elapsed: u64 = if now >= self.last {
            now - self.last
        } else {
            0
        };
        if self.period == 0 || elapsed > self.period {
            self.last = self.last + elapsed;
            Some(elapsed)
        } else {
            None
        }
    }
}

/// `count` events in `elapsed` nanoseconds as a rate in hundredths of a hertz,
/// rounded to the nearest hundredth, a half rounded up. Meant for
/// `elapsed > 0`.
pub open spec fn rate(count: int, elapsed: int) -> int {
    (2 * count * 100 * NANOS_PER_SECOND + elapsed) / (2 * elapsed)
}

/// The rate of `count` events in `elapsed` nanoseconds, in hundredths of a
/// hertz.
pub fn rate_of(count: u64, elapsed: u64) -> (r: u128)
    requires
        elapsed > 0,
    ensures
        r == rate(count as int, elapsed as int),
{
    let scaled: u128 = 2 * (count as u128) * 100 * (NANOS_PER_SECOND as u128);
    let r: u128 = (scaled + elapsed as u128) / (2 * (elapsed as u128));
    proof {
        let x = 2 * count * 100 * NANOS_PER_SECOND + elapsed;
        let d = 2 * elapsed;
        lemma_div_pos_is_pos(x, d);
        lemma_fundamental_div_mod(x, d);
        lemma_mod_bound(x, d);
    }
    r
}

/// What a scheduler holds: the three triggers, the frames drawn since the
/// displayed rates were last refreshed, and the update rate measured at the
/// last update, in hundredths of a hertz.
pub struct SchedulerView {
    pub render: Trigger,
    pub update: Trigger,
    pub status: Trigger,
    pub frames: u64,
    pub ups: u128,
}

/// What the render trigger asks for at one poll.
#[derive(Copy, Clone, Debug, PartialEq, Eq, Structural)]
pub enum RenderTick {
    /// No frame is due.
    Wait,
    /// A frame is due.
    Draw,
    /// A frame is due, and after it the displayed rates are refreshed; `fps`
    /// is the frame rate since the last refresh, in hundredths of a hertz.
    DrawAndRefresh { fps: u128 },
}

impl SchedulerView {
    /// The update period and the refresh period are fixed.
    pub open spec fn wf(self) -> bool {
        self.update.period == UPDATE_PERIOD && self.status.period == STATUS_PERIOD
    }

    /// A scheduler started at `start` with the given frame period: all three
    /// triggers count from `start`, no frame is counted and no rate measured.
    pub open spec fn started(frame_period: u64, start: u64) -> SchedulerView {
        SchedulerView {
            render: Trigger { period: frame_period, last: start },
            update: Trigger { period: UPDATE_PERIOD, last: start },
            status: Trigger { period: STATUS_PERIOD, last: start },
            frames: 0,
            ups: 0,
        }
    }

    /// The scheduler after the update trigger has been polled at `now`. When
    /// it fires, the update rate is one update in the time that has passed.
    pub open spec fn after_update_poll(self, now: u64) -> SchedulerView {
        SchedulerView {
            update: self.update.after(now),
            ups: if self.update.due(now) {
                rate(1, self.update.elapsed(now) as int) as u128
            } else {
                self.ups
            },
            ..self
        }
    }

    /// What a poll of the render trigger at `now` asks for.
    pub open spec fn render_tick(self, now: u64) -> RenderTick {
        if !self.render.due(now) {
            RenderTick::Wait
        } else if self.status.due(now) {
            RenderTick::DrawAndRefresh {
                fps: rate(self.frames as int, self.status.elapsed(now) as int) as u128,
            }
        } else {
            RenderTick::Draw
        }
    }

    /// The scheduler after the render trigger has been polled at `now`. At a
    /// frame the refresh trigger is polled too: when it fires the frame count
    /// starts again from zero, otherwise the frame is counted.
    pub open spec fn after_render_poll(self, now: u64) -> SchedulerView {
        if !self.render.due(now) {
            self
        } else {
            SchedulerView {
                render: self.render.after(now),
                status: self.status.after(now),
                frames: if self.status.due(now) {
                    0
                } else if self.frames < u64::MAX {
                    (self.frames + 1) as u64
                } else {
                    self.frames
                },
                ..self
            }
        }
    }

    /// The scheduler after one pass of the loop at `now`: the update trigger is
    /// polled first, then the render trigger.
    pub open spec fn after_pass(self, now: u64) -> SchedulerView {
        self.after_update_poll(now).after_render_poll(now)
    }

    /// How often the update trigger fires in passes of the loop at the given
    /// times.
    pub open spec fn updates_in(self, times: Seq<u64>) -> nat
        decreases times.len(),
    {
        if times.len() == 0 {
            0
        } else {
            let first: nat = if self.update.due(times[0]) {
                1
            } else {
                0
            };
            first + self.after_pass(times[0]).updates_in(times.skip(1))
        }
    }

    /// How often the render trigger fires in passes of the loop at the given
    /// times.
    pub open spec fn frames_in(self, times: Seq<u64>) -> nat
        decreases times.len(),
    {
        if times.len() == 0 {
            0
        } else {
            let first: nat = if self.render.due(times[0]) {
                1
            } else {
                0
            };
            first + self.after_pass(times[0]).frames_in(times.skip(1))
        }
    }
}

/// The update cadence does not depend on the render rate: two schedulers
/// with the same update trigger fire the same number of updates over the same
/// passes of the loop, whatever their render triggers and frame counts are.
pub proof fn lemma_updates_independent_of_render(
    a: SchedulerView,
    b: SchedulerView,
    times: Seq<u64>,
)
    requires
        a.update == b.update,
    ensures
        a.updates_in(times) == b.updates_in(times),
    decreases times.len(),
{
    if times.len() > 0 {
        lemma_updates_independent_of_render(
            a.after_pass(times[0]),
            b.after_pass(times[0]),
            times.skip(1),
        );
    }
}

/// The render cadence does not depend on the update trigger: two schedulers
/// with the same render trigger draw the same number of frames over the same
/// passes of the loop, whatever their update triggers are.
pub proof fn lemma_frames_independent_of_update(
    a: SchedulerView,
    b: SchedulerView,
    times: Seq<u64>,
)
    requires
        a.render == b.render,
    ensures
        a.frames_in(times) == b.frames_in(times),
    decreases times.len(),
{
    if times.len() > 0 {
        lemma_frames_independent_of_update(
            a.after_pass(times[0]),
            b.after_pass(times[0]),
            times.skip(1),
        );
    }
}

/// The update trigger fires only after more than the update period has
/// passed, so the rate measured at an update never exceeds sixty hertz and
/// the time that it divides by is never zero.
pub proof fn lemma_update_rate_bound(s: SchedulerView, now: u64)
    requires
        s.wf(),
        s.update.due(now),
    ensures
        s.update.elapsed(now) > UPDATE_PERIOD,
        0 <= rate(1, s.update.elapsed(now) as int) <= 6000,
{
    let e = s.update.elapsed(now) as int;
    let x = 2 * 1 * 100 * NANOS_PER_SECOND + e;
    let d = 2 * e;
    lemma_fundamental_div_mod(x, d);
    lemma_mod_bound(x, d);
    lemma_div_pos_is_pos(x, d);
    let q = x / d;
    if q > 6000 {
        assert(d * q >= d * 6001) by (nonlinear_arith)
            requires
                q >= 6001,
                d > 0,
        ;
    }
}

/// The clock of the main loop.
pub struct Scheduler {
    render: Trigger,
    update: Trigger,
    status: Trigger,
    frames: u64,
    ups: u128,
}

impl View for Scheduler {
    type V = SchedulerView;

    closed spec fn view(&self) -> SchedulerView {
        SchedulerView {
            render: self.render,
            update: self.update,
            status: self.status,
            frames: self.frames,
            ups: self.ups,
        }
    }
}

impl Scheduler {
    /// The update period and the refresh period never change.
    #[verifier::type_invariant]
    pub open spec fn inv(self) -> bool {
        self@.wf()
    }

    /// A scheduler started at `start` that draws a frame once more than
    /// `frame_period` has passed since the last one; with a frame period of
    /// zero it draws at every pass of the loop.
    pub fn new(frame_period: u64, start: u64) -> (s: Scheduler)
        ensures
            s@ == SchedulerView::started(frame_period, start),
            s@.wf(),
    {
        Scheduler {
            render: Trigger::new(frame_period, start),
            update: Trigger::new(UPDATE_PERIOD, start),
            status: Trigger::new(STATUS_PERIOD, start),
            frames: 0,
            ups: 0,
        }
    }

    /// The update rate measured at the last update, in hundredths of a hertz.
    pub fn ups(&self) -> (ups: u128)
        ensures
            ups == self@.ups,
    {
        self.ups
    }

    /// Whether an update is due at `now`.
    pub fn update_due(&self, now: u64) -> (due: bool)
        ensures
            due == self@.update.due(now),
    {
        self.update.is_due(now)
    }

    /// Whether a frame is due at `now`.
    pub fn render_due(&self, now: u64) -> (due: bool)
        ensures
            due == self@.render.due(now),
    {
        self.render.is_due(now)
    }

    /// Polls the update trigger at `now` and says whether an update is due.
    /// When it is, the update rate is measured anew. The render trigger is
    /// left alone.
    pub fn poll_update(&mut self, now: u64) -> (due: bool)
        ensures
            due == old(self)@.update.due(now),
            final(self)@ == old(self)@.after_update_poll(now),
    {
        proof {
            use_type_invariant(&*self);
            if self@.update.due(now) {
                lemma_update_rate_bound(self@, now);
            }
        }
        let mut update: Trigger = self.update;
        match update.poll(now) {
            Some(elapsed) => {
                self.update = update;
                self.ups = rate_of(1, elapsed);
                true
            },
            None => false,
        }
    }

    /// Polls the render trigger at `now` and says whether a frame is due, and
    /// whether the displayed rates are to be refreshed after it. The update
    /// trigger is left alone.
    pub fn poll_render(&mut self, now: u64) -> (tick: RenderTick)
        ensures
            tick == old(self)@.render_tick(now),
            final(self)@ == old(self)@.after_render_poll(now),
    {
        proof {
            use_type_invariant(&*self);
        }
        let mut render: Trigger = self.render;
        match render.poll(now) {
            None => RenderTick::Wait,
            Some(_) => {
                self.render = render;
                let mut status: Trigger = self.status;
                match status.poll(now) {
                    Some(elapsed) => {
                        let fps: u128 = rate_of(self.frames, elapsed);
                        self.status = status;
                        self.frames = 0;
                        RenderTick::DrawAndRefresh { fps }
                    },
                    None => {
                        if self.frames < u64::MAX {
                            self.frames = self.frames + 1;
                        }
                        RenderTick::Draw
                    },
                }
            },
        }
    }
}

} // verus!

//! The engine: what one pass of the main loop does to the world. An update
//! applies the input of the pass and steps the simulation; a frame reads the
//! world into a render queue and keeps the displayed rates fresh. The two
//! follow triggers of their own.

use vstd::prelude::*;
use crate::input::{is_quit, Event, Key, MouseButton};
use crate::render::{frame_requests, render_queue, RenderData};
use crate::schedule::{RenderTick, Scheduler, SchedulerView};
use crate::state::State;
use crate::stroke::{lemma_stroke_keeps_frame, Stroke, StrokeView};
use crate::text::{format_status, status_text, TextBlock};
use crate::world::{World, WorldView};

verus! {

/// Whether the loop goes on after an update.
#[derive(Copy, Clone, Debug, PartialEq, Eq, Structural)]
pub enum Control {
    Continue,
    Quit,
}

/// What an engine holds.
pub struct EngineView {
    pub world: WorldView,
    /// The status label of the world.
    pub label: TextBlock,
    pub stroke: StrokeView,
    pub clock: SchedulerView,
    /// Side of one cell on screen, in pixels.
    pub pixel_size: u32,
}

impl EngineView {
    /// Cells have a size, and every cell has a place on screen that can be
    /// written down.
    pub open spec fn wf(self) -> bool {
        &&& self.world.wf()
        &&& self.clock.wf()
        &&& self.pixel_size > 0
        &&& self.world.width * self.pixel_size <= usize::MAX
        &&& self.world.height * self.pixel_size <= usize::MAX
    }

    /// The engine after one event that does not end the loop. Space toggles
    /// the simulation state and E clears the grid, neither while the key is
    /// held; the left button begins and ends a stroke, and the pointer's moves
    /// extend it. No event paints by itself: painting is part of the step
    /// that follows the events.
    pub open spec fn after_event(self, event: Event) -> EngineView {
        match event {
            Event::KeyDown { key: Key::Space, repeat: false } => EngineView {
                world: self.world.toggled(),
                ..self
            },
            Event::KeyDown { key: Key::E, repeat: false } => EngineView {
                world: self.world.cleared(),
                ..self
            },
            Event::MouseButtonDown { x, y, button: MouseButton::Left } => EngineView {
                stroke: self.stroke.begun((x, y)),
                ..self
            },
            Event::MouseMotion { x, y } => EngineView {
                stroke: self.stroke.extended((x, y)),
                ..self
            },
            Event::MouseButtonUp { button: MouseButton::Left } => EngineView {
                stroke: StrokeView::idle(),
                ..self
            },
            _ => self,
        }
    }

    /// The engine after the events of one pass, taken in order up to the first
    /// that ends the loop, and whether there was one.
    pub open spec fn handled(self, events: Seq<Event>) -> (EngineView, bool)
        decreases events.len(),
    {
        if events.len() == 0 {
            (self, false)
        } else if is_quit(events[0]) {
            (self, true)
        } else {
            self.after_event(events[0]).handled(events.skip(1))
        }
    }

    /// The engine after the input of a pass has been applied: the pending
    /// samples of the stroke are painted, and then, only while playing, the
    /// world moves to the next generation.
    pub open spec fn stepped(self) -> EngineView {
        let painted = self.world.with_pending(self.stroke, self.pixel_size as int);
        EngineView {
            world: if painted.state == State::Playing {
                painted.next_generation()
            } else {
                painted
            },
            stroke: self.stroke.drained(),
            ..self
        }
    }

    /// The engine after an update at `now` with the events of the pass, and
    /// whether the loop goes on. Nothing happens unless the update trigger
    /// fires. An event that ends the loop ends the update at once: later
    /// events are not read, nothing is painted and no generation passes.
    pub open spec fn after_update(self, now: u64, events: Seq<Event>) -> (EngineView, Control) {
        if !self.clock.update.due(now) {
            (self, Control::Continue)
        } else {
            let polled = EngineView { clock: self.clock.after_update_poll(now), ..self };
            let (handled, quit) = polled.handled(events);
            if quit {
                (handled, Control::Quit)
            } else {
                (handled.stepped(), Control::Continue)
            }
        }
    }

    /// The render queue of a frame at `now`, if one is due: the world as it
    /// stands, with the label as it stands.
    pub open spec fn frame(self, now: u64) -> Option<Seq<RenderData>> {
        if self.clock.render.due(now) {
            Some(frame_requests(self.world, self.label, self.pixel_size as int))
        } else {
            None
        }
    }

    /// Whether `next` is this engine after the render trigger has been polled
    /// at `now`. World and stroke are only read. When the displayed rates are
    /// refreshed the label gets a new text, made of the update rate, the frame
    /// rate since the last refresh and the number of live cells.
    pub open spec fn rendered(self, now: u64, next: EngineView) -> bool {
        &&& next.world == self.world
        &&& next.stroke == self.stroke
        &&& next.pixel_size == self.pixel_size
        &&& next.clock == self.clock.after_render_poll(now)
        &&& match self.clock.render_tick(now) {
            RenderTick::DrawAndRefresh { fps } => {
                &&& next.label == (TextBlock { text: next.label.text, ..self.label })
                &&& next.label.text@ == status_text(
                    self.clock.ups as nat,
                    fps as nat,
                    self.world.live_count(),
                )
            },
            _ => next.label == self.label,
        }
    }
}

/// Input moves neither the clock nor the label: whatever the events of a pass
/// are, the triggers fire as they would have without them.
pub proof fn lemma_input_leaves_clock(e: EngineView, events: Seq<Event>)
    ensures
        e.handled(events).0.clock == e.clock,
        e.handled(events).0.label == e.label,
        e.handled(events).0.pixel_size == e.pixel_size,
        e.stepped().clock == e.clock,
        e.stepped().label == e.label,
        e.stepped().pixel_size == e.pixel_size,
    decreases events.len(),
{
    if events.len() > 0 && !is_quit(events[0]) {
        lemma_input_leaves_clock(e.after_event(events[0]), events.skip(1));
    }
}

/// The world, the stroke in progress and the clock of the main loop.
pub struct Engine {
    world: World,
    stroke: Stroke,
    clock: Scheduler,
    pixel_size: u32,
}

impl View for Engine {
    type V = EngineView;

    closed spec fn view(&self) -> EngineView {
        EngineView {
            world: self.world@,
            label: self.world.label(),
            stroke: self.stroke@,
            clock: self.clock@,
            pixel_size: self.pixel_size,
        }
    }
}

impl Engine {
    /// An engine for `world`, drawn with cells of `pixel_size` pixels, started
    /// at `start`, that draws a frame once more than `frame_period` has passed
    /// since the last; a frame period of zero draws at every pass.
    pub fn new(world: World, pixel_size: u32, frame_period: u64, start: u64) -> (engine: Engine)
        requires
            pixel_size > 0,
            world@.width * pixel_size <= usize::MAX,
            world@.height * pixel_size <= usize::MAX,
        ensures
            engine@.wf(),
            engine@.world == world@,
            engine@.label == world.label(),
            engine@.stroke == StrokeView::idle(),
            engine@.clock == SchedulerView::started(frame_period, start),
            engine@.pixel_size == pixel_size,
    {
        proof {
            use_type_invariant(&world);
        }
        let clock = Scheduler::new(frame_period, start);
        Engine { world, stroke: Stroke::new(), clock, pixel_size }
    }

    /// The world.
    pub fn world(&self) -> (world: &World)
        ensures
            world@ == self@.world,
            world.label() == self@.label,
    {
        &self.world
    }

    /// The stroke in progress.
    pub fn stroke(&self) -> (stroke: &Stroke)
        ensures
            stroke@ == self@.stroke,
    {
        &self.stroke
    }

    /// The clock.
    pub fn clock(&self) -> (clock: &Scheduler)
        ensures
            clock@ == self@.clock,
    {
        &self.clock
    }

    /// Side of one cell on screen, in pixels.
    pub fn pixel_size(&self) -> (size: u32)
        ensures
            size == self@.pixel_size,
    {
        self.pixel_size
    }

    /// Whether an update is due at `now`. Events are to be gathered for an
    /// update that is due, and for no other.
    pub fn update_due(&self, now: u64) -> (due: bool)
        ensures
            due == self@.clock.update.due(now),
    {
        self.clock.update_due(now)
    }

    /// Whether a frame is due at `now`.
    pub fn render_due(&self, now: u64) -> (due: bool)
        ensures
            due == self@.clock.render.due(now),
    {
        self.clock.render_due(now)
    }

    /// Takes one event. An event that ends the loop changes nothing and
    /// returns `Quit`.
    pub fn handle_event(&mut self, event: Event) -> (control: Control)
        requires
            old(self)@.wf(),
        ensures
            final(self)@.wf(),
            is_quit(event) ==> control == Control::Quit && final(self)@ == old(self)@,
            !is_quit(event) ==> control == Control::Continue && final(self)@ == old(
                self,
            )@.after_event(event),
    {
        match event {
            Event::Quit => {
                return Control::Quit;
            },
            Event::KeyDown { key: Key::Escape, .. } | Event::KeyDown { key: Key::Q, .. } => {
                return Control::Quit;
            },
            Event::KeyDown { key: Key::Space, repeat: false } => {
                self.world.toggle_state();
            },
            Event::KeyDown { key: Key::E, repeat: false } => {
                self.world.clear();
            },
            Event::MouseButtonDown { x, y, button: MouseButton::Left } => {
                self.stroke.begin(x, y);
            },
            Event::MouseMotion { x, y } => {
                self.stroke.extend(x, y);
            },
            Event::MouseButtonUp { button: MouseButton::Left } => {
                self.stroke.end();
            },
            _ => {},
        }
        Control::Continue
    }

    /// Applies the input of a pass: paints the pending samples of the stroke,
    /// then, only while playing, moves the world to the next generation.
    fn step(&mut self)
        requires
            old(self)@.wf(),
        ensures
            final(self)@.wf(),
            final(self)@ == old(self)@.stepped(),
    {
        proof {
            lemma_stroke_keeps_frame(
                self@.world,
                self@.stroke.last,
                self@.stroke.pending,
                self@.pixel_size as int,
            );
        }
        self.stroke.apply(&mut self.world, self.pixel_size);
        match self.world.state() {
            State::Playing => {
                self.world.update();
            },
            State::Paused => {},
        }
    }

    /// One update at `now` with the events gathered for this pass. Does
    /// nothing unless the update trigger fires. Then the update rate is
    /// measured and the events are taken in order; an event that ends the loop
    /// returns `Quit` at once. Otherwise the stroke is painted and, while
    /// playing, the world moves to the next generation.
    pub fn update(&mut self, now: u64, events: &Vec<Event>) -> (control: Control)
        requires
            old(self)@.wf(),
        ensures
            final(self)@.wf(),
            (final(self)@, control) == old(self)@.after_update(now, events@),
    {
        if !self.clock.poll_update(now) {
            return Control::Continue;
        }
        let ghost polled = self@;
        let mut i: usize = 0;
        proof {
            assert(polled == (EngineView {
                clock: old(self)@.clock.after_update_poll(now),
                ..old(self)@
            }));
            assert(events@.skip(0) =~= events@);
        }
        while i < events.len()
            invariant
                i <= events.len(),
                self@.wf(),
                old(self)@.clock.update.due(now),
                polled == (EngineView {
                    clock: old(self)@.clock.after_update_poll(now),
                    ..old(self)@
                }),
                polled.handled(events@) == self@.handled(events@.skip(i as int)),
            decreases events.len() - i,
        {
            let event: Event = events[i];
            proof {
                assert(events@.skip(i as int)[0] == event);
                assert(events@.skip(i as int).skip(1) =~= events@.skip(i + 1));
            }
            match self.handle_event(event) {
                Control::Quit => {
                    return Control::Quit;
                },
                Control::Continue => {},
            }
            i = i + 1;
        }
        self.step();
        Control::Continue
    }

    /// One frame at `now`, if one is due: the render queue of the world as it
    /// stands. After the queue is built the frame is counted or, when the
    /// displayed rates are due for a refresh, the label gets its new text.
    pub fn render(&mut self, now: u64) -> (rendq: Option<Vec<RenderData>>)
        requires
            old(self)@.wf(),
        ensures
            final(self)@.wf(),
            old(self)@.rendered(now, final(self)@),
            match rendq {
                Some(q) => Some(q@) == old(self)@.frame(now),
                None => old(self)@.frame(now) is None,
            },
    {
        if !self.clock.render_due(now) {
            return None;
        }
        let rendq: Vec<RenderData> = render_queue(&self.world, self.pixel_size);
        match self.clock.poll_render(now) {
            RenderTick::DrawAndRefresh { fps } => {
                let alive: usize = self.world.num_alive();
                let text: String = format_status(self.clock.ups(), fps, alive);
                self.world.set_status(text);
            },
            _ => {},
        }
        Some(rendq)
    }

    /// One pass of the main loop at `now`: the update, if one is due, and then
    /// the frame, if one is due, so that a frame always shows the world as the
    /// update of the same pass left it. A pass that ends the loop draws no
    /// frame. `events` are the events gathered for the update.
    pub fn pass(&mut self, now: u64, events: &Vec<Event>) -> (out: (
        Control,
        Option<Vec<RenderData>>,
    ))
        requires
            old(self)@.wf(),
        ensures
            final(self)@.wf(),
            out.0 == old(self)@.after_update(now, events@).1,
            out.0 == Control::Quit ==> out.1 is None && final(self)@ == old(self)@.after_update(
                now,
                events@,
            ).0,
            out.0 == Control::Continue ==> {
                let updated = old(self)@.after_update(now, events@).0;
                &&& final(self)@.clock == old(self)@.clock.after_pass(now)
                &&& updated.rendered(now, final(self)@)
                &&& match out.1 {
                    Some(q) => Some(q@) == updated.frame(now),
                    None => updated.frame(now) is None,
                }
            },
    {
        proof {
            let polled = EngineView { clock: self@.clock.after_update_poll(now), ..self@ };
            lemma_input_leaves_clock(polled, events@);
            lemma_input_leaves_clock(polled.handled(events@).0, events@);
        }
        match self.update(now, events) {
            Control::Quit => (Control::Quit, None),
            Control::Continue => {
                let rendq = self.render(now);
                (Control::Continue, rendq)
            },
        }
    }
}

} // verus!

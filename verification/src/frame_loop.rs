//! The frame loop as a machine: each event that the outside reports is
//! answered with the next thing to do.
//!
//! One frame runs through these steps. The roles are exchanged and the list
//! of the display set is handed to the hardware. While it is in flight the
//! draw set is emptied and the caller builds the next scene in it. Then the
//! loop waits for the hardware to finish drawing, waits for the vertical
//! blank, and shows the other frame buffer.
//!
//! The loop owns both buffer sets. It hands out the draw set for writing
//! only while a scene is being built, and the display set never: what the
//! hardware reads in one frame is what the frame before built.

use crate::graphics::{get_disp_and_draw, GraphicsEnv, GraphicsState};
use crate::packet::PacketRef;
use vstd::prelude::*;

verus! {

/// Why the loop stopped.
#[derive(Clone, Copy, Debug, PartialEq, Eq, Structural)]
pub enum FrameError {
    /// The video setup failed before the first frame.
    InitFailed,
    /// The hardware reported a failed transfer.
    TransferFailed,
}

/// Where the loop stands.
#[derive(Clone, Copy, Debug, PartialEq, Eq, Structural)]
pub enum Phase {
    /// The video setup has not been reported yet.
    Starting,
    /// The display list is in flight and the draw table is being cleared.
    InFlight,
    /// The draw set is empty and the caller builds the scene in it.
    Building,
    /// The scene is built; the hardware may still be drawing.
    AwaitDrawSync,
    /// The hardware has finished drawing; the vertical blank is awaited.
    AwaitVblank,
    /// The frame buffers are being exchanged on screen.
    AwaitPresent,
    /// The loop has stopped for good.
    Stopped(FrameError),
}

/// What the outside reports.
#[derive(Clone, Copy, Debug, PartialEq, Eq, Structural)]
pub enum FrameEvent {
    /// The video setup succeeded.
    Initialized,
    /// The video setup failed.
    InitFailed,
    /// The draw table was cleared by the hardware.
    TableCleared,
    /// A transfer failed.
    TransferFailed,
    /// The caller has built the scene in the draw set.
    SceneBuilt,
    /// The hardware finished drawing the list it was given.
    DrawSynced,
    /// The vertical blank began.
    Vblank,
    /// The other frame buffer is on screen.
    Presented,
}

/// What to do next.
#[derive(Clone, Copy, Debug, PartialEq, Eq, Structural)]
pub enum FrameAction {
    /// Hand the list of the display set to the hardware and, while it is in
    /// flight, have the table of the draw set cleared.
    Transmit,
    /// The draw set is empty: build the scene in it.
    Build,
    /// Wait until the hardware has finished drawing.
    WaitDrawSync,
    /// Wait for the vertical blank.
    WaitVblank,
    /// Show the other frame buffer.
    SwapVisible,
    /// Give this error to whoever runs the loop.
    Report(FrameError),
    /// The event does not belong to this phase; nothing has changed.
    Rejected,
}

/// Whether `event` begins a frame in `phase`.
pub open spec fn starts_frame(phase: Phase, event: FrameEvent) -> bool {
    ||| phase == Phase::Starting && event == FrameEvent::Initialized
    ||| phase == Phase::AwaitPresent && event == FrameEvent::Presented
}

/// Whether `event` has the draw set emptied in `phase`.
pub open spec fn empties_draw_set(phase: Phase, event: FrameEvent) -> bool {
    phase == Phase::InFlight && event == FrameEvent::TableCleared
}

/// Whether the hardware may be reading the display set in `phase`.
pub open spec fn transfer_in_flight(phase: Phase) -> bool {
    phase == Phase::InFlight || phase == Phase::Building || phase == Phase::AwaitDrawSync
}

/// The phase that follows `phase` on `event`.
pub open spec fn next_phase(phase: Phase, event: FrameEvent) -> Phase {
    if starts_frame(phase, event) {
        Phase::InFlight
    } else if phase == Phase::Starting && event == FrameEvent::InitFailed {
        Phase::Stopped(FrameError::InitFailed)
    } else if transfer_in_flight(phase) && event == FrameEvent::TransferFailed {
        Phase::Stopped(FrameError::TransferFailed)
    } else if empties_draw_set(phase, event) {
        Phase::Building
    } else if phase == Phase::Building && event == FrameEvent::SceneBuilt {
        Phase::AwaitDrawSync
    } else if phase == Phase::AwaitDrawSync && event == FrameEvent::DrawSynced {
        Phase::AwaitVblank
    } else if phase == Phase::AwaitVblank && event == FrameEvent::Vblank {
        Phase::AwaitPresent
    } else {
        phase
    }
}

/// The answer to `event` in `phase`.
pub open spec fn next_action(phase: Phase, event: FrameEvent) -> FrameAction {
    if phase is Stopped {
        FrameAction::Report(phase->0)
    } else if starts_frame(phase, event) {
        FrameAction::Transmit
    } else if phase == Phase::Starting && event == FrameEvent::InitFailed {
        FrameAction::Report(FrameError::InitFailed)
    } else if transfer_in_flight(phase) && event == FrameEvent::TransferFailed {
        FrameAction::Report(FrameError::TransferFailed)
    } else if empties_draw_set(phase, event) {
        FrameAction::Build
    } else if phase == Phase::Building && event == FrameEvent::SceneBuilt {
        FrameAction::WaitDrawSync
    } else if phase == Phase::AwaitDrawSync && event == FrameEvent::DrawSynced {
        FrameAction::WaitVblank
    } else if phase == Phase::AwaitVblank && event == FrameEvent::Vblank {
        FrameAction::SwapVisible
    } else {
        FrameAction::Rejected
    }
}

/// The phase after the events `events`, taken in order.
pub open spec fn phase_after(phase: Phase, events: Seq<FrameEvent>) -> Phase
    decreases events.len(),
{
    if events.len() == 0 {
        phase
    } else {
        next_phase(phase_after(phase, events.drop_last()), events.last())
    }
}

/// How often the events `events`, taken in order from `phase`, began a frame.
pub open spec fn frames_started(phase: Phase, events: Seq<FrameEvent>) -> nat
    decreases events.len(),
{
    if events.len() == 0 {
        0
    } else {
        let before = frames_started(phase, events.drop_last());
        if starts_frame(phase_after(phase, events.drop_last()), events.last()) {
            before + 1
        } else {
            before
        }
    }
}

/// How often the events `events`, taken in order from `phase`, had the
/// hardware finish drawing.
pub open spec fn draws_finished(phase: Phase, events: Seq<FrameEvent>) -> nat
    decreases events.len(),
{
    if events.len() == 0 {
        0
    } else {
        let before = draws_finished(phase, events.drop_last());
        if phase_after(phase, events.drop_last()) == Phase::AwaitDrawSync && events.last()
            == FrameEvent::DrawSynced {
            before + 1
        } else {
            before
        }
    }
}

/// How often the events `events`, taken in order from `phase`, had the draw
/// set emptied.
pub open spec fn draw_sets_emptied(phase: Phase, events: Seq<FrameEvent>) -> nat
    decreases events.len(),
{
    if events.len() == 0 {
        0
    } else {
        let before = draw_sets_emptied(phase, events.drop_last());
        if empties_draw_set(phase_after(phase, events.drop_last()), events.last()) {
            before + 1
        } else {
            before
        }
    }
}

/// The events of one frame, in the only order that the loop accepts.
pub open spec fn frame_events() -> Seq<FrameEvent> {
    seq![
        FrameEvent::TableCleared,
        FrameEvent::SceneBuilt,
        FrameEvent::DrawSynced,
        FrameEvent::Vblank,
        FrameEvent::Presented,
    ]
}

/// A frame that has begun comes back to its beginning through the events of
/// `frame_events`, and each of them is answered with the step that follows.
pub proof fn lemma_frame_cycle()
    ensures
        phase_after(Phase::InFlight, frame_events()) == Phase::InFlight,
        next_action(Phase::InFlight, FrameEvent::TableCleared) == FrameAction::Build,
        next_action(Phase::Building, FrameEvent::SceneBuilt) == FrameAction::WaitDrawSync,
        next_action(Phase::AwaitDrawSync, FrameEvent::DrawSynced) == FrameAction::WaitVblank,
        next_action(Phase::AwaitVblank, FrameEvent::Vblank) == FrameAction::SwapVisible,
        next_action(Phase::AwaitPresent, FrameEvent::Presented) == FrameAction::Transmit,
{
    let events = frame_events();
    let one = events.take(1);
    let two = events.take(2);
    let three = events.take(3);
    let four = events.take(4);
    assert(one.drop_last() =~= Seq::<FrameEvent>::empty());
    assert(two.drop_last() =~= one);
    assert(three.drop_last() =~= two);
    assert(four.drop_last() =~= three);
    assert(events.drop_last() =~= four);
    assert(phase_after(Phase::InFlight, one.drop_last()) == Phase::InFlight);
    assert(phase_after(Phase::InFlight, one) == Phase::Building);
    assert(phase_after(Phase::InFlight, two) == Phase::AwaitDrawSync);
    assert(phase_after(Phase::InFlight, three) == Phase::AwaitVblank);
    assert(phase_after(Phase::InFlight, four) == Phase::AwaitPresent);
}

/// Whatever the outside reports, in whatever order: a set is handed to the
/// hardware only after the hardware has finished with the set handed over
/// before, and it is emptied for building only while the other set is in
/// flight. So of the frames begun, all but the one under way have been drawn
/// to the end, and no frame has its draw set emptied twice.
pub proof fn lemma_order_is_kept(events: Seq<FrameEvent>)
    ensures
        ({
            let phase = phase_after(Phase::Starting, events);
            let started = frames_started(Phase::Starting, events);
            let finished = draws_finished(Phase::Starting, events);
            let emptied = draw_sets_emptied(Phase::Starting, events);
            &&& finished <= started <= finished + 1
            &&& emptied <= started <= emptied + 1
            &&& (phase == Phase::Starting ==> started == 0)
            &&& (phase == Phase::InFlight ==> started == finished + 1 && started == emptied + 1)
            &&& (phase == Phase::Building || phase == Phase::AwaitDrawSync ==> started == finished
                + 1 && started == emptied)
            &&& (phase == Phase::AwaitVblank || phase == Phase::AwaitPresent ==> started
                == finished && started == emptied)
        }),
    decreases events.len(),
{
    if events.len() > 0 {
        lemma_order_is_kept(events.drop_last());
    }
}

/// A stopped loop stays stopped and keeps reporting why.
pub proof fn lemma_stopped_is_final(error: FrameError, events: Seq<FrameEvent>)
    ensures
        phase_after(Phase::Stopped(error), events) == Phase::Stopped(error),
        forall|event: FrameEvent| #[trigger]
            next_action(Phase::Stopped(error), event) == FrameAction::Report(error),
    decreases events.len(),
{
    if events.len() > 0 {
        lemma_stopped_is_final(error, events.drop_last());
    }
}

/// The loop and the two buffer sets it runs on.
#[derive(Debug, PartialEq, Eq)]
pub struct FrameLoop {
    graphics: GraphicsState,
    phase: Phase,
}

impl Clone for FrameLoop {
    fn clone(&self) -> (copy: Self)
        ensures
            copy.phase() == self.phase(),
            copy.graphics().swapped() == self.graphics().swapped(),
            copy.graphics().draw()@ == self.graphics().draw()@,
            copy.graphics().display()@ == self.graphics().display()@,
    {
        FrameLoop { graphics: self.graphics.clone(), phase: self.phase }
    }
}

impl FrameLoop {
    /// Where the loop stands.
    pub closed spec fn phase(&self) -> Phase {
        self.phase
    }

    /// The two buffer sets.
    pub closed spec fn graphics(&self) -> GraphicsState {
        self.graphics
    }

    /// A loop that waits for the video setup, with two empty buffer sets.
    pub fn new() -> (frame_loop: Self)
        ensures
            frame_loop.phase() == Phase::Starting,
            !frame_loop.graphics().swapped(),
            frame_loop.graphics().draw()@ == GraphicsEnv::spec_new(),
            frame_loop.graphics().display()@ == GraphicsEnv::spec_new(),
    {
        FrameLoop { graphics: GraphicsState::new(), phase: Phase::Starting }
    }

    /// Where the loop stands.
    pub fn current_phase(&self) -> (phase: Phase)
        ensures
            phase == self.phase(),
    {
        self.phase
    }

    /// The set that the hardware reads.
    pub fn display(&self) -> (env: &GraphicsEnv)
        ensures
            *env == self.graphics().display(),
    {
        self.graphics.env(self.graphics.current_display_side())
    }

    /// The set that is built.
    pub fn draw(&self) -> (env: &GraphicsEnv)
        ensures
            *env == self.graphics().draw(),
    {
        self.graphics.env(self.graphics.current_draw_side())
    }

    /// The draw set, to build the scene in. It is handed out only while the
    /// loop is building; the display set stays as it is.
    pub fn draw_mut(&mut self) -> (env: &mut GraphicsEnv)
        requires
            old(self).phase() == Phase::Building,
        ensures
            *env == old(self).graphics().draw(),
            final(self).graphics().draw() == *final(env),
            final(self).graphics().display() == old(self).graphics().display(),
            final(self).graphics().swapped() == old(self).graphics().swapped(),
            final(self).phase() == old(self).phase(),
    {
        let (_, draw) = get_disp_and_draw(&mut self.graphics);
        draw
    }

    /// Answers `event`. A frame start exchanges the roles, so that what was
    /// built is shown; a cleared table has the draw set emptied; nothing else
    /// touches a buffer set, and the display set is never written.
    pub fn step(&mut self, event: FrameEvent) -> (action: FrameAction)
        ensures
            action == next_action(old(self).phase(), event),
            final(self).phase() == next_phase(old(self).phase(), event),
            starts_frame(old(self).phase(), event) ==> {
                &&& final(self).graphics().swapped() == !old(self).graphics().swapped()
                &&& final(self).graphics().display() == old(self).graphics().draw()
                &&& final(self).graphics().draw() == old(self).graphics().display()
            },
            empties_draw_set(old(self).phase(), event) ==> {
                &&& final(self).graphics().swapped() == old(self).graphics().swapped()
                &&& final(self).graphics().display() == old(self).graphics().display()
                &&& final(self).graphics().draw()@ == GraphicsEnv::spec_new()
                &&& final(self).graphics().draw().buffer.wf()
            },
            !starts_frame(old(self).phase(), event) && !empties_draw_set(old(self).phase(), event)
                ==> final(self).graphics() == old(self).graphics(),
    {
        match self.phase {
            Phase::Stopped(error) => FrameAction::Report(error),
            Phase::Starting => match event {
                FrameEvent::Initialized => {
                    self.graphics.flip();
                    self.phase = Phase::InFlight;
                    FrameAction::Transmit
                },
                FrameEvent::InitFailed => {
                    self.phase = Phase::Stopped(FrameError::InitFailed);
                    FrameAction::Report(FrameError::InitFailed)
                },
                _ => FrameAction::Rejected,
            },
            Phase::InFlight => match event {
                FrameEvent::TableCleared => {
                    let (_, draw) = get_disp_and_draw(&mut self.graphics);
                    draw.clear();
                    self.phase = Phase::Building;
                    FrameAction::Build
                },
                FrameEvent::TransferFailed => {
                    self.phase = Phase::Stopped(FrameError::TransferFailed);
                    FrameAction::Report(FrameError::TransferFailed)
                },
                _ => FrameAction::Rejected,
            },
            Phase::Building => match event {
                FrameEvent::SceneBuilt => {
                    self.phase = Phase::AwaitDrawSync;
                    FrameAction::WaitDrawSync
                },
                FrameEvent::TransferFailed => {
                    self.phase = Phase::Stopped(FrameError::TransferFailed);
                    FrameAction::Report(FrameError::TransferFailed)
                },
                _ => FrameAction::Rejected,
            },
            Phase::AwaitDrawSync => match event {
                FrameEvent::DrawSynced => {
                    self.phase = Phase::AwaitVblank;
                    FrameAction::WaitVblank
                },
                FrameEvent::TransferFailed => {
                    self.phase = Phase::Stopped(FrameError::TransferFailed);
                    FrameAction::Report(FrameError::TransferFailed)
                },
                _ => FrameAction::Rejected,
            },
            Phase::AwaitVblank => match event {
                FrameEvent::Vblank => {
                    self.phase = Phase::AwaitPresent;
                    FrameAction::SwapVisible
                },
                _ => FrameAction::Rejected,
            },
            Phase::AwaitPresent => match event {
                FrameEvent::Presented => {
                    self.graphics.flip();
                    self.phase = Phase::InFlight;
                    FrameAction::Transmit
                },
                _ => FrameAction::Rejected,
            },
        }
    }

    /// The list to hand to the hardware: the chains of the display set, from
    /// its last bucket down to bucket 0. `None` when a bucket of the display
    /// set has no chain.
    pub fn transmission(&self) -> (list: Option<Vec<PacketRef>>)
        ensures
            list is Some <==> self.graphics().display()@.table().all_chained(),
            list matches Some(l) ==> l@ == self.graphics().display()@.table().display_list(0),
    {
        let env = self.display();
        env.otc.reverse_for_transmission(&env.buffer)
    }
}

} // verus!

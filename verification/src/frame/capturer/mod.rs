//! Capture sessions: what the compositor reports, what a session asks of
//! its driver in return, and the states a session passes through.

use crate::frame::object::{FrameView, Plane};
use crate::frame::processor::ProcessorError;
use vstd::prelude::*;

pub mod wlroots;

verus! {

/// Delay before the next capture after a frame was delivered, in milliseconds.
pub const DELAY_SUCCESS_MS: u64 = 100;

/// Delay before the next capture after a capture failed, in milliseconds.
pub const DELAY_FAILURE_MS: u64 = 1000;

/// How long a session rests between two captures.
#[derive(Debug, Clone, Copy, PartialEq, Eq)]
pub struct Delays {
    /// Milliseconds to rest after a frame was delivered.
    pub success_ms: u64,
    /// Milliseconds to rest after a capture failed.
    pub failure_ms: u64,
}

impl Default for Delays {
    fn default() -> (delays: Delays)
        ensures
            delays == (Delays { success_ms: DELAY_SUCCESS_MS, failure_ms: DELAY_FAILURE_MS }),
    {
        Delays { success_ms: DELAY_SUCCESS_MS, failure_ms: DELAY_FAILURE_MS }
    }
}

/// Why the compositor cancelled a capture.
#[derive(Debug, Clone, Copy, PartialEq, Eq)]
pub enum CancelReason {
    /// The capture failed for now and may be tried again.
    Temporary,
    /// The capture can never succeed again, for instance because the
    /// output is gone.
    Permanent,
    /// The output is changing its size; the capture may be tried again.
    Resizing,
}

/// What the compositor reports about a requested frame.
#[derive(Debug, Clone, Copy, PartialEq, Eq)]
pub enum Event {
    /// The metadata of the frame.
    Frame { width: u32, height: u32, num_objects: u32 },
    /// One memory plane of the frame.
    Object { index: u32, fd: i32, size: u32 },
    /// Every plane has been delivered.
    Ready,
    /// The frame will not be delivered.
    Cancel { reason: CancelReason },
}

/// A condition that ends the daemon.
#[derive(Debug, Clone, Copy, PartialEq, Eq)]
pub enum FatalError {
    /// The compositor cancelled a capture for good. Outputs that are
    /// reconfigured or unplugged are not followed.
    UnsupportedReconfiguration,
    /// The GPU could not be set up.
    GpuInitialization,
    /// The compositor and the session disagree about the state of a capture.
    ProtocolDesync,
}

impl FatalError {
    /// The text of the diagnostic for each condition.
    pub open spec fn diagnostic_text(self) -> Seq<char> {
        match self {
            FatalError::UnsupportedReconfiguration =>
                "Frame was cancelled due to a permanent error. If you just disconnected screen, this is not implemented yet."@,
            FatalError::GpuInitialization => "Unable to initialise the GPU processor."@,
            FatalError::ProtocolDesync =>
                "The compositor reported an event that does not fit the state of the capture."@,
        }
    }

    /// The diagnostic to end the daemon with.
    pub fn diagnostic(&self) -> (message: &'static str)
        ensures
            message@ == self.diagnostic_text(),
    {
        match self {
            FatalError::UnsupportedReconfiguration =>
                "Frame was cancelled due to a permanent error. If you just disconnected screen, this is not implemented yet.",
            FatalError::GpuInitialization => "Unable to initialise the GPU processor.",
            FatalError::ProtocolDesync =>
                "The compositor reported an event that does not fit the state of the capture.",
        }
    }
}

/// The diagnostics tell the fatal conditions apart: no two conditions
/// share a text.
pub proof fn lemma_diagnostics_differ(first: FatalError, second: FatalError)
    requires
        first != second,
    ensures
        first.diagnostic_text() != second.diagnostic_text(),
{
    reveal_strlit(
        "Frame was cancelled due to a permanent error. If you just disconnected screen, this is not implemented yet.",
    );
    reveal_strlit("Unable to initialise the GPU processor.");
    reveal_strlit("The compositor reported an event that does not fit the state of the capture.");
    let unsupported = FatalError::UnsupportedReconfiguration.diagnostic_text();
    let gpu = FatalError::GpuInitialization.diagnostic_text();
    let desync = FatalError::ProtocolDesync.diagnostic_text();
    assert(unsupported[0] == 'F');
    assert(gpu[0] == 'U');
    assert(desync[0] == 'T');
}

/// What a session asks of its driver, in the order given.
#[derive(Debug, Clone, Copy, PartialEq, Eq)]
pub enum Command {
    /// Ask the compositor to export the next frame of the session's output.
    RequestCapture,
    /// Hand the session's frame to the processor and report the answer
    /// with `frame_processed`.
    Process,
    /// Hand the lightness percentage to the controller of the session's output.
    Adjust { luma: u8 },
    /// Note that the frame could not be processed.
    Failed { error: ProcessorError },
    /// Release the compositor's frame object.
    Release,
    /// Block for the given time, then report with `on_delay_elapsed`.
    Wait { millis: u64 },
    /// End the daemon with the diagnostic of `reason`.
    Abort { reason: FatalError },
}

/// Where a session stands.
#[derive(Debug, Clone, Copy, PartialEq, Eq)]
pub enum State {
    /// Looking for the output whose description holds the configured name.
    Discovering,
    /// A frame was requested and nothing has been reported about it.
    Requesting,
    /// The frame's metadata has arrived and its planes are arriving.
    Accumulating,
    /// The frame is complete: it is processed, then the session rests.
    Ready,
    /// The capture failed: the session rests before it tries again.
    Cancelled,
    /// The session has ended for good.
    Fatal,
}

/// What a session holds.
pub struct SessionView {
    pub state: State,
    /// The configured name of the output.
    pub output_name: Seq<char>,
    pub delays: Delays,
    /// The frame of the capture in flight.
    pub frame: FrameView,
}

/// Where an input leaves a session, and what the driver is to do.
pub struct Outcome {
    pub next: SessionView,
    pub commands: Seq<Command>,
}

/// `needle` occurs in `haystack` as a run of consecutive characters.
pub open spec fn is_substring(needle: Seq<char>, haystack: Seq<char>) -> bool {
    exists|start: int|
        0 <= start && start + needle.len() <= haystack.len() && #[trigger] haystack.subrange(
            start,
            start + needle.len(),
        ) == needle
}

/// An answer of a processor is a failure or a percentage, 0 to 100.
pub open spec fn is_percentage(luma: Result<u8, ProcessorError>) -> bool {
    luma matches Ok(percent) ==> percent <= 100
}

impl SessionView {
    /// The invariant of a session: it holds a described frame while planes
    /// arrive, a complete or discarded frame once the frame is ready, and
    /// no frame otherwise.
    pub open spec fn well_formed(self) -> bool {
        &&& self.frame.well_formed()
        &&& self.state is Accumulating ==> self.frame.described
        &&& self.state is Ready ==> self.frame.complete() || self.frame == FrameView::empty()
        &&& !(self.state is Accumulating || self.state is Ready) ==> self.frame
            == FrameView::empty()
    }

    /// The session in `state`, its frame discarded.
    pub open spec fn reset(self, state: State) -> SessionView {
        SessionView { state, frame: FrameView::empty(), ..self }
    }

    /// The session stays as it is and asks for nothing.
    pub open spec fn ignored(self) -> Outcome {
        Outcome { next: self, commands: Seq::empty() }
    }

    /// The compositor broke the protocol: the session ends.
    pub open spec fn desynchronized(self) -> Outcome {
        Outcome {
            next: self.reset(State::Fatal),
            commands: seq![Command::Abort { reason: FatalError::ProtocolDesync }],
        }
    }

    /// The compositor cancelled the capture in flight: a permanent
    /// cancellation ends the session, any other is retried after the
    /// failure delay.
    pub open spec fn cancelled(self, reason: CancelReason) -> Outcome {
        if reason is Permanent {
            Outcome {
                next: self.reset(State::Fatal),
                commands: seq![
                    Command::Release,
                    Command::Abort { reason: FatalError::UnsupportedReconfiguration },
                ],
            }
        } else {
            Outcome {
                next: self.reset(State::Cancelled),
                commands: seq![Command::Release, Command::Wait { millis: self.delays.failure_ms }],
            }
        }
    }

    /// An output described itself as `description`. The first description
    /// that holds the configured name binds the session, which requests its
    /// first frame; any other description is ignored.
    pub open spec fn after_description(self, description: Seq<char>) -> Outcome {
        if self.state is Discovering && is_substring(self.output_name, description) {
            Outcome { next: self.reset(State::Requesting), commands: seq![Command::RequestCapture] }
        } else {
            self.ignored()
        }
    }

    /// The compositor reported `event` about the requested frame.
    ///
    /// Metadata is accepted once, after the request. Planes are accepted
    /// after the metadata, each announced index once. The ready event is
    /// accepted when the frame is complete. A cancellation is accepted
    /// while a frame is awaited. Everything else breaks the protocol,
    /// whatever the state of the session.
    pub open spec fn after_event(self, event: Event) -> Outcome {
        match self.state {
            State::Requesting => match event {
                Event::Frame { width, height, num_objects } => if width > 0 && height > 0 {
                    Outcome {
                        next: SessionView {
                            state: State::Accumulating,
                            frame: self.frame.with_metadata(width, height, num_objects),
                            ..self
                        },
                        commands: Seq::empty(),
                    }
                } else {
                    self.desynchronized()
                },
                Event::Cancel { reason } => self.cancelled(reason),
                _ => self.desynchronized(),
            },
            State::Accumulating => match event {
                Event::Object { index, fd, size } => if index < self.frame.num_objects
                    && !self.frame.has_plane(index as int) {
                    Outcome {
                        next: SessionView {
                            frame: self.frame.with_plane(Plane { index, fd, size }),
                            ..self
                        },
                        commands: Seq::empty(),
                    }
                } else {
                    self.desynchronized()
                },
                Event::Ready => if self.frame.complete() {
                    Outcome {
                        next: SessionView { state: State::Ready, ..self },
                        commands: seq![Command::Process],
                    }
                } else {
                    self.desynchronized()
                },
                Event::Cancel { reason } => self.cancelled(reason),
                Event::Frame { .. } => self.desynchronized(),
            },
            _ => self.desynchronized(),
        }
    }

    /// The session holds a complete frame that has not been processed.
    pub open spec fn awaits_processing(self) -> bool {
        self.state is Ready && self.frame.complete()
    }

    /// The processor answered `luma` for the session's frame. A percentage
    /// goes to the controller and the session rests for the success delay;
    /// a failure is noted and the capture retried after the failure delay.
    /// Either way the frame is released. An answer nobody waits for breaks
    /// the protocol.
    pub open spec fn after_processing(self, luma: Result<u8, ProcessorError>) -> Outcome {
        if !self.awaits_processing() {
            self.desynchronized()
        } else {
            match luma {
                Ok(percent) => Outcome {
                    next: self.reset(State::Ready),
                    commands: seq![
                        Command::Adjust { luma: percent },
                        Command::Release,
                        Command::Wait { millis: self.delays.success_ms },
                    ],
                },
                Err(error) => Outcome {
                    next: self.reset(State::Cancelled),
                    commands: seq![
                        Command::Failed { error },
                        Command::Release,
                        Command::Wait { millis: self.delays.failure_ms },
                    ],
                },
            }
        }
    }

    /// The session is resting between two captures.
    pub open spec fn resting(self) -> bool {
        (self.state is Ready || self.state is Cancelled) && self.frame == FrameView::empty()
    }

    /// The delay the session asked for has passed: a resting session
    /// requests the next frame. A delay nobody asked for breaks the
    /// protocol.
    pub open spec fn after_delay(self) -> Outcome {
        if self.resting() {
            Outcome { next: self.reset(State::Requesting), commands: seq![Command::RequestCapture] }
        } else {
            self.desynchronized()
        }
    }
}

/// Every input leaves a well-formed session well-formed.
pub proof fn lemma_session_stays_well_formed(
    session: SessionView,
    description: Seq<char>,
    event: Event,
    luma: Result<u8, ProcessorError>,
)
    requires
        session.well_formed(),
    ensures
        session.after_description(description).next.well_formed(),
        session.after_event(event).next.well_formed(),
        session.after_processing(luma).next.well_formed(),
        session.after_delay().next.well_formed(),
{
    match event {
        Event::Object { index, fd, size } => {
            let plane = Plane { index, fd, size };
            let frame = session.frame.with_plane(plane);
            if session.state is Accumulating && index < session.frame.num_objects
                && !session.frame.has_plane(index as int) {
                assert forall|i: int, j: int| 0 <= i < j < frame.planes.len() implies (
                #[trigger] frame.planes[i]).index != (#[trigger] frame.planes[j]).index by {
                    if j == session.frame.planes.len() {
                        assert(session.frame.planes[i].index != index);
                    }
                }
            }
        },
        _ => {},
    }
}

/// An ended session stays ended: it takes no description, and whatever
/// else it is handed it answers as a break of the protocol.
pub proof fn lemma_fatal_is_terminal(
    session: SessionView,
    description: Seq<char>,
    event: Event,
    luma: Result<u8, ProcessorError>,
)
    requires
        session.well_formed(),
        session.state is Fatal,
    ensures
        session.after_description(description) == session.ignored(),
        session.after_event(event) == session.desynchronized(),
        session.after_processing(luma) == session.desynchronized(),
        session.after_delay() == session.desynchronized(),
        session.desynchronized().next == session,
{
}

/// A frame is requested only when the session binds to its output and when
/// a delay has passed: neither a report of the compositor nor an answer of
/// the processor makes a session request a frame.
pub proof fn lemma_requests_follow_delays(
    session: SessionView,
    event: Event,
    luma: Result<u8, ProcessorError>,
)
    ensures
        !session.after_event(event).commands.contains(Command::RequestCapture),
        !session.after_processing(luma).commands.contains(Command::RequestCapture),
{
}

/// Only complete frames are handed to the processor.
pub proof fn lemma_only_complete_frames_are_processed(session: SessionView, event: Event)
    requires
        session.after_event(event).commands.contains(Command::Process),
    ensures
        session.after_event(event).next.awaits_processing(),
        session.after_event(event).next.frame == session.frame,
{
}

/// A capture that was cancelled, but not for good, is retried after the
/// failure delay: the session releases the frame, rests for that delay and
/// then requests the next frame.
pub proof fn lemma_retry_after_failure_delay(session: SessionView, reason: CancelReason)
    requires
        session.state is Requesting || session.state is Accumulating,
        !(reason is Permanent),
    ensures
        session.after_event(Event::Cancel { reason }).commands == seq![
            Command::Release,
            Command::Wait { millis: session.delays.failure_ms },
        ],
        session.after_event(Event::Cancel { reason }).next.state is Cancelled,
        session.after_event(Event::Cancel { reason }).next.after_delay().commands
            == seq![Command::RequestCapture],
        session.after_event(Event::Cancel { reason }).next.after_delay().next.state is Requesting,
{
}

/// A delivered frame is followed by the success delay: the session hands
/// the percentage to the controller, releases the frame, rests for that
/// delay and then requests the next frame.
pub proof fn lemma_next_capture_after_success_delay(session: SessionView, percent: u8)
    requires
        session.awaits_processing(),
    ensures
        session.after_processing(Ok(percent)).commands == seq![
            Command::Adjust { luma: percent },
            Command::Release,
            Command::Wait { millis: session.delays.success_ms },
        ],
        session.after_processing(Ok(percent)).next.state is Ready,
        session.after_processing(Ok(percent)).next.after_delay().commands
            == seq![Command::RequestCapture],
        session.after_processing(Ok(percent)).next.after_delay().next.state is Requesting,
{
}

/// The controller is only handed what the processor answered.
pub proof fn lemma_adjust_is_the_answer(
    session: SessionView,
    luma: Result<u8, ProcessorError>,
    value: u8,
)
    requires
        session.after_processing(luma).commands.contains(Command::Adjust { luma: value }),
    ensures
        luma == Ok::<u8, ProcessorError>(value),
{
}

} // verus!

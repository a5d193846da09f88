//! The capture session for compositors that export frames as DMA buffers.

use crate::frame::capturer::{
    is_percentage, is_substring, CancelReason, Command, Delays, Event, FatalError, Outcome,
    SessionView, State,
};
use crate::frame::object::{FrameView, Object};
use crate::frame::processor::{Processor, ProcessorError};
use vstd::prelude::*;

verus! {

/// Calls `str::contains` of the standard library with a string pattern,
/// which is trusted to tell whether the pattern occurs in the text as a run
/// of consecutive characters.
#[verifier::external_body]
fn contains(text: &str, pattern: &str) -> (found: bool)
    ensures
        found == is_substring(pattern@, text@),
{
    text.contains(pattern)
}

/// Tells whether a global the compositor announces is a display output,
/// by the name of its interface.
pub fn is_output_interface(interface: &str) -> (is_output: bool)
    ensures
        is_output == (interface@ == "wl_output"@),
{
    let announced = interface.to_owned();
    let output = "wl_output".to_owned();
    announced == output
}

/// The capture session of one configured output.
#[derive(Debug)]
pub struct Capturer {
    output_name: String,
    delays: Delays,
    state: State,
    frame: Object,
}

impl View for Capturer {
    type V = SessionView;

    closed spec fn view(&self) -> SessionView {
        SessionView {
            state: self.state,
            output_name: self.output_name@,
            delays: self.delays,
            frame: self.frame@,
        }
    }
}

impl Capturer {
    /// The invariant every session keeps.
    pub open spec fn wf(&self) -> bool {
        self@.well_formed()
    }

    /// `commands` and the session's new state are what `outcome` says.
    pub open spec fn reached(&self, commands: Vec<Command>, outcome: Outcome) -> bool {
        self@ == outcome.next && commands@ =~= outcome.commands
    }

    /// A session that looks for the output named `output_name`.
    pub fn new(output_name: String, delays: Delays) -> (session: Capturer)
        ensures
            session.wf(),
            session@ == (SessionView {
                state: State::Discovering,
                output_name: output_name@,
                delays,
                frame: FrameView::empty(),
            }),
    {
        Capturer { output_name, delays, state: State::Discovering, frame: Object::new() }
    }

    fn desynchronize(&mut self) -> (commands: Vec<Command>)
        ensures
            final(self).wf(),
            final(self).reached(commands, old(self)@.desynchronized()),
    {
        self.state = State::Fatal;
        self.frame = Object::new();
        vec![Command::Abort { reason: FatalError::ProtocolDesync }]
    }

    fn cancel(&mut self, reason: CancelReason) -> (commands: Vec<Command>)
        ensures
            final(self).wf(),
            final(self).reached(commands, old(self)@.cancelled(reason)),
    {
        self.frame = Object::new();
        match reason {
            CancelReason::Permanent => {
                self.state = State::Fatal;
                vec![
                    Command::Release,
                    Command::Abort { reason: FatalError::UnsupportedReconfiguration },
                ]
            },
            _ => {
                self.state = State::Cancelled;
                vec![Command::Release, Command::Wait { millis: self.delays.failure_ms }]
            },
        }
    }

    /// Takes the description of an output.
    pub fn on_description(&mut self, description: &str) -> (commands: Vec<Command>)
        requires
            old(self).wf(),
        ensures
            final(self).wf(),
            final(self).reached(commands, old(self)@.after_description(description@)),
    {
        match self.state {
            State::Discovering => {
                if contains(description, self.output_name.as_str()) {
                    self.state = State::Requesting;
                    self.frame = Object::new();
                    vec![Command::RequestCapture]
                } else {
                    Vec::new()
                }
            },
            _ => Vec::new(),
        }
    }

    /// Takes what the compositor reports about the requested frame.
    pub fn on_event(&mut self, event: Event) -> (commands: Vec<Command>)
        requires
            old(self).wf(),
        ensures
            final(self).wf(),
            final(self).reached(commands, old(self)@.after_event(event)),
    {
        match self.state {
            State::Requesting => match event {
                Event::Frame { width, height, num_objects } => {
                    match self.frame.set_metadata(width, height, num_objects) {
                        Ok(()) => {
                            self.state = State::Accumulating;
                            Vec::new()
                        },
                        Err(_) => self.desynchronize(),
                    }
                },
                Event::Cancel { reason } => self.cancel(reason),
                _ => self.desynchronize(),
            },
            State::Accumulating => match event {
                Event::Object { index, fd, size } => {
                    match self.frame.set_object(index, fd, size) {
                        Ok(()) => Vec::new(),
                        Err(_) => self.desynchronize(),
                    }
                },
                Event::Ready => {
                    if self.frame.is_complete() {
                        self.state = State::Ready;
                        vec![Command::Process]
                    } else {
                        self.desynchronize()
                    }
                },
                Event::Cancel { reason } => self.cancel(reason),
                Event::Frame { .. } => self.desynchronize(),
            },
            _ => self.desynchronize(),
        }
    }

    /// Takes the processor's answer for the session's frame.
    pub fn frame_processed(&mut self, luma: Result<u8, ProcessorError>) -> (commands: Vec<Command>)
        requires
            old(self).wf(),
            is_percentage(luma),
        ensures
            final(self).wf(),
            final(self).reached(commands, old(self)@.after_processing(luma)),
    {
        match self.state {
            State::Ready => {},
            _ => {
                return self.desynchronize();
            },
        }
        if !self.frame.is_complete() {
            return self.desynchronize();
        }
        self.frame = Object::new();
        match luma {
            Ok(percent) => {
                vec![
                    Command::Adjust { luma: percent },
                    Command::Release,
                    Command::Wait { millis: self.delays.success_ms },
                ]
            },
            Err(error) => {
                self.state = State::Cancelled;
                vec![
                    Command::Failed { error },
                    Command::Release,
                    Command::Wait { millis: self.delays.failure_ms },
                ]
            },
        }
    }

    /// Takes the end of the delay the session asked for.
    pub fn on_delay_elapsed(&mut self) -> (commands: Vec<Command>)
        requires
            old(self).wf(),
        ensures
            final(self).wf(),
            final(self).reached(commands, old(self)@.after_delay()),
    {
        match self.state {
            State::Ready | State::Cancelled => {},
            _ => {
                return self.desynchronize();
            },
        }
        if self.frame.is_complete() {
            return self.desynchronize();
        }
        self.state = State::Requesting;
        vec![Command::RequestCapture]
    }

    /// Takes what the compositor reports about the requested frame and has
    /// a frame that became ready processed by `processor`.
    ///
    /// Whatever the processor answers, the session goes on as
    /// `frame_processed` says for that answer.
    pub fn capture_frame<P: Processor>(&mut self, event: Event, processor: &P) -> (commands: Vec<
        Command,
    >)
        requires
            old(self).wf(),
        ensures
            final(self).wf(),
            !old(self)@.after_event(event).next.awaits_processing() ==> final(self).reached(
                commands,
                old(self)@.after_event(event),
            ),
            old(self)@.after_event(event).next.awaits_processing() ==> exists|
                luma: Result<u8, ProcessorError>,
            |
                is_percentage(luma) && final(self).reached(
                    commands,
                    #[trigger] old(self)@.after_event(event).next.after_processing(luma),
                ),
    {
        let commands = self.on_event(event);
        let ready = match self.state {
            State::Ready => self.frame.is_complete(),
            _ => false,
        };
        if ready {
            let luma = processor.luma_percent(&self.frame);
            assert(is_percentage(luma));
            self.frame_processed(luma)
        } else {
            commands
        }
    }

    /// Where the session stands.
    pub fn state(&self) -> (state: State)
        ensures
            state == self@.state,
    {
        self.state
    }

    /// The configured name of the session's output.
    pub fn output_name(&self) -> (name: &str)
        ensures
            name@ == self@.output_name,
    {
        self.output_name.as_str()
    }

    /// The delays between two captures.
    pub fn delays(&self) -> (delays: Delays)
        ensures
            delays == self@.delays,
    {
        self.delays
    }

    /// The frame of the capture in flight.
    pub fn frame(&self) -> (frame: &Object)
        ensures
            frame@ == self@.frame,
    {
        &self.frame
    }
}

} // verus!

//! The terminal as the renderer works with it: the session that owns the
//! terminal's mode together with the pipeline that its events arrive
//! through, and the runs that a buffer or a patch is written as.
//!
//! Nothing here touches the device. Whoever owns the output stream sends
//! the commands and writes the runs that the terminal hands out, and feeds
//! it what the capture task observes.

use crate::term::input::{Input, InputPipeline, Offer, PipelineModel, Recv, EVENT_QUEUE_CAPACITY};
use crate::term::runs::{is_run_list, DrawRun};
use crate::term::session::{restore_sequence, TerminalCommand, TerminalSession};
use crate::term::util::{Cell, ScreenBuffer, ScreenBufferDiff};
use vstd::prelude::*;

verus! {

/// The session of a terminal and the input pipeline that belongs to it.
pub struct Terminal {
    session: TerminalSession,
    pipeline: InputPipeline,
}

impl Terminal {
    pub closed spec fn spec_session(&self) -> TerminalSession {
        self.session
    }

    /// The input pipeline as a value.
    pub closed spec fn spec_pipeline(&self) -> PipelineModel {
        self.pipeline@
    }

    /// The last known dimensions: columns, then rows.
    pub open spec fn spec_size(&self) -> (usize, usize) {
        self.spec_session().spec_current_size()
    }

    /// The state behind a terminal that has just been opened with the given
    /// dimensions: an open session and a running pipeline with an empty
    /// queue of the default capacity.
    pub fn new(columns: u16, rows: u16) -> (terminal: Terminal)
        ensures
            terminal.spec_session().spec_is_open(),
            terminal.spec_session().spec_dimensions() == (columns, rows),
            terminal.spec_size() == (columns as usize, rows as usize),
            terminal.spec_pipeline() == PipelineModel::start(EVENT_QUEUE_CAPACITY as nat),
            terminal.spec_pipeline().wf(),
    {
        Terminal {
            session: TerminalSession::open(columns, rows),
            pipeline: InputPipeline::new(EVENT_QUEUE_CAPACITY),
        }
    }

    /// One step of the consumer: the oldest waiting event if there is one;
    /// otherwise the news that more may come, or that the stream has ended.
    pub fn recv_event(&mut self) -> (r: Recv)
        ensures
            r == old(self).spec_pipeline().recv_result(),
            final(self).spec_pipeline() == old(self).spec_pipeline().recv(),
            final(self).spec_pipeline().wf(),
            final(self).spec_session() == old(self).spec_session(),
    {
        self.pipeline.recv()
    }

    /// One step of the capture task: takes what it observed and says what
    /// it has to do next. The dimensions that a resize notification carries
    /// become the last known size before the notification is forwarded.
    pub fn offer_input(&mut self, input: Input) -> (offer: Offer)
        ensures
            offer == old(self).spec_pipeline().offer_result(input),
            final(self).spec_pipeline() == old(self).spec_pipeline().offer(input),
            final(self).spec_pipeline().wf(),
            final(self).spec_session().spec_is_open() == old(self).spec_session().spec_is_open(),
            final(self).spec_session().spec_dimensions() == old(
                self,
            ).spec_pipeline().observed_dimensions(input, old(self).spec_session().spec_dimensions()),
    {
        self.pipeline.offer(&mut self.session, input)
    }

    /// The last known dimensions of the terminal: columns, then rows.
    #[verifier::when_used_as_spec(spec_size)]
    pub fn size(&self) -> (size: (usize, usize))
        ensures
            size == self.spec_size(),
            size.0 <= u16::MAX,
            size.1 <= u16::MAX,
    {
        self.session.current_size()
    }

    /// The last known dimensions as the terminal reports them.
    pub fn dimensions(&self) -> (size: (u16, u16))
        ensures
            size == self.spec_session().spec_dimensions(),
            self.spec_size() == (size.0 as usize, size.1 as usize),
    {
        self.session.dimensions()
    }

    /// Whether the session is still open.
    pub fn is_open(&self) -> (open: bool)
        ensures
            open == self.spec_session().spec_is_open(),
    {
        self.session.is_open()
    }

    /// What to write to show a whole buffer: every cell, row by row.
    pub fn draw_buffer(&self, buf: &ScreenBuffer) -> (runs: Vec<DrawRun>)
        ensures
            is_run_list(
                buf@.map_values(|c: Cell| Some(c)),
                buf.spec_size().0 as int,
                buf.spec_size().1 as int,
                runs@,
            ),
    {
        buf.full_repaint().runs()
    }

    /// What to write to paint a patch: its runs, in the order in which to
    /// write them.
    pub fn draw_buffer_diff(&self, diff: &ScreenBufferDiff) -> (runs: Vec<DrawRun>)
        ensures
            is_run_list(diff@, diff.spec_size().0 as int, diff.spec_size().1 as int, runs@),
    {
        diff.runs()
    }

    /// Ends the work with the terminal: cancels the input pipeline and
    /// closes the session. Hands out what has to be sent to restore the
    /// terminal, which is nothing if the session was closed before.
    pub fn exit(&mut self) -> (commands: Vec<TerminalCommand>)
        ensures
            commands@ == old(self).spec_session().spec_close_commands(),
            final(self).spec_session() == old(self).spec_session().spec_closed(),
            !final(self).spec_session().spec_is_open(),
            final(self).spec_session().spec_dimensions() == old(self).spec_session().spec_dimensions(),
            final(self).spec_pipeline() == old(self).spec_pipeline().cancel(),
            final(self).spec_pipeline().wf(),
    {
        self.pipeline.cancel();
        self.session.close()
    }

    /// What to send to restore the terminal when no terminal value is at
    /// hand.
    pub fn stop() -> (commands: Vec<TerminalCommand>)
        ensures
            commands@ == restore_sequence(),
    {
        TerminalSession::emergency_restore()
    }
}

} // verus!

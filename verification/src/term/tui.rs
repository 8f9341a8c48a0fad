//! The double-buffered renderer: two screen buffers, the frame that a
//! render callback draws into, and the flush that works out what the
//! terminal has to be sent.

use crate::math::Rect;
use crate::term::input::{Input, Offer, PipelineModel, Recv, EVENT_QUEUE_CAPACITY};
use crate::term::session::{TerminalCommand, TerminalSession};
use crate::term::terminal::Terminal;
use crate::term::runs::{
    is_run_list, lemma_empty_patch_has_no_runs, lemma_runs_paint_patch, paint_runs, DrawRun,
};
use crate::term::util::{
    blank_cells, cell_index, is_empty_patch, lemma_apply_diff, lemma_apply_full_repaint,
    lemma_diff_same_is_empty, spec_diff, Cell, ScreenBuffer, ScreenBufferDiff,
};
use vstd::prelude::*;

verus! {

/// The index of the other of the two buffer slots.
pub open spec fn spec_flip_buffer(index: usize) -> usize {
    if index == 0 {
        1
    } else if index == 1 {
        0
    } else {
        index ^ 1
    }
}

/// The index of the other of the two buffer slots: the lowest bit toggles.
#[verifier::when_used_as_spec(spec_flip_buffer)]
pub fn flip_buffer(index: usize) -> (other: usize)
    ensures
        other == spec_flip_buffer(index),
        other == index ^ 1,
        index < 2 ==> other < 2 && other != index,
{
    assert(0usize ^ 1 == 1 && 1usize ^ 1 == 0) by (bit_vector);
    index ^ 1
}

/// Flipping twice leads back to the same slot.
pub proof fn lemma_flip_twice(index: usize)
    ensures
        spec_flip_buffer(spec_flip_buffer(index)) == index,
{
    assert((index ^ 1) ^ 1 == index) by (bit_vector);
    assert(index ^ 1 == 0 ==> index == 1) by (bit_vector);
    assert(index ^ 1 == 1 ==> index == 0) by (bit_vector);
}

/// The drawing surface that a render callback receives: the buffer that is
/// not on the terminal, for the length of one draw.
pub struct Frame {
    buf: ScreenBuffer,
}

impl Frame {
    #[verifier::type_invariant]
    pub closed spec fn wf(self) -> bool {
        self.buf.wf()
    }

    /// The buffer that the frame draws into.
    pub closed spec fn buffer(&self) -> ScreenBuffer {
        self.buf
    }

    /// Width and height of the frame, in cells.
    pub open spec fn spec_size(&self) -> (usize, usize) {
        self.buffer().spec_size()
    }

    /// The cells of the frame in row-major order.
    pub open spec fn view(&self) -> Seq<Cell> {
        self.buffer()@
    }

    pub(crate) fn new(buf: ScreenBuffer) -> (frame: Frame)
        ensures
            frame.buffer() == buf,
    {
        proof {
            use_type_invariant(&buf);
        }
        Frame { buf }
    }

    pub(crate) fn finish(self) -> (buf: ScreenBuffer)
        ensures
            buf == self.buffer(),
    {
        self.buf
    }

    #[verifier::when_used_as_spec(spec_size)]
    pub fn size(&self) -> (size: (usize, usize))
        ensures
            size == self.spec_size(),
            self@.len() == size.0 * size.1,
    {
        self.buf.size()
    }

    /// Writes `cell` at column `x` of row `y`, which lie within the frame.
    pub fn set_cell(&mut self, x: usize, y: usize, cell: Cell)
        requires
            x < old(self).spec_size().0,
            y < old(self).spec_size().1,
        ensures
            final(self).spec_size() == old(self).spec_size(),
            final(self)@ == old(self)@.update(
                cell_index(old(self).spec_size().0 as int, x as int, y as int),
                cell,
            ),
    {
        proof {
            use_type_invariant(&*self);
        }
        self.buf.set_cell(x, y, cell);
    }

    /// The cell at column `x` of row `y`, which lie within the frame.
    pub fn cell(&self, x: usize, y: usize) -> (c: Cell)
        requires
            x < self.spec_size().0,
            y < self.spec_size().1,
        ensures
            c == self@[cell_index(self.spec_size().0 as int, x as int, y as int)],
    {
        self.buf.cell(x, y)
    }
}

/// Anything that can draw itself into a frame.
pub trait Renderable {
    /// What the renderer asks of the frame and of the bounds that it is
    /// handed. A renderer that says nothing asks nothing.
    open spec fn accepts(&self, frame: Frame, bounds: Rect) -> bool {
        true
    }

    /// Draws into `frame`, whose cells lie within `size`.
    fn render(&self, frame: &mut Frame, size: Rect)
        requires
            self.accepts(*old(frame), size),
    ;
}

/// A plain function or closure that takes a frame and its bounds renders by
/// being called.
impl<T> Renderable for T where T: Fn(&mut Frame, Rect) {
    open spec fn accepts(&self, frame: Frame, bounds: Rect) -> bool {
        forall|f: &mut Frame| *f == frame ==> call_requires(*self, (f, bounds))
    }

    fn render(&self, frame: &mut Frame, size: Rect)
        ensures
            exists|f: &mut Frame|
                {
                    &&& *f == *old(frame)
                    &&& #[trigger] call_ensures(*self, (f, size), ())
                    &&& *final(f) == *final(frame)
                },
    {
        self(frame, size)
    }
}

/// What a buffer shows once it has been made ready for a frame of the given
/// size: its own cells if it has that size, and blank cells if not.
pub open spec fn prepared_cells(buf: ScreenBuffer, size: (usize, usize)) -> Seq<Cell> {
    if buf.spec_size() == size {
        buf@
    } else {
        blank_cells(size.0 * size.1)
    }
}

/// What has to be painted on a terminal that shows `active` to make it show
/// `inactive`: their diff where the two have the same size, and every cell
/// of `inactive` where a resize has come between them.
pub open spec fn pending_patch(active: ScreenBuffer, inactive: ScreenBuffer) -> Seq<Option<Cell>> {
    if active.spec_size() == inactive.spec_size() {
        spec_diff(active@, inactive@)
    } else {
        inactive@.map_values(|c: Cell| Some(c))
    }
}

/// Two screen buffers and the index of the one that the terminal shows.
pub struct Renderer {
    buffers: [ScreenBuffer; 2],
    active_buffer: usize,
}

impl Renderer {
    #[verifier::type_invariant]
    pub closed spec fn wf(self) -> bool {
        self.active_buffer < 2
    }

    /// The index of the buffer that the terminal shows: 0 or 1.
    pub closed spec fn spec_active_index(&self) -> usize {
        self.active_buffer
    }

    /// The buffer that the terminal shows.
    pub closed spec fn active(&self) -> ScreenBuffer {
        self.buffers[self.active_buffer as int]
    }

    /// The buffer that the next frame is drawn into.
    pub closed spec fn inactive(&self) -> ScreenBuffer {
        self.buffers[spec_flip_buffer(self.active_buffer) as int]
    }

    /// Both buffers hold one cell for each position of their grids.
    pub open spec fn buffers_wf(&self) -> bool {
        self.active().wf() && self.inactive().wf()
    }

    /// Two blank buffers of the given size, the first of them active.
    pub fn new(size: (u16, u16)) -> (r: Renderer)
        ensures
            r.wf(),
            r.buffers_wf(),
            r.spec_active_index() == 0,
            r.active().spec_size() == (size.0 as usize, size.1 as usize),
            r.inactive().spec_size() == (size.0 as usize, size.1 as usize),
            r.active()@ == blank_cells(size.0 * size.1),
            r.inactive()@ == blank_cells(size.0 * size.1),
    {
        let dims = (size.0 as usize, size.1 as usize);
        proof {
            lemma_screen_fits(size);
        }
        Renderer { buffers: [ScreenBuffer::new(dims), ScreenBuffer::new(dims)], active_buffer: 0 }
    }

    #[verifier::when_used_as_spec(spec_active_index)]
    pub fn active_index(&self) -> (index: usize)
        ensures
            index == self.spec_active_index(),
            index < 2,
    {
        proof {
            use_type_invariant(self);
        }
        self.active_buffer
    }

    /// Takes the inactive buffer out as a frame of the given size. A buffer
    /// of another size is resized first, which blanks it.
    fn begin_frame(&mut self, size: (u16, u16)) -> (frame: Frame)
        ensures
            final(self).wf(),
            final(self).spec_active_index() == old(self).spec_active_index(),
            final(self).active() == old(self).active(),
            frame.buffer().wf(),
            frame.spec_size() == (size.0 as usize, size.1 as usize),
            frame@ == prepared_cells(old(self).inactive(), (size.0 as usize, size.1 as usize)),
    {
        proof {
            use_type_invariant(&*self);
            lemma_screen_fits(size);
        }
        let target = flip_buffer(self.active_buffer);
        let dims = (size.0 as usize, size.1 as usize);
        let mut buf = ScreenBuffer::empty();
        std::mem::swap(&mut self.buffers[target], &mut buf);
        let current = buf.size();
        if current.0 != dims.0 || current.1 != dims.1 {
            buf.resize(dims);
        }
        proof {
            use_type_invariant(&buf);
        }
        Frame::new(buf)
    }

    /// Puts the buffer of a finished frame back as the inactive buffer.
    fn end_frame(&mut self, frame: Frame)
        ensures
            final(self).wf(),
            final(self).spec_active_index() == old(self).spec_active_index(),
            final(self).active() == old(self).active(),
            final(self).inactive() == frame.buffer(),
            final(self).inactive().wf(),
    {
        proof {
            use_type_invariant(&*self);
            use_type_invariant(&frame);
        }
        let target = flip_buffer(self.active_buffer);
        self.buffers[target] = frame.finish();
    }

    /// Hands the inactive buffer, as a frame of the given size, to the
    /// renderer and keeps what it drew for the next flush. The buffer that
    /// the terminal shows is not touched.
    pub fn draw<R: Renderable>(&mut self, size: (u16, u16), f: R)
        requires
            forall|frame: Frame|
                frame.spec_size() == (size.0 as usize, size.1 as usize) ==> #[trigger] f.accepts(
                    frame,
                    Rect::spec_from_size(size),
                ),
        ensures
            final(self).wf(),
            final(self).spec_active_index() == old(self).spec_active_index(),
            final(self).active() == old(self).active(),
            final(self).inactive().wf(),
            exists|r: &mut Frame|
                {
                    &&& r.spec_size() == (size.0 as usize, size.1 as usize)
                    &&& r@ == prepared_cells(old(self).inactive(), (size.0 as usize, size.1 as usize))
                    &&& #[trigger] call_ensures(R::render, (&f, r, Rect::spec_from_size(size)), ())
                    &&& final(self).inactive() == final(r).buffer()
                },
    {
        let mut frame = self.begin_frame(size);
        let bounds = Rect::from(size);
        let render = R::render;
        render(&f, &mut frame, bounds);
        self.end_frame(frame);
    }

    /// The patch that the next flush paints.
    pub fn patch(&self) -> (d: ScreenBufferDiff)
        ensures
            d.wf(),
            d.spec_size() == self.inactive().spec_size(),
            d@ == pending_patch(self.active(), self.inactive()),
    {
        proof {
            use_type_invariant(self);
        }
        let active = &self.buffers[self.active_buffer];
        let inactive = &self.buffers[flip_buffer(self.active_buffer)];
        match active.diff(inactive) {
            Ok(d) => d,
            Err(_) => inactive.full_repaint(),
        }
    }

    /// What the terminal has to be sent to show the frame that was drawn
    /// last: the runs of the pending patch. Nothing changes until the
    /// outcome of the write is known, so a flush that failed can be asked
    /// for again and gives the same runs.
    pub fn flush(&self) -> (runs: Vec<DrawRun>)
        ensures
            is_run_list(
                pending_patch(self.active(), self.inactive()),
                self.inactive().spec_size().0 as int,
                self.inactive().spec_size().1 as int,
                runs@,
            ),
    {
        self.patch().runs()
    }

    /// Records that the runs of the last flush were written: the buffer
    /// that was drawn becomes the active one. The other buffer, now stale,
    /// keeps its cells if it has the size of the new active buffer, and is
    /// resized to that size, blank, if it has not.
    pub fn commit_flush(&mut self)
        ensures
            final(self).wf(),
            final(self).buffers_wf(),
            final(self).spec_active_index() == spec_flip_buffer(old(self).spec_active_index()),
            final(self).active() == old(self).inactive(),
            final(self).inactive().spec_size() == old(self).inactive().spec_size(),
            final(self).inactive()@ == prepared_cells(
                old(self).active(),
                old(self).inactive().spec_size(),
            ),
    {
        proof {
            use_type_invariant(&*self);
            lemma_flip_twice(self.active_buffer);
        }
        let drawn = flip_buffer(self.active_buffer);
        let drawn_buffer = &self.buffers[drawn];
        proof {
            use_type_invariant(drawn_buffer);
        }
        let size = drawn_buffer.size();
        let mut stale = ScreenBuffer::empty();
        std::mem::swap(&mut self.buffers[self.active_buffer], &mut stale);
        let current = stale.size();
        if current.0 != size.0 || current.1 != size.1 {
            stale.resize(size);
        }
        proof {
            use_type_invariant(&stale);
        }
        self.buffers[self.active_buffer] = stale;
        self.active_buffer = drawn;
    }
}

/// A grid whose sides fit in sixteen bits has a cell count that fits in a
/// machine word.
pub proof fn lemma_screen_fits(size: (u16, u16))
    ensures
        size.0 * size.1 <= usize::MAX,
{
    let w = size.0 as int;
    let h = size.1 as int;
    assert(w * h <= 0xffff * 0xffff) by (nonlinear_arith)
        requires
            0 <= w <= 0xffff,
            0 <= h <= 0xffff,
    ;
}

/// The terminal interface: the terminal with the renderer whose frames are
/// shown on it.
pub struct Tui {
    terminal: Terminal,
    renderer: Renderer,
}

impl Tui {
    pub closed spec fn spec_terminal(&self) -> Terminal {
        self.terminal
    }

    pub closed spec fn spec_renderer(&self) -> Renderer {
        self.renderer
    }

    pub open spec fn spec_session(&self) -> TerminalSession {
        self.spec_terminal().spec_session()
    }

    /// The input pipeline as a value.
    pub open spec fn spec_pipeline(&self) -> PipelineModel {
        self.spec_terminal().spec_pipeline()
    }

    /// The buffer that the terminal shows.
    pub open spec fn active(&self) -> ScreenBuffer {
        self.spec_renderer().active()
    }

    /// The buffer that the next frame is drawn into.
    pub open spec fn inactive(&self) -> ScreenBuffer {
        self.spec_renderer().inactive()
    }

    /// The state behind a terminal that has just been opened with the given
    /// dimensions: an open session, a running pipeline with an empty queue,
    /// and two blank buffers of the terminal's size, the first one active.
    pub fn new(columns: u16, rows: u16) -> (tui: Tui)
        ensures
            tui.spec_session().spec_is_open(),
            tui.spec_session().spec_dimensions() == (columns, rows),
            tui.spec_session().spec_current_size() == (columns as usize, rows as usize),
            tui.spec_pipeline() == PipelineModel::start(EVENT_QUEUE_CAPACITY as nat),
            tui.spec_renderer().buffers_wf(),
            tui.spec_renderer().spec_active_index() == 0,
            tui.active().spec_size() == (columns as usize, rows as usize),
            tui.inactive().spec_size() == (columns as usize, rows as usize),
            tui.active()@ == blank_cells(columns * rows),
            tui.inactive()@ == blank_cells(columns * rows),
    {
        Tui { terminal: Terminal::new(columns, rows), renderer: Renderer::new((columns, rows)) }
    }

    /// The last known dimensions of the terminal: columns, then rows.
    pub fn size(&self) -> (size: (usize, usize))
        ensures
            size == self.spec_session().spec_current_size(),
    {
        self.terminal.size()
    }

    /// Whether the terminal session is still open.
    pub fn is_open(&self) -> (open: bool)
        ensures
            open == self.spec_session().spec_is_open(),
    {
        self.terminal.is_open()
    }

    /// The index of the buffer that the terminal shows.
    pub fn active_index(&self) -> (index: usize)
        ensures
            index == self.spec_renderer().spec_active_index(),
            index < 2,
    {
        self.renderer.active_index()
    }

    /// Lets `f` draw the next frame: it receives the inactive buffer as a
    /// frame of the terminal's current size, together with the bounds of
    /// that frame, and what it leaves in the frame is what the next flush
    /// shows. Neither the buffer that the terminal shows nor the terminal
    /// is touched.
    pub fn draw<R: Renderable>(&mut self, f: R)
        requires
            forall|frame: Frame|
                frame.spec_size() == old(self).spec_session().spec_current_size()
                    ==> #[trigger] f.accepts(
                    frame,
                    Rect::spec_from_size(old(self).spec_session().spec_dimensions()),
                ),
        ensures
            final(self).spec_terminal() == old(self).spec_terminal(),
            final(self).spec_renderer().spec_active_index() == old(
                self,
            ).spec_renderer().spec_active_index(),
            final(self).active() == old(self).active(),
            final(self).inactive().wf(),
            exists|r: &mut Frame|
                {
                    &&& r.spec_size() == old(self).spec_session().spec_current_size()
                    &&& r@ == prepared_cells(
                        old(self).inactive(),
                        old(self).spec_session().spec_current_size(),
                    )
                    &&& #[trigger] call_ensures(
                        R::render,
                        (&f, r, Rect::spec_from_size(old(self).spec_session().spec_dimensions())),
                        (),
                    )
                    &&& final(self).inactive() == final(r).buffer()
                },
    {
        let size = self.terminal.dimensions();
        assert forall|frame: Frame|
            frame.spec_size() == (size.0 as usize, size.1 as usize) implies #[trigger] f.accepts(
            frame,
            Rect::spec_from_size(size),
        ) by {
            assert(f.accepts(frame, Rect::spec_from_size(self.spec_session().spec_dimensions())));
        }
        let ghost before = self.renderer;
        self.renderer.draw(size, f);
        proof {
            let r = choose|r: &mut Frame|
                {
                    &&& r.spec_size() == (size.0 as usize, size.1 as usize)
                    &&& r@ == prepared_cells(before.inactive(), (size.0 as usize, size.1 as usize))
                    &&& #[trigger] call_ensures(R::render, (&f, r, Rect::spec_from_size(size)), ())
                    &&& self.renderer.inactive() == final(r).buffer()
                };
            assert(call_ensures(
                R::render,
                (&f, r, Rect::spec_from_size(old(self).spec_session().spec_dimensions())),
                (),
            ));
        }
    }

    /// What the terminal has to be sent to show the frame that was drawn
    /// last: the runs of the pending patch. Nothing changes until the
    /// outcome of the write is known, so a flush that failed can be asked
    /// for again and gives the same runs.
    pub fn flush(&self) -> (runs: Vec<DrawRun>)
        ensures
            is_run_list(
                pending_patch(self.active(), self.inactive()),
                self.inactive().spec_size().0 as int,
                self.inactive().spec_size().1 as int,
                runs@,
            ),
    {
        let patch = self.renderer.patch();
        self.terminal.draw_buffer_diff(&patch)
    }

    /// Records that the runs of the last flush were written. See
    /// [`Renderer::commit_flush`].
    pub fn commit_flush(&mut self)
        ensures
            final(self).spec_terminal() == old(self).spec_terminal(),
            final(self).spec_renderer().buffers_wf(),
            final(self).spec_renderer().spec_active_index() == spec_flip_buffer(
                old(self).spec_renderer().spec_active_index(),
            ),
            final(self).active() == old(self).inactive(),
            final(self).inactive().spec_size() == old(self).inactive().spec_size(),
            final(self).inactive()@ == prepared_cells(
                old(self).active(),
                old(self).inactive().spec_size(),
            ),
    {
        self.renderer.commit_flush();
    }

    /// One step of the capture task. See [`Terminal::offer_input`].
    pub fn offer_input(&mut self, input: Input) -> (offer: Offer)
        ensures
            offer == old(self).spec_pipeline().offer_result(input),
            final(self).spec_pipeline() == old(self).spec_pipeline().offer(input),
            final(self).spec_renderer() == old(self).spec_renderer(),
            final(self).spec_session().spec_is_open() == old(self).spec_session().spec_is_open(),
            final(self).spec_session().spec_dimensions() == old(
                self,
            ).spec_pipeline().observed_dimensions(input, old(self).spec_session().spec_dimensions()),
    {
        self.terminal.offer_input(input)
    }

    /// One step of the consumer. See [`Terminal::recv_event`].
    pub fn recv_event(&mut self) -> (r: Recv)
        ensures
            r == old(self).spec_pipeline().recv_result(),
            final(self).spec_pipeline() == old(self).spec_pipeline().recv(),
            final(self).spec_session() == old(self).spec_session(),
            final(self).spec_renderer() == old(self).spec_renderer(),
    {
        self.terminal.recv_event()
    }

    /// Ends the work with the terminal: cancels the input pipeline and
    /// closes the session. Hands out what has to be sent to restore the
    /// terminal, which is nothing if the session was closed before.
    pub fn exit(&mut self) -> (commands: Vec<TerminalCommand>)
        ensures
            commands@ == old(self).spec_session().spec_close_commands(),
            final(self).spec_session() == old(self).spec_session().spec_closed(),
            final(self).spec_pipeline() == old(self).spec_pipeline().cancel(),
            final(self).spec_renderer() == old(self).spec_renderer(),
    {
        self.terminal.exit()
    }
}

/// Flushing a frame that equals what the terminal shows writes nothing.
pub proof fn lemma_unchanged_frame_writes_nothing(
    active: ScreenBuffer,
    inactive: ScreenBuffer,
    runs: Seq<DrawRun>,
)
    requires
        active.wf(),
        inactive.wf(),
        active.spec_size() == inactive.spec_size(),
        active@ == inactive@,
        is_run_list(
            pending_patch(active, inactive),
            inactive.spec_size().0 as int,
            inactive.spec_size().1 as int,
            runs,
        ),
    ensures
        is_empty_patch(pending_patch(active, inactive)),
        runs.len() == 0,
{
    lemma_diff_same_is_empty(active@);
    inactive.lemma_len();
    lemma_empty_patch_has_no_runs(
        pending_patch(active, inactive),
        inactive.spec_size().0 as int,
        inactive.spec_size().1 as int,
        runs,
    );
}

/// Writing the runs of a flush makes the terminal show the frame that was
/// drawn: a terminal that shows the active buffer, if the two buffers have
/// the same size, and any terminal of the new size after a resize.
pub proof fn lemma_flush_shows_frame(
    active: ScreenBuffer,
    inactive: ScreenBuffer,
    screen: Seq<Cell>,
    runs: Seq<DrawRun>,
)
    requires
        active.wf(),
        inactive.wf(),
        screen.len() == inactive@.len(),
        active.spec_size() == inactive.spec_size() ==> screen == active@,
        is_run_list(
            pending_patch(active, inactive),
            inactive.spec_size().0 as int,
            inactive.spec_size().1 as int,
            runs,
        ),
    ensures
        paint_runs(screen, inactive.spec_size().0 as int, runs) == inactive@,
{
    let patch = pending_patch(active, inactive);
    let w = inactive.spec_size().0 as int;
    let h = inactive.spec_size().1 as int;
    active.lemma_len();
    inactive.lemma_len();
    lemma_runs_paint_patch(screen, patch, w, h, runs);
    if active.spec_size() == inactive.spec_size() {
        lemma_apply_diff(active@, inactive@);
    } else {
        lemma_apply_full_repaint(screen, inactive@);
    }
}

} // verus!

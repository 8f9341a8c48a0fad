//! The input pipeline: the bounded, ordered queue between the task that
//! captures terminal events and the single consumer that handles them.
//!
//! The pipeline decides what becomes of each thing the capture task
//! observes and of each receive; waiting for the terminal, for room in the
//! queue or for the next event is left to whoever drives it.

use crate::term::session::TerminalSession;
use std::collections::VecDeque;
use vstd::prelude::*;

verus! {

/// The number of events that the queue of a pipeline holds by default.
pub const EVENT_QUEUE_CAPACITY: usize = 20;

/// The key of a key press.
#[derive(Clone, Copy, Debug, PartialEq, Eq, Structural)]
pub enum KeyCode {
    Char(char),
    Backspace,
    Enter,
    Esc,
    /// Any key that is not told apart.
    Other,
}

/// A key press: the key, and whether the control modifier was held.
#[derive(Clone, Copy, Debug, PartialEq, Eq, Structural)]
pub struct KeyEvent {
    pub code: KeyCode,
    pub control: bool,
}

/// An event of the terminal.
#[derive(Clone, Copy, Debug, PartialEq, Eq, Structural)]
pub enum Event {
    Key(KeyEvent),
    /// The terminal now has this many columns and rows.
    Resize(u16, u16),
    /// Any event that is not told apart.
    Other,
}

/// What the capture task observed while it waited.
#[derive(Clone, Copy, Debug, PartialEq, Eq, Structural)]
pub enum Input {
    /// The terminal produced an event.
    Event(Event),
    /// Reading the terminal failed once.
    Failed,
    /// The terminal was closed: no event will follow.
    Closed,
    /// Cancellation was signalled.
    Cancelled,
}

/// What the capture task has to do after it offered an observation.
#[derive(Clone, Copy, Debug, PartialEq, Eq, Structural)]
pub enum Offer {
    /// The event is in the queue; go on capturing.
    Accepted,
    /// The queue is full. The event was not taken: wait until the consumer
    /// has made room and offer it again.
    Full,
    /// Nothing was to be forwarded; go on capturing.
    Ignored,
    /// Stop capturing and leave.
    Stop,
}

/// What a receive found.
#[derive(Clone, Copy, Debug, PartialEq, Eq, Structural)]
pub enum Recv {
    /// The oldest event in the queue.
    Event(Event),
    /// The queue is empty and more may come: wait, then receive again.
    Pending,
    /// The queue is empty and nothing will come: the stream has ended.
    End,
}

/// Where a pipeline stands in its life.
#[derive(Clone, Copy, Debug, PartialEq, Eq, Structural)]
pub enum PipelineState {
    /// Events are captured and forwarded.
    Running,
    /// Capture has ended; what is in the queue can still be received.
    Cancelling,
    /// Capture has ended and the consumer has seen the end of the stream.
    Stopped,
}

/// The pipeline as a value: its state, the events waiting in arrival order,
/// and the bound on how many may wait.
pub struct PipelineModel {
    pub state: PipelineState,
    pub queue: Seq<Event>,
    pub capacity: nat,
}

impl PipelineModel {
    /// The queue respects its bound, and a stopped pipeline holds nothing.
    pub open spec fn wf(self) -> bool {
        &&& self.capacity >= 1
        &&& self.queue.len() <= self.capacity
        &&& self.state == PipelineState::Stopped ==> self.queue.len() == 0
    }

    /// A running pipeline with an empty queue.
    pub open spec fn start(capacity: nat) -> PipelineModel {
        PipelineModel { state: PipelineState::Running, queue: Seq::empty(), capacity }
    }

    /// Signals cancellation: a running pipeline ends capture, any other
    /// stays as it is. The queue is not touched.
    pub open spec fn cancel(self) -> PipelineModel {
        if self.state == PipelineState::Running {
            PipelineModel { state: PipelineState::Cancelling, ..self }
        } else {
            self
        }
    }

    /// What the capture task is told when it offers an observation.
    pub open spec fn offer_result(self, input: Input) -> Offer {
        if self.state != PipelineState::Running {
            Offer::Stop
        } else {
            match input {
                Input::Cancelled => Offer::Stop,
                Input::Closed => Offer::Stop,
                Input::Failed => Offer::Ignored,
                Input::Event(_) => if self.queue.len() >= self.capacity {
                    Offer::Full
                } else {
                    Offer::Accepted
                },
            }
        }
    }

    /// The pipeline after the capture task offered an observation: an
    /// accepted event joins the end of the queue, the end of input or a
    /// cancellation ends capture, and everything else changes nothing.
    pub open spec fn offer(self, input: Input) -> PipelineModel {
        match (self.offer_result(input), input) {
            (Offer::Accepted, Input::Event(event)) => PipelineModel {
                queue: self.queue.push(event),
                ..self
            },
            (Offer::Stop, _) => self.cancel(),
            _ => self,
        }
    }

    /// The dimensions of the terminal that are known after an observation
    /// was offered: those that a resize notification carries, as soon as a
    /// running pipeline is offered it, and the ones known before in every
    /// other case.
    pub open spec fn observed_dimensions(self, input: Input, known: (u16, u16)) -> (u16, u16) {
        if self.state == PipelineState::Running {
            match input {
                Input::Event(Event::Resize(columns, rows)) => (columns, rows),
                _ => known,
            }
        } else {
            known
        }
    }

    /// What a receive finds.
    pub open spec fn recv_result(self) -> Recv {
        if self.queue.len() > 0 {
            Recv::Event(self.queue[0])
        } else if self.state == PipelineState::Running {
            Recv::Pending
        } else {
            Recv::End
        }
    }

    /// The pipeline after a receive: the oldest event has left the queue,
    /// or, where capture has ended and the queue is empty, the pipeline has
    /// stopped.
    pub open spec fn recv(self) -> PipelineModel {
        if self.queue.len() > 0 {
            PipelineModel { queue: self.queue.subrange(1, self.queue.len() as int), ..self }
        } else if self.state == PipelineState::Running {
            self
        } else {
            PipelineModel { state: PipelineState::Stopped, ..self }
        }
    }

    /// The pipeline after the capture task offered each of the events in
    /// turn.
    pub open spec fn offer_all(self, events: Seq<Event>) -> PipelineModel
        decreases events.len(),
    {
        if events.len() == 0 {
            self
        } else {
            self.offer_all(events.drop_last()).offer(Input::Event(events.last()))
        }
    }

    /// The pipeline after `n` receives in a row.
    pub open spec fn recv_n(self, n: nat) -> PipelineModel
        decreases n,
    {
        if n == 0 {
            self
        } else {
            self.recv().recv_n((n - 1) as nat)
        }
    }
}

/// The queue between the capture task and the consumer, with the state of
/// the capture.
pub struct InputPipeline {
    state: PipelineState,
    queue: VecDeque<Event>,
    capacity: usize,
}

impl InputPipeline {
    #[verifier::type_invariant]
    pub closed spec fn wf(self) -> bool {
        self.view().wf()
    }

    /// The pipeline as a value.
    pub closed spec fn view(&self) -> PipelineModel {
        PipelineModel { state: self.state, queue: self.queue@, capacity: self.capacity as nat }
    }

    /// A running pipeline whose queue is empty and holds at most `capacity`
    /// events.
    pub fn new(capacity: usize) -> (pipeline: InputPipeline)
        requires
            capacity >= 1,
        ensures
            pipeline.wf(),
            pipeline@.wf(),
            pipeline@ == PipelineModel::start(capacity as nat),
    {
        InputPipeline { state: PipelineState::Running, queue: VecDeque::new(), capacity }
    }

    pub fn state(&self) -> (state: PipelineState)
        ensures
            state == self@.state,
    {
        self.state
    }

    /// The number of events waiting to be received.
    pub fn pending(&self) -> (n: usize)
        ensures
            n == self@.queue.len(),
            n <= self@.capacity,
    {
        proof {
            use_type_invariant(self);
        }
        self.queue.len()
    }

    pub fn capacity(&self) -> (n: usize)
        ensures
            n == self@.capacity,
            n >= 1,
    {
        proof {
            use_type_invariant(self);
        }
        self.capacity
    }

    /// Signals cancellation. Calling it again changes nothing, and no event
    /// that waits in the queue is lost.
    pub fn cancel(&mut self)
        ensures
            final(self).wf(),
            final(self)@.wf(),
            final(self)@ == old(self)@.cancel(),
            final(self)@.queue == old(self)@.queue,
            final(self)@.state != PipelineState::Running,
    {
        proof {
            use_type_invariant(&*self);
        }
        if self.state == PipelineState::Running {
            self.state = PipelineState::Cancelling;
        }
    }

    /// One step of the capture task: takes what it observed and says what
    /// it has to do next. An event is forwarded in arrival order if the
    /// queue has room and is never dropped: where there is no room, it is
    /// handed back to be offered again. The dimensions that a resize
    /// notification carries are recorded in the session before the
    /// notification is forwarded, whether or not the queue has room for it
    /// yet.
    pub fn offer(&mut self, session: &mut TerminalSession, input: Input) -> (offer: Offer)
        ensures
            final(self).wf(),
            final(self)@.wf(),
            offer == old(self)@.offer_result(input),
            final(self)@ == old(self)@.offer(input),
            final(session).spec_is_open() == old(session).spec_is_open(),
            final(session).spec_dimensions() == old(self)@.observed_dimensions(
                input,
                old(session).spec_dimensions(),
            ),
    {
        proof {
            use_type_invariant(&*self);
        }
        if self.state != PipelineState::Running {
            return Offer::Stop;
        }
        match input {
            Input::Cancelled => {
                self.state = PipelineState::Cancelling;
                Offer::Stop
            },
            Input::Closed => {
                self.state = PipelineState::Cancelling;
                Offer::Stop
            },
            Input::Failed => Offer::Ignored,
            Input::Event(event) => {
                if let Event::Resize(columns, rows) = event {
                    session.set_size(columns, rows);
                }
                if self.queue.len() >= self.capacity {
                    Offer::Full
                } else {
                    let mut queue: VecDeque<Event> = VecDeque::new();
                    std::mem::swap(&mut self.queue, &mut queue);
                    queue.push_back(event);
                    self.queue = queue;
                    Offer::Accepted
                }
            },
        }
    }

    /// One step of the consumer: the oldest waiting event if there is one;
    /// otherwise the news that more may come, or that the stream has ended.
    pub fn recv(&mut self) -> (r: Recv)
        ensures
            final(self).wf(),
            final(self)@.wf(),
            r == old(self)@.recv_result(),
            final(self)@ == old(self)@.recv(),
    {
        proof {
            use_type_invariant(&*self);
        }
        let mut queue: VecDeque<Event> = VecDeque::new();
        std::mem::swap(&mut self.queue, &mut queue);
        let front = queue.pop_front();
        self.queue = queue;
        match front {
            Some(event) => Recv::Event(event),
            None => {
                if self.state == PipelineState::Running {
                    Recv::Pending
                } else {
                    self.state = PipelineState::Stopped;
                    Recv::End
                }
            },
        }
    }
}

impl PipelineModel {
    /// Every step keeps the queue within its bound.
    pub proof fn lemma_steps_keep_wf(self, input: Input)
        requires
            self.wf(),
        ensures
            self.cancel().wf(),
            self.offer(input).wf(),
            self.recv().wf(),
    {
    }

    /// Cancellation is idempotent and never touches the queue.
    pub proof fn lemma_cancel_idempotent(self)
        ensures
            self.cancel().cancel() == self.cancel(),
            self.cancel().queue == self.queue,
            self.cancel().state != PipelineState::Running,
    {
    }

    /// Events are neither dropped nor reordered on the way in: an offer
    /// either appends the event to the queue or leaves the queue as it was,
    /// and the capture task is told which.
    pub proof fn lemma_offer_keeps_order(self, input: Input)
        ensures
            self.offer_result(input) == Offer::Accepted ==> (input matches Input::Event(event)
                && self.offer(input).queue == self.queue.push(event)),
            self.offer_result(input) != Offer::Accepted ==> self.offer(input).queue == self.queue,
            self.offer_result(input) == Offer::Full ==> self.offer(input) == self,
    {
    }

    /// A resize notification never reaches the consumer before its
    /// dimensions are known: the step that puts it in the queue has
    /// recorded them.
    pub proof fn lemma_resize_known_before_delivery(
        self,
        columns: u16,
        rows: u16,
        known: (u16, u16),
    )
        ensures
            ({
                let input = Input::Event(Event::Resize(columns, rows));
                self.offer_result(input) == Offer::Accepted ==> {
                    &&& self.observed_dimensions(input, known) == (columns, rows)
                    &&& self.offer(input).queue.last() == Event::Resize(columns, rows)
                }
            }),
    {
    }

    /// Once capture has ended nothing more is forwarded, whatever the
    /// capture task still observes.
    pub proof fn lemma_nothing_forwarded_after_cancel(self, input: Input)
        requires
            self.state != PipelineState::Running,
        ensures
            self.offer_result(input) == Offer::Stop,
            self.offer(input) == self,
    {
    }

    /// Receiving takes events out of the queue in arrival order: after `k`
    /// receives the first `k` events have left, the `k`-th receive having
    /// found the `k`-th event, and the rest still wait, untouched.
    pub proof fn lemma_drain_prefix(self, k: nat)
        requires
            self.wf(),
            k <= self.queue.len(),
        ensures
            self.recv_n(k).queue == self.queue.subrange(k as int, self.queue.len() as int),
            self.recv_n(k).capacity == self.capacity,
            self.recv_n(k).state == self.state,
            k < self.queue.len() ==> self.recv_n(k).recv_result() == Recv::Event(self.queue[k as int]),
        decreases k,
    {
        if k == 0 {
            assert(self.queue.subrange(0, self.queue.len() as int) =~= self.queue);
        } else {
            let next = self.recv();
            assert(next.queue == self.queue.subrange(1, self.queue.len() as int));
            next.lemma_drain_prefix((k - 1) as nat);
            assert(next.queue.subrange(k - 1, next.queue.len() as int) =~= self.queue.subrange(
                k as int,
                self.queue.len() as int,
            ));
        }
    }

    /// Events that a running pipeline has room for are forwarded in the
    /// order in which they are offered, behind those that already wait, and
    /// come out in that same order.
    pub proof fn lemma_offered_events_arrive_in_order(self, events: Seq<Event>)
        requires
            self.wf(),
            self.state == PipelineState::Running,
            self.queue.len() + events.len() <= self.capacity,
        ensures
            self.offer_all(events).wf(),
            self.offer_all(events).state == PipelineState::Running,
            self.offer_all(events).capacity == self.capacity,
            self.offer_all(events).queue == self.queue + events,
            forall|k: nat|
                k < self.queue.len() + events.len() ==> #[trigger] self.offer_all(events).recv_n(
                    k,
                ).recv_result() == Recv::Event((self.queue + events)[k as int]),
        decreases events.len(),
    {
        if events.len() == 0 {
            assert(self.queue + events =~= self.queue);
        } else {
            self.lemma_offered_events_arrive_in_order(events.drop_last());
            let before = self.offer_all(events.drop_last());
            let last = events.last();
            assert(before.queue == self.queue + events.drop_last());
            assert(before.queue.len() < before.capacity);
            assert(before.offer_result(Input::Event(last)) == Offer::Accepted);
            assert(self.offer_all(events) == before.offer(Input::Event(last)));
            assert(before.queue.push(last) =~= self.queue + events);
        }
        let after = self.offer_all(events);
        assert forall|k: nat| k < self.queue.len() + events.len() implies #[trigger] after.recv_n(
            k,
        ).recv_result() == Recv::Event((self.queue + events)[k as int]) by {
            after.lemma_drain_prefix(k);
        }
    }

    /// A cancelled pipeline delivers every event that was in the queue when
    /// it was cancelled, in order, and then reports the end of the stream:
    /// the receive after the last event finds the end, and the pipeline has
    /// stopped.
    pub proof fn lemma_cancelled_drains_then_ends(self)
        requires
            self.wf(),
        ensures
            forall|k: nat|
                k < self.queue.len() ==> #[trigger] self.cancel().recv_n(k).recv_result()
                    == Recv::Event(self.queue[k as int]),
            self.cancel().recv_n(self.queue.len()).recv_result() == Recv::End,
            self.cancel().recv_n(self.queue.len() + 1).state == PipelineState::Stopped,
            self.cancel().recv_n(self.queue.len() + 1).recv_result() == Recv::End,
    {
        let c = self.cancel();
        let n = self.queue.len();
        assert forall|k: nat| k < n implies #[trigger] c.recv_n(k).recv_result() == Recv::Event(
            self.queue[k as int],
        ) by {
            c.lemma_drain_prefix(k);
        }
        c.lemma_drain_prefix(n);
        c.lemma_recv_n_step(n);
    }

    /// One more receive after `n` is a receive from the state that `n`
    /// receives have reached.
    pub proof fn lemma_recv_n_step(self, n: nat)
        ensures
            self.recv_n(n + 1) == self.recv_n(n).recv(),
        decreases n,
    {
        if n > 0 {
            self.recv().lemma_recv_n_step((n - 1) as nat);
        }
        assert(self.recv_n(n + 1) == self.recv().recv_n(n));
    }

    /// Once the end of the stream has been found, every later receive finds
    /// it again.
    pub proof fn lemma_end_is_final(self)
        requires
            self.wf(),
            self.recv_result() == Recv::End,
        ensures
            self.recv().recv_result() == Recv::End,
            self.recv().state == PipelineState::Stopped,
            self.recv().recv() == self.recv(),
    {
    }
}

} // verus!

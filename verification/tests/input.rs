use tectyl::term::input::{
    Event, Input, InputPipeline, KeyCode, KeyEvent, Offer, PipelineState, Recv,
    EVENT_QUEUE_CAPACITY,
};
use tectyl::term::session::TerminalSession;

fn key(ch: char) -> Event {
    Event::Key(KeyEvent { code: KeyCode::Char(ch), control: false })
}

#[test]
fn default_capacity_is_twenty() {
    assert_eq!(EVENT_QUEUE_CAPACITY, 20);
}

#[test]
fn events_arrive_in_order() {
    let mut session = TerminalSession::open(80, 24);
    let mut pipeline = InputPipeline::new(4);
    assert_eq!(pipeline.state(), PipelineState::Running);
    assert_eq!(pipeline.capacity(), 4);
    assert_eq!(pipeline.recv(), Recv::Pending);
    assert_eq!(pipeline.offer(&mut session, Input::Event(key('a'))), Offer::Accepted);
    assert_eq!(pipeline.offer(&mut session, Input::Event(Event::Other)), Offer::Accepted);
    assert_eq!(pipeline.offer(&mut session, Input::Event(key('b'))), Offer::Accepted);
    assert_eq!(pipeline.pending(), 3);
    assert_eq!(pipeline.recv(), Recv::Event(key('a')));
    assert_eq!(pipeline.recv(), Recv::Event(Event::Other));
    assert_eq!(pipeline.recv(), Recv::Event(key('b')));
    assert_eq!(pipeline.recv(), Recv::Pending);
    assert_eq!(pipeline.state(), PipelineState::Running);
}

#[test]
fn full_queue_pushes_back_and_drops_nothing() {
    let mut session = TerminalSession::open(80, 24);
    let mut pipeline = InputPipeline::new(2);
    assert_eq!(pipeline.offer(&mut session, Input::Event(key('a'))), Offer::Accepted);
    assert_eq!(pipeline.offer(&mut session, Input::Event(key('b'))), Offer::Accepted);
    assert_eq!(pipeline.offer(&mut session, Input::Event(key('c'))), Offer::Full);
    assert_eq!(pipeline.pending(), 2);
    assert_eq!(pipeline.recv(), Recv::Event(key('a')));
    assert_eq!(pipeline.offer(&mut session, Input::Event(key('c'))), Offer::Accepted);
    assert_eq!(pipeline.recv(), Recv::Event(key('b')));
    assert_eq!(pipeline.recv(), Recv::Event(key('c')));
}

#[test]
fn resize_updates_the_session_when_forwarded() {
    let mut session = TerminalSession::open(80, 24);
    let mut pipeline = InputPipeline::new(EVENT_QUEUE_CAPACITY);
    assert_eq!(pipeline.offer(&mut session, Input::Event(Event::Resize(100, 30))), Offer::Accepted);
    assert_eq!(session.current_size(), (100, 30));
    assert_eq!(pipeline.recv(), Recv::Event(Event::Resize(100, 30)));
    assert_eq!(session.current_size(), (100, 30));
}

#[test]
fn resize_is_recorded_even_while_the_queue_is_full() {
    let mut session = TerminalSession::open(80, 24);
    let mut pipeline = InputPipeline::new(1);
    assert_eq!(pipeline.offer(&mut session, Input::Event(key('a'))), Offer::Accepted);
    assert_eq!(pipeline.offer(&mut session, Input::Event(Event::Resize(10, 5))), Offer::Full);
    assert_eq!(session.current_size(), (10, 5));
    assert_eq!(pipeline.recv(), Recv::Event(key('a')));
    assert_eq!(pipeline.offer(&mut session, Input::Event(Event::Resize(10, 5))), Offer::Accepted);
    assert_eq!(session.current_size(), (10, 5));
    assert_eq!(pipeline.recv(), Recv::Event(Event::Resize(10, 5)));
}

#[test]
fn read_failures_are_skipped() {
    let mut session = TerminalSession::open(80, 24);
    let mut pipeline = InputPipeline::new(2);
    assert_eq!(pipeline.offer(&mut session, Input::Failed), Offer::Ignored);
    assert_eq!(pipeline.pending(), 0);
    assert_eq!(pipeline.state(), PipelineState::Running);
}

#[test]
fn cancelled_pipeline_drains_then_ends() {
    let mut session = TerminalSession::open(80, 24);
    let mut pipeline = InputPipeline::new(4);
    assert_eq!(pipeline.offer(&mut session, Input::Event(key('a'))), Offer::Accepted);
    assert_eq!(pipeline.offer(&mut session, Input::Event(key('b'))), Offer::Accepted);
    pipeline.cancel();
    assert_eq!(pipeline.state(), PipelineState::Cancelling);
    pipeline.cancel();
    assert_eq!(pipeline.state(), PipelineState::Cancelling);
    assert_eq!(pipeline.offer(&mut session, Input::Event(key('c'))), Offer::Stop);
    assert_eq!(pipeline.offer(&mut session, Input::Event(Event::Resize(1, 1))), Offer::Stop);
    assert_eq!(session.current_size(), (80, 24));
    assert_eq!(pipeline.pending(), 2);
    assert_eq!(pipeline.recv(), Recv::Event(key('a')));
    assert_eq!(pipeline.recv(), Recv::Event(key('b')));
    assert_eq!(pipeline.recv(), Recv::End);
    assert_eq!(pipeline.state(), PipelineState::Stopped);
    assert_eq!(pipeline.recv(), Recv::End);
    pipeline.cancel();
    assert_eq!(pipeline.state(), PipelineState::Stopped);
}

#[test]
fn end_of_input_ends_the_stream_after_draining() {
    let mut session = TerminalSession::open(80, 24);
    let mut pipeline = InputPipeline::new(4);
    assert_eq!(pipeline.offer(&mut session, Input::Event(key('a'))), Offer::Accepted);
    assert_eq!(pipeline.offer(&mut session, Input::Closed), Offer::Stop);
    assert_eq!(pipeline.state(), PipelineState::Cancelling);
    assert_eq!(pipeline.recv(), Recv::Event(key('a')));
    assert_eq!(pipeline.recv(), Recv::End);
    assert_eq!(pipeline.state(), PipelineState::Stopped);
}

#[test]
fn cancellation_seen_by_the_capture_task_stops_it() {
    let mut session = TerminalSession::open(80, 24);
    let mut pipeline = InputPipeline::new(4);
    assert_eq!(pipeline.offer(&mut session, Input::Cancelled), Offer::Stop);
    assert_eq!(pipeline.state(), PipelineState::Cancelling);
    assert_eq!(pipeline.recv(), Recv::End);
}

use tectyl::term::input::{Event, Input, KeyCode, KeyEvent, Offer, Recv, EVENT_QUEUE_CAPACITY};
use tectyl::term::runs::DrawRun;
use tectyl::term::session::TerminalCommand;
use tectyl::term::terminal::Terminal;
use tectyl::term::util::{Cell, ScreenBuffer};

fn key(ch: char) -> Event {
    Event::Key(KeyEvent { code: KeyCode::Char(ch), control: false })
}

#[test]
fn new_terminal_is_open_and_idle() {
    let mut terminal = Terminal::new(80, 24);
    assert!(terminal.is_open());
    assert_eq!(terminal.size(), (80, 24));
    assert_eq!(terminal.dimensions(), (80, 24));
    assert_eq!(terminal.recv_event(), Recv::Pending);
}

#[test]
fn queue_holds_twenty_events() {
    let mut terminal = Terminal::new(80, 24);
    for _ in 0..EVENT_QUEUE_CAPACITY {
        assert_eq!(terminal.offer_input(Input::Event(key('x'))), Offer::Accepted);
    }
    assert_eq!(terminal.offer_input(Input::Event(key('y'))), Offer::Full);
    assert_eq!(terminal.recv_event(), Recv::Event(key('x')));
    assert_eq!(terminal.offer_input(Input::Event(key('y'))), Offer::Accepted);
    for _ in 1..EVENT_QUEUE_CAPACITY {
        assert_eq!(terminal.recv_event(), Recv::Event(key('x')));
    }
    assert_eq!(terminal.recv_event(), Recv::Event(key('y')));
    assert_eq!(terminal.recv_event(), Recv::Pending);
}

#[test]
fn resize_is_visible_before_it_is_delivered() {
    let mut terminal = Terminal::new(80, 24);
    assert_eq!(terminal.offer_input(Input::Event(key('a'))), Offer::Accepted);
    assert_eq!(terminal.offer_input(Input::Event(Event::Resize(132, 43))), Offer::Accepted);
    assert_eq!(terminal.size(), (132, 43));
    assert_eq!(terminal.recv_event(), Recv::Event(key('a')));
    assert_eq!(terminal.recv_event(), Recv::Event(Event::Resize(132, 43)));
    assert_eq!(terminal.size(), (132, 43));
}

#[test]
fn exit_twice_restores_once() {
    let mut terminal = Terminal::new(80, 24);
    assert_eq!(terminal.offer_input(Input::Event(key('a'))), Offer::Accepted);
    assert_eq!(
        terminal.exit(),
        vec![TerminalCommand::LeaveAlternateScreen, TerminalCommand::DisableRawMode]
    );
    assert!(!terminal.is_open());
    assert_eq!(terminal.exit(), vec![]);
    assert_eq!(terminal.offer_input(Input::Event(key('b'))), Offer::Stop);
    assert_eq!(terminal.recv_event(), Recv::Event(key('a')));
    assert_eq!(terminal.recv_event(), Recv::End);
    assert_eq!(terminal.recv_event(), Recv::End);
}

#[test]
fn stop_needs_no_terminal() {
    assert_eq!(
        Terminal::stop(),
        vec![TerminalCommand::LeaveAlternateScreen, TerminalCommand::DisableRawMode]
    );
}

#[test]
fn draw_buffer_writes_every_row() {
    let terminal = Terminal::new(2, 2);
    let mut buf = ScreenBuffer::new((2, 2));
    buf.set_cell(1, 0, Cell::new('a'));
    assert_eq!(
        terminal.draw_buffer(&buf),
        vec![
            DrawRun { x: 0, y: 0, cells: vec![Cell::new(' '), Cell::new('a')] },
            DrawRun { x: 0, y: 1, cells: vec![Cell::new(' '), Cell::new(' ')] },
        ]
    );
}

#[test]
fn draw_buffer_diff_writes_only_changes() {
    let terminal = Terminal::new(2, 2);
    let before = ScreenBuffer::new((2, 2));
    let mut after = ScreenBuffer::new((2, 2));
    after.set_cell(1, 1, Cell::new('z'));
    let diff = before.diff(&after).unwrap();
    assert_eq!(
        terminal.draw_buffer_diff(&diff),
        vec![DrawRun { x: 1, y: 1, cells: vec![Cell::new('z')] }]
    );
    assert!(terminal.draw_buffer_diff(&before.diff(&before).unwrap()).is_empty());
}

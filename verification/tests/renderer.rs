use tectyl::math::Rect;
use tectyl::term::input::{Event, Input, KeyCode, KeyEvent, Offer, Recv};
use tectyl::term::session::TerminalCommand;
use tectyl::term::tui::{flip_buffer, Frame, Renderable, Renderer, Tui};
use tectyl::term::runs::DrawRun;
use tectyl::term::util::Cell;

fn draw_a(frame: &mut Frame, _bounds: Rect) {
    frame.set_cell(0, 0, Cell::new('A'));
}

#[test]
fn test_flip_buffer() {
    assert_eq!(flip_buffer(1), 0);
    assert_eq!(flip_buffer(0), 1);
}

#[test]
fn new_tui_starts_blank_with_first_buffer_active() {
    let tui = Tui::new(4, 2);
    assert_eq!(tui.size(), (4, 2));
    assert!(tui.is_open());
    assert_eq!(tui.active_index(), 0);
    assert!(tui.flush().is_empty());
}

#[test]
fn unchanged_frame_flushes_nothing() {
    let mut tui = Tui::new(4, 2);
    tui.draw(draw_a);
    let first = tui.flush();
    assert_eq!(first, vec![DrawRun { x: 0, y: 0, cells: vec![Cell::new('A')] }]);
    tui.commit_flush();
    assert_eq!(tui.active_index(), 1);
    tui.draw(draw_a);
    let second = tui.flush();
    assert!(second.is_empty());
    tui.commit_flush();
    assert_eq!(tui.active_index(), 0);
}

#[test]
fn failed_flush_can_be_asked_for_again() {
    let mut tui = Tui::new(4, 2);
    tui.draw(draw_a);
    let first = tui.flush();
    let again = tui.flush();
    assert_eq!(first, again);
    assert_eq!(tui.active_index(), 0);
}

#[test]
fn frame_reports_size_and_bounds() {
    let mut tui = Tui::new(7, 3);
    tui.draw(|frame: &mut Frame, bounds: Rect| {
        assert_eq!(frame.size(), (7, 3));
        assert_eq!(bounds, Rect::new(0, 0, 7, 3));
        assert_eq!(frame.cell(6, 2), Cell::new(' '));
        frame.set_cell(6, 2, Cell::new('#'));
        assert_eq!(frame.cell(6, 2), Cell::new('#'));
    });
    assert_eq!(tui.flush(), vec![DrawRun { x: 6, y: 2, cells: vec![Cell::new('#')] }]);
}

#[test]
fn stale_content_is_overwritten_by_what_is_drawn() {
    let mut tui = Tui::new(3, 1);
    tui.draw(draw_a);
    tui.commit_flush();
    tui.draw(|_frame: &mut Frame, _bounds: Rect| {});
    assert_eq!(tui.flush(), vec![DrawRun { x: 0, y: 0, cells: vec![Cell::new(' ')] }]);
}

#[test]
fn resize_forces_a_full_repaint() {
    let mut tui = Tui::new(2, 2);
    tui.draw(draw_a);
    tui.commit_flush();
    assert_eq!(tui.offer_input(Input::Event(Event::Resize(3, 2))), Offer::Accepted);
    assert_eq!(tui.size(), (3, 2));
    tui.draw(draw_a);
    let runs = tui.flush();
    assert_eq!(
        runs,
        vec![
            DrawRun { x: 0, y: 0, cells: vec![Cell::new('A'), Cell::new(' '), Cell::new(' ')] },
            DrawRun { x: 0, y: 1, cells: vec![Cell::new(' '); 3] },
        ]
    );
    tui.commit_flush();
    tui.draw(draw_a);
    assert!(tui.flush().is_empty());
    assert_eq!(tui.recv_event(), Recv::Event(Event::Resize(3, 2)));
}

#[test]
fn events_reach_the_consumer() {
    let mut tui = Tui::new(2, 2);
    let key = Event::Key(KeyEvent { code: KeyCode::Char('c'), control: true });
    assert_eq!(tui.recv_event(), Recv::Pending);
    assert_eq!(tui.offer_input(Input::Event(key)), Offer::Accepted);
    assert_eq!(tui.recv_event(), Recv::Event(key));
}

#[test]
fn exit_restores_once_and_ends_the_stream() {
    let mut tui = Tui::new(2, 2);
    let key = Event::Key(KeyEvent { code: KeyCode::Enter, control: false });
    assert_eq!(tui.offer_input(Input::Event(key)), Offer::Accepted);
    assert_eq!(
        tui.exit(),
        vec![TerminalCommand::LeaveAlternateScreen, TerminalCommand::DisableRawMode]
    );
    assert!(!tui.is_open());
    assert_eq!(tui.exit(), vec![]);
    assert_eq!(tui.offer_input(Input::Event(key)), Offer::Stop);
    assert_eq!(tui.recv_event(), Recv::Event(key));
    assert_eq!(tui.recv_event(), Recv::End);
}

#[test]
fn renderer_swaps_only_on_commit() {
    let mut renderer = Renderer::new((2, 1));
    assert_eq!(renderer.active_index(), 0);
    renderer.draw((2, 1), draw_a);
    assert_eq!(renderer.active_index(), 0);
    assert!(!renderer.patch().is_empty());
    renderer.commit_flush();
    assert_eq!(renderer.active_index(), 1);
    renderer.draw((2, 1), draw_a);
    assert!(renderer.patch().is_empty());
}

struct Fill(char);

impl Renderable for Fill {
    fn render(&self, frame: &mut Frame, size: Rect) {
        for y in 0..size.height() as usize {
            for x in 0..size.width() as usize {
                frame.set_cell(x, y, Cell::new(self.0));
            }
        }
    }
}

#[test]
fn widgets_render_like_closures() {
    let mut tui = Tui::new(2, 2);
    tui.draw(Fill('#'));
    assert_eq!(
        tui.flush(),
        vec![
            DrawRun { x: 0, y: 0, cells: vec![Cell::new('#'); 2] },
            DrawRun { x: 0, y: 1, cells: vec![Cell::new('#'); 2] },
        ]
    );
}

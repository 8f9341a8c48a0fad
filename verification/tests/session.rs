use tectyl::term::session::{TerminalCommand, TerminalSession};

#[test]
fn open_commands_enter_raw_mode_then_alternate_screen() {
    assert_eq!(
        TerminalSession::open_commands(),
        vec![TerminalCommand::EnableRawMode, TerminalCommand::EnterAlternateScreen]
    );
}

#[test]
fn open_records_the_size() {
    let session = TerminalSession::open(80, 24);
    assert!(session.is_open());
    assert_eq!(session.current_size(), (80, 24));
    assert_eq!(session.dimensions(), (80, 24));
}

#[test]
fn close_restores_once() {
    let mut session = TerminalSession::open(80, 24);
    assert_eq!(
        session.close(),
        vec![TerminalCommand::LeaveAlternateScreen, TerminalCommand::DisableRawMode]
    );
    assert!(!session.is_open());
    assert_eq!(session.close(), vec![]);
    assert_eq!(session.close(), vec![]);
    assert!(!session.is_open());
    assert_eq!(session.current_size(), (80, 24));
}

#[test]
fn emergency_restore_needs_no_session() {
    let expected = vec![TerminalCommand::LeaveAlternateScreen, TerminalCommand::DisableRawMode];
    assert_eq!(TerminalSession::emergency_restore(), expected);
    assert_eq!(TerminalSession::emergency_restore(), expected);
}

#[test]
fn set_size_replaces_the_dimensions() {
    let mut session = TerminalSession::open(80, 24);
    session.set_size(120, 40);
    assert_eq!(session.current_size(), (120, 40));
    assert!(session.is_open());
}

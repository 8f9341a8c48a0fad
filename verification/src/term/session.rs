//! The terminal session: which mode the physical terminal is in, what has to
//! be sent to it to enter and to leave that mode, and the last known size.
//!
//! The session decides; it performs no I/O. Whoever owns the output stream
//! sends the commands that the session hands out.

use vstd::prelude::*;

verus! {

/// A change of terminal mode to be carried out on the device.
#[derive(Clone, Copy, Debug, PartialEq, Eq, Structural)]
pub enum TerminalCommand {
    /// Deliver keystrokes at once, unbuffered and unechoed.
    EnableRawMode,
    /// Switch to the secondary display surface.
    EnterAlternateScreen,
    /// Switch back to the primary display surface.
    LeaveAlternateScreen,
    /// Restore line-buffered, echoed input.
    DisableRawMode,
}

/// What entering the session sends: raw mode first, then the alternate
/// screen.
pub open spec fn enter_sequence() -> Seq<TerminalCommand> {
    seq![TerminalCommand::EnableRawMode, TerminalCommand::EnterAlternateScreen]
}

/// What restoring the terminal sends: the primary screen first, then cooked
/// mode.
pub open spec fn restore_sequence() -> Seq<TerminalCommand> {
    seq![TerminalCommand::LeaveAlternateScreen, TerminalCommand::DisableRawMode]
}

/// Ownership of the terminal's mode: open from the moment raw mode and the
/// alternate screen were entered until the terminal was restored. A session
/// cannot be copied: there is one owner, and one restoration.
#[derive(Debug, PartialEq, Eq)]
pub struct TerminalSession {
    columns: u16,
    rows: u16,
    open: bool,
}

impl TerminalSession {
    /// Whether the terminal is in raw mode on the alternate screen.
    pub closed spec fn spec_is_open(&self) -> bool {
        self.open
    }

    /// The last known dimensions as the terminal reports them: columns,
    /// then rows.
    pub closed spec fn spec_dimensions(&self) -> (u16, u16) {
        (self.columns, self.rows)
    }

    /// The last known dimensions: columns, then rows.
    pub open spec fn spec_current_size(&self) -> (usize, usize) {
        (self.spec_dimensions().0 as usize, self.spec_dimensions().1 as usize)
    }

    /// The session after a close.
    pub closed spec fn spec_closed(&self) -> TerminalSession {
        TerminalSession { columns: self.columns, rows: self.rows, open: false }
    }

    /// What a close sends: the restore sequence if the session is open,
    /// nothing if it was closed before.
    pub open spec fn spec_close_commands(&self) -> Seq<TerminalCommand> {
        if self.spec_is_open() {
            restore_sequence()
        } else {
            Seq::empty()
        }
    }

    /// The commands that enter the session, in the order in which to send
    /// them.
    pub fn open_commands() -> (commands: Vec<TerminalCommand>)
        ensures
            commands@ == enter_sequence(),
    {
        let mut commands: Vec<TerminalCommand> = Vec::new();
        commands.push(TerminalCommand::EnableRawMode);
        commands.push(TerminalCommand::EnterAlternateScreen);
        assert(commands@ =~= enter_sequence());
        commands
    }

    /// The session of a terminal that has just entered raw mode and the
    /// alternate screen and reported the given dimensions.
    pub fn open(columns: u16, rows: u16) -> (session: TerminalSession)
        ensures
            session.spec_is_open(),
            session.spec_current_size() == (columns as usize, rows as usize),
            session.spec_dimensions() == (columns, rows),
    {
        TerminalSession { columns, rows, open: true }
    }

    #[verifier::when_used_as_spec(spec_is_open)]
    pub fn is_open(&self) -> (open: bool)
        ensures
            open == self.spec_is_open(),
    {
        self.open
    }

    /// The last known dimensions of the terminal: columns, then rows. Both
    /// fit in sixteen bits.
    #[verifier::when_used_as_spec(spec_current_size)]
    pub fn current_size(&self) -> (size: (usize, usize))
        ensures
            size == self.spec_current_size(),
            size.0 <= u16::MAX,
            size.1 <= u16::MAX,
    {
        (self.columns as usize, self.rows as usize)
    }

    /// The last known dimensions as the terminal reports them: columns,
    /// then rows.
    #[verifier::when_used_as_spec(spec_dimensions)]
    pub fn dimensions(&self) -> (size: (u16, u16))
        ensures
            size == self.spec_dimensions(),
            self.spec_current_size() == (size.0 as usize, size.1 as usize),
    {
        (self.columns, self.rows)
    }

    /// Records the dimensions that a resize notification carried.
    pub fn set_size(&mut self, columns: u16, rows: u16)
        ensures
            final(self).spec_current_size() == (columns as usize, rows as usize),
            final(self).spec_dimensions() == (columns, rows),
            final(self).spec_is_open() == old(self).spec_is_open(),
    {
        self.columns = columns;
        self.rows = rows;
    }

    /// Closes the session and hands out what has to be sent to restore the
    /// terminal. The first close of an open session hands out the restore
    /// sequence; every later close hands out nothing and changes nothing.
    pub fn close(&mut self) -> (commands: Vec<TerminalCommand>)
        ensures
            *final(self) == old(self).spec_closed(),
            !final(self).spec_is_open(),
            final(self).spec_dimensions() == old(self).spec_dimensions(),
            commands@ == old(self).spec_close_commands(),
    {
        let mut commands: Vec<TerminalCommand> = Vec::new();
        if self.open {
            commands.push(TerminalCommand::LeaveAlternateScreen);
            commands.push(TerminalCommand::DisableRawMode);
            assert(commands@ =~= restore_sequence());
            self.open = false;
        }
        commands
    }

    /// What to send to restore the terminal when no session value is at
    /// hand, as in a crash handler. It depends on no state, so it may be
    /// used whether or not a session was ever opened.
    pub fn emergency_restore() -> (commands: Vec<TerminalCommand>)
        ensures
            commands@ == restore_sequence(),
    {
        let mut commands: Vec<TerminalCommand> = Vec::new();
        commands.push(TerminalCommand::LeaveAlternateScreen);
        commands.push(TerminalCommand::DisableRawMode);
        assert(commands@ =~= restore_sequence());
        commands
    }

    /// Closing is idempotent: a second close in succession sends nothing and
    /// leaves the session as the first close left it.
    pub proof fn lemma_close_twice(session: TerminalSession)
        ensures
            session.spec_closed().spec_close_commands() == Seq::<TerminalCommand>::empty(),
            session.spec_closed().spec_closed() == session.spec_closed(),
            !session.spec_closed().spec_is_open(),
            session.spec_closed().spec_dimensions() == session.spec_dimensions(),
    {
    }

    /// The restore sequence is sent at most once over the life of a
    /// session: only a close of an open session sends it, and that close
    /// leaves the session closed.
    pub proof fn lemma_restore_sent_once(session: TerminalSession)
        ensures
            session.spec_close_commands() == restore_sequence() <==> session.spec_is_open(),
            session.spec_close_commands().len() > 0 ==> session.spec_is_open(),
    {
        assert(restore_sequence().len() == 2);
    }
}

} // verus!

//! The life of one client connection, `Open -> Closing -> Closed`, as a
//! state machine driven by what the transport reports. The loop that reads
//! and writes lives with the transport; every decision is made here.
use vstd::prelude::*;
use crate::command::{parse, parse_command, Command};

verus! {

/// The most bytes handed over by one read; a command that does not fit in
/// one read is not reassembled.
pub const READ_BUFFER_SIZE: usize = 1024;

/// Where a connection stands.
#[derive(Clone, Copy, Debug, PartialEq, Eq, Structural)]
pub enum ConnState {
    /// Reading commands.
    Open,
    /// `quit` was received; the farewell is still to be written.
    Closing,
    /// Nothing more is read or written.
    Closed,
}

/// Whether a chunk received in state `s` is decoded and answered.
pub open spec fn admits(s: ConnState, chunk: Seq<u8>) -> bool {
    s is Open && chunk.len() > 0
}

/// The state after a read that delivered `chunk`; an empty chunk means the
/// peer closed the connection.
pub open spec fn after_read(s: ConnState, chunk: Seq<u8>) -> ConnState {
    if !(s is Open) {
        s
    } else if chunk.len() == 0 {
        ConnState::Closed
    } else if parse(chunk) is Quit {
        ConnState::Closing
    } else {
        ConnState::Open
    }
}

/// The state after writing a response; `ok` tells whether the write went
/// through.
pub open spec fn after_write(s: ConnState, ok: bool) -> ConnState {
    if s is Open && ok {
        ConnState::Open
    } else {
        ConnState::Closed
    }
}

/// One client connection's protocol state.
pub struct Connection {
    state: ConnState,
}

impl View for Connection {
    type V = ConnState;

    closed spec fn view(&self) -> ConnState {
        self.state
    }
}

impl Connection {
    /// A freshly accepted connection.
    pub fn new() -> (r: Connection)
        ensures
            r@ == ConnState::Open,
    {
        Connection { state: ConnState::Open }
    }

    /// Where the connection stands.
    pub fn state(&self) -> (r: ConnState)
        ensures
            r == self@,
    {
        self.state
    }

    /// Whether the next read should be made.
    pub fn wants_read(&self) -> (r: bool)
        ensures
            r == (self@ is Open),
    {
        match self.state {
            ConnState::Open => true,
            _ => false,
        }
    }

    /// Takes in the bytes of one read. Returns the command to answer, or
    /// `None` when nothing is to be answered: the peer closed (an empty
    /// chunk) or the connection no longer reads.
    pub fn on_received(&mut self, chunk: &[u8]) -> (r: Option<Command>)
        ensures
            final(self)@ == after_read(old(self)@, chunk@),
            r is Some <==> admits(old(self)@, chunk@),
            r matches Some(c) ==> c@ == parse(chunk@),
    {
        match self.state {
            ConnState::Open => {
                if chunk.len() == 0 {
                    self.state = ConnState::Closed;
                    None
                } else {
                    let c = parse_command(chunk);
                    match c {
                        Command::Quit => self.state = ConnState::Closing,
                        _ => {},
                    }
                    Some(c)
                }
            },
            _ => None,
        }
    }

    /// A read failed: the connection is closed.
    pub fn on_read_failed(&mut self)
        ensures
            final(self)@ == ConnState::Closed,
    {
        self.state = ConnState::Closed;
    }

    /// A response was written (`ok`) or the write failed.
    pub fn on_written(&mut self, ok: bool)
        ensures
            final(self)@ == after_write(old(self)@, ok),
    {
        match self.state {
            ConnState::Open => if !ok {
                self.state = ConnState::Closed;
            },
            _ => self.state = ConnState::Closed,
        }
    }
}

} // verus!

//! Answering a decoded command: what it does to the store and the bytes
//! that go back to the client.
use vstd::prelude::*;
use vstd::string::StringSliceAdditionalSpecFns;
use crate::bytes::append_bytes;
use crate::command::{Command, CommandView, Malformed};
use crate::store::Store;

verus! {

/// The answer to one command.
#[derive(Debug, PartialEq, Eq)]
pub enum Response {
    /// `QUIT\r\n`; the connection closes after it.
    Farewell,
    /// `STORED\r\n`.
    Stored,
    /// The value held for the key, then `\r\nEND\r\n`.
    Value(Vec<u8>),
    /// `\r\nEND\r\n`: the key is not held.
    Empty,
    /// A protocol error; the connection stays open.
    ProtocolError(Malformed),
    /// No bytes at all.
    Silent,
}

/// The mathematical value of a [`Response`].
pub enum ResponseView {
    Farewell,
    Stored,
    Value(Seq<u8>),
    Empty,
    ProtocolError(Malformed),
    Silent,
}

impl View for Response {
    type V = ResponseView;

    open spec fn view(&self) -> ResponseView {
        match self {
            Response::Farewell => ResponseView::Farewell,
            Response::Stored => ResponseView::Stored,
            Response::Value(v) => ResponseView::Value(v@),
            Response::Empty => ResponseView::Empty,
            Response::ProtocolError(m) => ResponseView::ProtocolError(*m),
            Response::Silent => ResponseView::Silent,
        }
    }
}

/// The message sent for a malformed command.
pub open spec fn error_text(m: Malformed) -> Seq<u8> {
    match m {
        Malformed::SetWithoutKey => "CLIENT_ERROR set needs a key\r\n".spec_bytes(),
        Malformed::GetWithoutKey => "CLIENT_ERROR get needs a key\r\n".spec_bytes(),
    }
}

/// The bytes written to the client for a response.
pub open spec fn wire(r: ResponseView) -> Seq<u8> {
    match r {
        ResponseView::Farewell => "QUIT\r\n".spec_bytes(),
        ResponseView::Stored => "STORED\r\n".spec_bytes(),
        ResponseView::Value(v) => v + "\r\nEND\r\n".spec_bytes(),
        ResponseView::Empty => "\r\nEND\r\n".spec_bytes(),
        ResponseView::ProtocolError(m) => error_text(m),
        ResponseView::Silent => Seq::empty(),
    }
}

/// The store after a command: `set` holds the value for the key, every
/// other command leaves the store as it was.
pub open spec fn apply(m: Map<Seq<u8>, Seq<u8>>, c: CommandView) -> Map<Seq<u8>, Seq<u8>> {
    match c {
        CommandView::Put { key, value } => m.insert(key, value),
        _ => m,
    }
}

/// The answer to a command on a store holding `m` before it runs.
pub open spec fn answer(m: Map<Seq<u8>, Seq<u8>>, c: CommandView) -> ResponseView {
    match c {
        CommandView::Quit => ResponseView::Farewell,
        CommandView::Put { .. } => ResponseView::Stored,
        CommandView::Get { key } => if m.contains_key(key) {
            ResponseView::Value(m[key])
        } else {
            ResponseView::Empty
        },
        CommandView::Malformed(r) => ResponseView::ProtocolError(r),
        CommandView::Unrecognized => ResponseView::Silent,
    }
}

impl Response {
    /// The bytes written to the client.
    pub fn to_bytes(&self) -> (r: Vec<u8>)
        ensures
            r@ == wire(self@),
    {
        let mut out: Vec<u8> = Vec::new();
        match self {
            Response::Farewell => append_bytes(&mut out, "QUIT\r\n".as_bytes()),
            Response::Stored => append_bytes(&mut out, "STORED\r\n".as_bytes()),
            Response::Value(v) => {
                append_bytes(&mut out, v.as_slice());
                append_bytes(&mut out, "\r\nEND\r\n".as_bytes());
            },
            Response::Empty => append_bytes(&mut out, "\r\nEND\r\n".as_bytes()),
            Response::ProtocolError(Malformed::SetWithoutKey) => append_bytes(
                &mut out,
                "CLIENT_ERROR set needs a key\r\n".as_bytes(),
            ),
            Response::ProtocolError(Malformed::GetWithoutKey) => append_bytes(
                &mut out,
                "CLIENT_ERROR get needs a key\r\n".as_bytes(),
            ),
            Response::Silent => {},
        }
        assert(out@ =~= wire(self@));
        out
    }

    /// Whether the connection closes once this response is written.
    pub fn closes(&self) -> (r: bool)
        ensures
            r == (self@ is Farewell),
    {
        match self {
            Response::Farewell => true,
            _ => false,
        }
    }
}

/// Answers a command that does not change the store; only shared access
/// to the store is needed.
pub fn execute_read(cmd: &Command, store: &Store) -> (r: Response)
    requires
        store.wf(),
        !(cmd@ is Put),
    ensures
        r@ == answer(store@, cmd@),
{
    match cmd {
        Command::Quit => Response::Farewell,
        Command::Put { .. } => Response::Stored,
        Command::Get { key } => match store.get(key.as_slice()) {
            Some(v) => Response::Value(v),
            None => Response::Empty,
        },
        Command::Malformed(m) => Response::ProtocolError(*m),
        Command::Unrecognized => Response::Silent,
    }
}

/// Runs a command against the store and answers it.
pub fn execute(cmd: Command, store: &mut Store) -> (r: Response)
    requires
        old(store).wf(),
    ensures
        final(store).wf(),
        final(store)@ == apply(old(store)@, cmd@),
        r@ == answer(old(store)@, cmd@),
{
    match cmd {
        Command::Put { key, value } => {
            store.set(key, value);
            Response::Stored
        },
        other => execute_read(&other, store),
    }
}

} // verus!

//! An in-memory key-value cache spoken to over a small line protocol
//! (`set`, `get`, `quit`): the command parser, the store, the executor
//! that answers each command, the per-connection state machine, the laws
//! that hold across commands, and the choice of TLS credentials from PEM
//! text.

pub mod bytes;
pub mod command;
pub mod store;
pub mod response;
pub mod connection;
pub mod laws;
pub mod credentials;

use kvcache::command::{parse_command, split_tokens, Command, Malformed};
use kvcache::connection::{ConnState, Connection, READ_BUFFER_SIZE};
use kvcache::response::{execute, execute_read, Response};
use kvcache::store::Store;

fn put(key: &str, value: &str) -> Command {
    Command::Put { key: key.as_bytes().to_vec(), value: value.as_bytes().to_vec() }
}

fn get(key: &str) -> Command {
    Command::Get { key: key.as_bytes().to_vec() }
}

/// Runs one chunk through a connection the way the server loop does.
fn exchange(conn: &mut Connection, store: &mut Store, chunk: &str) -> Option<Vec<u8>> {
    let cmd = conn.on_received(chunk.as_bytes())?;
    let response = if cmd.is_write() { execute(cmd, store) } else { execute_read(&cmd, store) };
    let bytes = response.to_bytes();
    conn.on_written(true);
    Some(bytes)
}

#[test]
fn parse_set_joins_value_tokens() {
    assert_eq!(parse_command(b"set color blue sky"), put("color", "blue sky"));
}

#[test]
fn parse_set_collapses_whitespace_in_value() {
    assert_eq!(parse_command(b"set k  a\tb\r\n"), put("k", "a b"));
}

#[test]
fn parse_set_without_value_stores_empty() {
    assert_eq!(parse_command(b"set k\r\n"), put("k", ""));
}

#[test]
fn parse_get_ignores_extra_tokens() {
    assert_eq!(parse_command(b"get color extra\r\n"), get("color"));
}

#[test]
fn parse_quit_by_prefix() {
    assert_eq!(parse_command(b"quit\r\n"), Command::Quit);
    assert_eq!(parse_command(b"quitter"), Command::Quit);
}

#[test]
fn parse_is_case_sensitive_and_anchored() {
    assert_eq!(parse_command(b"QUIT"), Command::Unrecognized);
    assert_eq!(parse_command(b" get k"), Command::Unrecognized);
    assert_eq!(parse_command(b"hello"), Command::Unrecognized);
    assert_eq!(parse_command(b""), Command::Unrecognized);
}

#[test]
fn parse_truncated_commands_are_malformed() {
    assert_eq!(parse_command(b"set"), Command::Malformed(Malformed::SetWithoutKey));
    assert_eq!(parse_command(b"set \r\n"), Command::Malformed(Malformed::SetWithoutKey));
    assert_eq!(parse_command(b"get"), Command::Malformed(Malformed::GetWithoutKey));
}

#[test]
fn parse_second_command_in_chunk_is_not_separate() {
    assert_eq!(parse_command(b"set a 1\r\nget a\r\n"), put("a", "1 get a"));
}

#[test]
fn split_tokens_on_ascii_whitespace() {
    let t = split_tokens(b"  ab\x0bc\x0c d  ");
    assert_eq!(t, vec![b"ab".to_vec(), b"c".to_vec(), b"d".to_vec()]);
    assert!(split_tokens(b" \t\r\n").is_empty());
}

#[test]
fn response_bytes() {
    assert_eq!(Response::Farewell.to_bytes(), b"QUIT\r\n".to_vec());
    assert_eq!(Response::Stored.to_bytes(), b"STORED\r\n".to_vec());
    assert_eq!(Response::Value(b"v 1".to_vec()).to_bytes(), b"v 1\r\nEND\r\n".to_vec());
    assert_eq!(Response::Empty.to_bytes(), b"\r\nEND\r\n".to_vec());
    assert_eq!(
        Response::ProtocolError(Malformed::SetWithoutKey).to_bytes(),
        b"CLIENT_ERROR set needs a key\r\n".to_vec()
    );
    assert_eq!(
        Response::ProtocolError(Malformed::GetWithoutKey).to_bytes(),
        b"CLIENT_ERROR get needs a key\r\n".to_vec()
    );
    assert!(Response::Silent.to_bytes().is_empty());
    assert!(Response::Farewell.closes());
    assert!(!Response::Stored.closes());
}

#[test]
fn store_set_get_replace() {
    let mut s = Store::new();
    assert_eq!(s.len(), 0);
    assert_eq!(s.get(b"k"), None);
    s.set(b"k".to_vec(), b"v1".to_vec());
    s.set(b"other".to_vec(), b"x".to_vec());
    assert_eq!(s.get(b"k"), Some(b"v1".to_vec()));
    s.set(b"k".to_vec(), b"v2".to_vec());
    assert_eq!(s.get(b"k"), Some(b"v2".to_vec()));
    assert_eq!(s.get(b"other"), Some(b"x".to_vec()));
    assert_eq!(s.len(), 2);
}

#[test]
fn execute_commands_against_store() {
    let mut s = Store::new();
    assert_eq!(execute(put("a", "1"), &mut s), Response::Stored);
    assert_eq!(execute(get("a"), &mut s), Response::Value(b"1".to_vec()));
    assert_eq!(execute_read(&get("b"), &s), Response::Empty);
    assert_eq!(execute_read(&Command::Quit, &s), Response::Farewell);
    assert_eq!(execute_read(&Command::Unrecognized, &s), Response::Silent);
    assert_eq!(
        execute_read(&Command::Malformed(Malformed::GetWithoutKey), &s),
        Response::ProtocolError(Malformed::GetWithoutKey)
    );
    assert!(put("a", "1").is_write());
    assert!(!get("a").is_write());
}

#[test]
fn set_then_get_from_another_connection() {
    let mut store = Store::new();
    let mut a = Connection::new();
    let mut b = Connection::new();
    assert_eq!(exchange(&mut a, &mut store, "set color blue sky"), Some(b"STORED\r\n".to_vec()));
    assert_eq!(exchange(&mut b, &mut store, "get color"), Some(b"blue sky\r\nEND\r\n".to_vec()));
}

#[test]
fn get_missing_key_is_empty() {
    let mut store = Store::new();
    let mut c = Connection::new();
    assert_eq!(exchange(&mut c, &mut store, "get missing"), Some(b"\r\nEND\r\n".to_vec()));
    assert_eq!(c.state(), ConnState::Open);
}

#[test]
fn set_survives_other_keys_and_last_writer_wins() {
    let mut store = Store::new();
    let mut c = Connection::new();
    exchange(&mut c, &mut store, "set k v1");
    exchange(&mut c, &mut store, "set j w");
    exchange(&mut c, &mut store, "get j");
    assert_eq!(exchange(&mut c, &mut store, "get k"), Some(b"v1\r\nEND\r\n".to_vec()));
    exchange(&mut c, &mut store, "set k v2");
    assert_eq!(exchange(&mut c, &mut store, "get k"), Some(b"v2\r\nEND\r\n".to_vec()));
}

#[test]
fn quit_answers_and_closes() {
    let mut store = Store::new();
    let mut c = Connection::new();
    let cmd = c.on_received(b"quit\r\n").unwrap();
    assert_eq!(c.state(), ConnState::Closing);
    assert!(!c.wants_read());
    let response = execute_read(&cmd, &store);
    assert_eq!(response.to_bytes(), b"QUIT\r\n".to_vec());
    assert_eq!(c.on_received(b"set k v"), None);
    c.on_written(true);
    assert_eq!(c.state(), ConnState::Closed);
    assert_eq!(exchange(&mut c, &mut store, "set k v"), None);
    assert_eq!(store.len(), 0);
}

#[test]
fn truncated_command_keeps_connection_usable() {
    let mut store = Store::new();
    let mut c = Connection::new();
    assert_eq!(exchange(&mut c, &mut store, "set"), Some(b"CLIENT_ERROR set needs a key\r\n".to_vec()));
    assert_eq!(exchange(&mut c, &mut store, "get"), Some(b"CLIENT_ERROR get needs a key\r\n".to_vec()));
    assert_eq!(c.state(), ConnState::Open);
    assert_eq!(exchange(&mut c, &mut store, "set k v"), Some(b"STORED\r\n".to_vec()));
    assert_eq!(exchange(&mut c, &mut store, "get k"), Some(b"v\r\nEND\r\n".to_vec()));
}

#[test]
fn unrecognized_gets_no_bytes() {
    let mut store = Store::new();
    let mut c = Connection::new();
    assert_eq!(exchange(&mut c, &mut store, "delete k"), Some(Vec::new()));
    assert!(c.wants_read());
}

#[test]
fn peer_close_and_failures_close_connection() {
    let mut c = Connection::new();
    assert_eq!(c.on_received(b""), None);
    assert_eq!(c.state(), ConnState::Closed);
    let mut d = Connection::new();
    d.on_read_failed();
    assert_eq!(d.state(), ConnState::Closed);
    let mut e = Connection::new();
    assert!(e.on_received(b"get k").is_some());
    e.on_written(false);
    assert_eq!(e.state(), ConnState::Closed);
}

#[test]
fn read_buffer_is_one_kibibyte() {
    assert_eq!(READ_BUFFER_SIZE, 1024);
}

//! What holds of the cache across commands and across a connection's life.
use vstd::prelude::*;
use vstd::string::StringSliceAdditionalSpecFns;
use crate::bytes::has_prefix;
use crate::command::{parse, quit_word, set_word, get_word, tokens, CommandView, Malformed};
use crate::connection::{admits, after_read, after_write, ConnState};
use crate::response::{answer, apply, wire, ResponseView};

verus! {

/// The store after running `cs` in order, starting from `m`.
pub open spec fn run(m: Map<Seq<u8>, Seq<u8>>, cs: Seq<CommandView>) -> Map<Seq<u8>, Seq<u8>>
    decreases cs.len(),
{
    if cs.len() == 0 {
        m
    } else {
        run(apply(m, cs[0]), cs.drop_first())
    }
}

/// Whether `c` is a `set` of key `k`.
pub open spec fn writes_key(c: CommandView, k: Seq<u8>) -> bool {
    c matches CommandView::Put { key, .. } && key == k
}

/// Commands that are not a `set` of key `k` leave what is held for `k`
/// as it was.
pub proof fn lemma_run_keeps_key(m: Map<Seq<u8>, Seq<u8>>, cs: Seq<CommandView>, k: Seq<u8>)
    requires
        forall|i: int| 0 <= i < cs.len() ==> !writes_key(#[trigger] cs[i], k),
    ensures
        run(m, cs).contains_key(k) == m.contains_key(k),
        m.contains_key(k) ==> run(m, cs)[k] == m[k],
    decreases cs.len(),
{
    if cs.len() > 0 {
        assert(!writes_key(cs[0], k));
        let rest = cs.drop_first();
        assert forall|i: int| 0 <= i < rest.len() implies !writes_key(#[trigger] rest[i], k) by {
            assert(rest[i] == cs[i + 1]);
        }
        lemma_run_keeps_key(apply(m, cs[0]), rest, k);
    }
}

/// After `set k v`, a `get k` answers `v`, whatever commands ran in
/// between, as long as none of them was a `set` of `k`.
pub proof fn lemma_get_after_set(
    m: Map<Seq<u8>, Seq<u8>>,
    k: Seq<u8>,
    v: Seq<u8>,
    between: Seq<CommandView>,
)
    requires
        forall|i: int| 0 <= i < between.len() ==> !writes_key(#[trigger] between[i], k),
    ensures
        answer(run(apply(m, CommandView::Put { key: k, value: v }), between), CommandView::Get { key: k })
            == ResponseView::Value(v),
        wire(answer(run(apply(m, CommandView::Put { key: k, value: v }), between), CommandView::Get { key: k }))
            == v + "\r\nEND\r\n".spec_bytes(),
{
    let m1 = apply(m, CommandView::Put { key: k, value: v });
    lemma_run_keeps_key(m1, between, k);
}

/// A `get` of a key that was never set answers the empty response, never
/// an error: `\r\nEND\r\n`.
pub proof fn lemma_get_missing(m: Map<Seq<u8>, Seq<u8>>, k: Seq<u8>)
    requires
        !m.contains_key(k),
    ensures
        answer(m, CommandView::Get { key: k }) == ResponseView::Empty,
        wire(answer(m, CommandView::Get { key: k })) == "\r\nEND\r\n".spec_bytes(),
{
}

/// Of two `set`s of one key, the later one wins.
pub proof fn lemma_last_set_wins(m: Map<Seq<u8>, Seq<u8>>, k: Seq<u8>, v1: Seq<u8>, v2: Seq<u8>)
    ensures
        answer(
            apply(apply(m, CommandView::Put { key: k, value: v1 }), CommandView::Put { key: k, value: v2 }),
            CommandView::Get { key: k },
        ) == ResponseView::Value(v2),
{
}

/// `quit` answers exactly `QUIT\r\n`, leaves the store alone, and ends the
/// connection: no later chunk is answered, and once the farewell is written
/// the connection is closed.
pub proof fn lemma_quit_ends_connection(
    m: Map<Seq<u8>, Seq<u8>>,
    chunk: Seq<u8>,
    later: Seq<u8>,
    ok: bool,
)
    requires
        parse(chunk) is Quit,
    ensures
        wire(answer(m, parse(chunk))) == "QUIT\r\n".spec_bytes(),
        apply(m, parse(chunk)) == m,
        admits(ConnState::Open, chunk),
        after_read(ConnState::Open, chunk) == ConnState::Closing,
        !admits(ConnState::Closing, later),
        after_read(ConnState::Closing, later) == ConnState::Closing,
        after_write(ConnState::Closing, ok) == ConnState::Closed,
        !admits(ConnState::Closed, later),
        after_read(ConnState::Closed, later) == ConnState::Closed,
{
    assert(chunk.len() >= quit_word().len());
}

/// A `set` or `get` with no key answers a protocol error, leaves the store
/// alone, and the connection stays open for the next command.
pub proof fn lemma_truncated_command_keeps_connection(m: Map<Seq<u8>, Seq<u8>>, chunk: Seq<u8>)
    requires
        has_prefix(chunk, set_word()) || has_prefix(chunk, get_word()),
        tokens(chunk).len() < 2,
    ensures
        parse(chunk) is Malformed,
        answer(m, parse(chunk)) == ResponseView::ProtocolError(
            if has_prefix(chunk, set_word()) {
                Malformed::SetWithoutKey
            } else {
                Malformed::GetWithoutKey
            },
        ),
        apply(m, parse(chunk)) == m,
        admits(ConnState::Open, chunk),
        after_read(ConnState::Open, chunk) == ConnState::Open,
        after_write(after_read(ConnState::Open, chunk), true) == ConnState::Open,
{
    // Neither `set` nor `get` begins with the `q` of `quit`.
    assert(chunk[0] == 115u8 || chunk[0] == 103u8) by {
        if has_prefix(chunk, set_word()) {
            assert(chunk.take(3)[0] == set_word()[0]);
        } else {
            assert(chunk.take(3)[0] == get_word()[0]);
        }
    }
    if has_prefix(chunk, quit_word()) {
        assert(chunk.take(4)[0] == quit_word()[0]);
    }
}

} // verus!

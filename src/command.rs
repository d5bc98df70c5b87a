//! Decoding one received chunk into a [`Command`].
//!
//! A chunk is recognised by its first bytes alone (`quit`, `set`, `get`,
//! case-sensitive, no leading whitespace). The arguments of `set` and `get`
//! are the whitespace-separated tokens of the whole chunk: the second token
//! is the key, and for `set` the tokens from the third on, joined by single
//! spaces, are the value.
use vstd::prelude::*;
use crate::bytes::{append_bytes, has_prefix, is_space, is_space_byte, starts_with};

verus! {

/// Why a recognised command could not be decoded.
#[derive(Clone, Copy, Debug, PartialEq, Eq, Structural)]
pub enum Malformed {
    /// `set` with no key after it.
    SetWithoutKey,
    /// `get` with no key after it.
    GetWithoutKey,
}

/// One decoded client instruction.
#[derive(Debug, PartialEq, Eq)]
pub enum Command {
    Quit,
    Put { key: Vec<u8>, value: Vec<u8> },
    Get { key: Vec<u8> },
    Malformed(Malformed),
    Unrecognized,
}

/// The mathematical value of a [`Command`]: byte strings as sequences.
pub enum CommandView {
    Quit,
    Put { key: Seq<u8>, value: Seq<u8> },
    Get { key: Seq<u8> },
    Malformed(Malformed),
    Unrecognized,
}

impl View for Command {
    type V = CommandView;

    open spec fn view(&self) -> CommandView {
        match self {
            Command::Quit => CommandView::Quit,
            Command::Put { key, value } => CommandView::Put { key: key@, value: value@ },
            Command::Get { key } => CommandView::Get { key: key@ },
            Command::Malformed(m) => CommandView::Malformed(*m),
            Command::Unrecognized => CommandView::Unrecognized,
        }
    }
}

impl Command {
    /// Whether executing this command changes the store.
    pub fn is_write(&self) -> (r: bool)
        ensures
            r == (self@ is Put),
    {
        match self {
            Command::Put { .. } => true,
            _ => false,
        }
    }
}

/// The bytes `quit`.
pub open spec fn quit_word() -> Seq<u8> {
    seq![113u8, 117u8, 105u8, 116u8]
}

/// The bytes `set`.
pub open spec fn set_word() -> Seq<u8> {
    seq![115u8, 101u8, 116u8]
}

/// The bytes `get`.
pub open spec fn get_word() -> Seq<u8> {
    seq![103u8, 101u8, 116u8]
}

/// The maximal runs of non-whitespace bytes of `s`, in order. Stated on
/// the last byte: a whitespace byte adds nothing, a non-whitespace byte
/// extends the last token when the byte before it is also non-whitespace,
/// and starts a new token otherwise.
pub open spec fn tokens(s: Seq<u8>) -> Seq<Seq<u8>>
    decreases s.len(),
{
    if s.len() == 0 {
        seq![]
    } else {
        let init = s.drop_last();
        let prev = tokens(init);
        let c = s.last();
        if is_space(c) {
            prev
        } else if init.len() > 0 && !is_space(init.last()) {
            prev.drop_last().push(prev.last().push(c))
        } else {
            prev.push(seq![c])
        }
    }
}

/// The byte strings of `ts` joined with one space between neighbours.
pub open spec fn join_spaced(ts: Seq<Seq<u8>>) -> Seq<u8>
    decreases ts.len(),
{
    if ts.len() == 0 {
        seq![]
    } else if ts.len() == 1 {
        ts[0]
    } else {
        join_spaced(ts.drop_last()) + seq![32u8] + ts.last()
    }
}

/// The command that a received chunk decodes to.
pub open spec fn parse(chunk: Seq<u8>) -> CommandView {
    if has_prefix(chunk, quit_word()) {
        CommandView::Quit
    } else if has_prefix(chunk, set_word()) {
        let t = tokens(chunk);
        if t.len() < 2 {
            CommandView::Malformed(Malformed::SetWithoutKey)
        } else {
            CommandView::Put { key: t[1], value: join_spaced(t.skip(2)) }
        }
    } else if has_prefix(chunk, get_word()) {
        let t = tokens(chunk);
        if t.len() < 2 {
            CommandView::Malformed(Malformed::GetWithoutKey)
        } else {
            CommandView::Get { key: t[1] }
        }
    } else {
        CommandView::Unrecognized
    }
}

/// The views of a sequence of byte vectors.
pub open spec fn views(ws: Seq<Vec<u8>>) -> Seq<Seq<u8>> {
    ws.map_values(|w: Vec<u8>| w@)
}

proof fn lemma_tokens_nonempty(s: Seq<u8>)
    requires
        s.len() > 0,
        !is_space(s.last()),
    ensures
        tokens(s).len() > 0,
{
}

/// Splits `s` into its whitespace-separated tokens.
pub fn split_tokens(s: &[u8]) -> (r: Vec<Vec<u8>>)
    ensures
        views(r@) == tokens(s@),
{
    let mut words: Vec<Vec<u8>> = Vec::new();
    let mut i: usize = 0;
    assert(s@.take(0) =~= Seq::<u8>::empty());
    assert(views(words@) =~= tokens(s@.take(0)));
    while i < s.len()
        invariant
            i <= s@.len(),
            views(words@) == tokens(s@.take(i as int)),
        decreases s@.len() - i,
    {
        let c = s[i];
        let ghost pre = s@.take(i as int);
        let ghost cur = s@.take(i + 1);
        assert(cur.drop_last() =~= pre);
        assert(cur.last() == c);
        if is_space_byte(c) {
        } else if i > 0 && !is_space_byte(s[i - 1]) {
            proof {
                assert(pre.last() == s@[i - 1]);
                lemma_tokens_nonempty(pre);
            }
            let mut last = words.pop().unwrap();
            last.push(c);
            words.push(last);
            assert(views(words@) =~= tokens(pre).drop_last().push(tokens(pre).last().push(c)));
        } else {
            let mut w: Vec<u8> = Vec::new();
            w.push(c);
            words.push(w);
            assert(views(words@) =~= tokens(pre).push(seq![c]));
        }
        i = i + 1;
    }
    assert(s@.take(s@.len() as int) =~= s@);
    words
}

/// The tokens `ws[start..]` joined with one space between neighbours.
pub fn join_from(ws: &Vec<Vec<u8>>, start: usize) -> (r: Vec<u8>)
    requires
        start <= ws@.len(),
    ensures
        r@ == join_spaced(views(ws@).skip(start as int)),
{
    let mut out: Vec<u8> = Vec::new();
    let mut j: usize = start;
    assert(views(ws@).subrange(start as int, start as int) =~= Seq::<Seq<u8>>::empty());
    while j < ws.len()
        invariant
            start <= j <= ws@.len(),
            out@ == join_spaced(views(ws@).subrange(start as int, j as int)),
        decreases ws@.len() - j,
    {
        let ghost before = views(ws@).subrange(start as int, j as int);
        let ghost after = views(ws@).subrange(start as int, j + 1);
        assert(after.drop_last() =~= before);
        assert(after.last() == ws@[j as int]@);
        if j > start {
            out.push(32u8);
        } else {
            assert(after =~= seq![ws@[j as int]@]);
        }
        append_bytes(&mut out, ws[j].as_slice());
        j = j + 1;
    }
    assert(views(ws@).subrange(start as int, ws@.len() as int) =~= views(ws@).skip(start as int));
    out
}

/// Decodes one received chunk.
pub fn parse_command(chunk: &[u8]) -> (r: Command)
    ensures
        r@ == parse(chunk@),
{
    let quit: Vec<u8> = vec![113u8, 117u8, 105u8, 116u8];
    let set: Vec<u8> = vec![115u8, 101u8, 116u8];
    let get: Vec<u8> = vec![103u8, 101u8, 116u8];
    assert(quit@ =~= quit_word());
    assert(set@ =~= set_word());
    assert(get@ =~= get_word());
    if starts_with(chunk, quit.as_slice()) {
        Command::Quit
    } else if starts_with(chunk, set.as_slice()) {
        let t = split_tokens(chunk);
        if t.len() < 2 {
            Command::Malformed(Malformed::SetWithoutKey)
        } else {
            let value = join_from(&t, 2);
            let mut t = t;
            let key = t.swap_remove(1);
            Command::Put { key, value }
        }
    } else if starts_with(chunk, get.as_slice()) {
        let mut t = split_tokens(chunk);
        if t.len() < 2 {
            Command::Malformed(Malformed::GetWithoutKey)
        } else {
            let key = t.swap_remove(1);
            Command::Get { key }
        }
    } else {
        Command::Unrecognized
    }
}

} // verus!

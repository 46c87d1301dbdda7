//! The per-connection state machine: what is sent back for each chunk read
//! from a client, and when the connection is released.
use vstd::prelude::*;
use vstd::slice::slice_to_vec;
use vstd::string::*;
use vstd::utf8::*;

use crate::text::{lemma_starts_with_terminator_byte, starts_with_terminator};

verus! {

/// Capacity of the buffer that each read fills: a read yields at most this
/// many bytes.
pub const READ_BUFFER_SIZE: usize = 512;

/// Sent back for a chunk that is not well-formed UTF-8; the session goes on.
pub const UTF8_WARNING: &'static str = "Need utf-8 sequence.";

/// Sent back for a chunk whose text starts with `@`, before the session ends.
pub const FAREWELL: &'static str = "Bye bye and see you soon.\n";

/// The bytes of the warning (its text is ASCII, one byte per character).
pub open spec fn warning_bytes() -> Seq<u8> {
    UTF8_WARNING.spec_bytes()
}

/// The bytes of the farewell (its text is ASCII, one byte per character).
pub open spec fn farewell_bytes() -> Seq<u8> {
    FAREWELL.spec_bytes()
}

/// What a session does after one read, as plain byte sequences.
pub enum Response {
    /// Release the connection, sending nothing.
    Close,
    /// Send the bytes and wait for the next read.
    Send(Seq<u8>),
    /// Send the bytes, then release the connection.
    SendThenClose(Seq<u8>),
}

impl Response {
    /// The bytes written back to the client.
    pub open spec fn bytes(self) -> Seq<u8> {
        match self {
            Response::Close => Seq::empty(),
            Response::Send(b) => b,
            Response::SendThenClose(b) => b,
        }
    }

    /// Whether the connection is released afterwards.
    pub open spec fn closes(self) -> bool {
        !(self is Send)
    }
}

/// The response to one read that yielded `chunk`. An empty read is the end
/// of the stream. Only the first character of the decoded text is looked at:
/// `hi@there` is echoed like any other text.
pub open spec fn response(chunk: Seq<u8>) -> Response {
    if chunk.len() == 0 {
        Response::Close
    } else if !valid_utf8(chunk) {
        Response::Send(warning_bytes())
    } else if starts_with_terminator(decode_utf8(chunk)) {
        Response::SendThenClose(farewell_bytes())
    } else {
        Response::Send(chunk)
    }
}

/// All that a fresh session sends when its reads yield `chunks` in order;
/// reads after the connection is released are never answered.
pub open spec fn sent(chunks: Seq<Seq<u8>>) -> Seq<u8>
    decreases chunks.len(),
{
    if chunks.len() == 0 {
        Seq::empty()
    } else if response(chunks[0]).closes() {
        response(chunks[0]).bytes()
    } else {
        response(chunks[0]).bytes() + sent(chunks.drop_first())
    }
}

/// A fresh session is still open after its reads yield `chunks` in order.
pub open spec fn open_after(chunks: Seq<Seq<u8>>) -> bool {
    forall|i: int| 0 <= i < chunks.len() ==> !(#[trigger] response(chunks[i])).closes()
}

/// What the connection loop is to do after one read.
#[derive(Debug, PartialEq, Eq)]
pub enum Action {
    /// Release the connection without writing.
    Close,
    /// Write the bytes, then read again.
    Send(Vec<u8>),
    /// Write the bytes, then release the connection.
    SendThenClose(Vec<u8>),
}

impl View for Action {
    type V = Response;

    open spec fn view(&self) -> Response {
        match self {
            Action::Close => Response::Close,
            Action::Send(b) => Response::Send(b@),
            Action::SendThenClose(b) => Response::SendThenClose(b@),
        }
    }
}

/// Decides the response to one read that yielded `chunk`.
pub fn respond(chunk: &[u8]) -> (a: Action)
    ensures
        a@ == response(chunk@),
{
    if chunk.len() == 0 {
        return Action::Close;
    }
    if core::str::from_utf8(chunk).is_err() {
        return Action::Send(UTF8_WARNING.as_bytes_vec());
    }
    proof {
        lemma_starts_with_terminator_byte(chunk@);
    }
    if chunk[0] == 0x40u8 {
        Action::SendThenClose(FAREWELL.as_bytes_vec())
    } else {
        Action::Send(slice_to_vec(chunk))
    }
}

/// One client connection: open until an empty read or a chunk whose text
/// starts with `@`; once released it answers nothing.
pub struct Session {
    open: bool,
}

impl Session {
    /// Whether the session still answers reads.
    pub closed spec fn is_active(&self) -> bool {
        self.open
    }

    pub fn new() -> (s: Session)
        ensures
            s.is_active(),
    {
        Session { open: true }
    }

    pub fn is_open(&self) -> (r: bool)
        ensures
            r == self.is_active(),
    {
        self.open
    }

    /// Handles one read that yielded `chunk`: an open session answers it as
    /// `response` says and is released where that response closes; a
    /// released session stays released and sends nothing.
    pub fn on_read(&mut self, chunk: &[u8]) -> (a: Action)
        ensures
            old(self).is_active() ==> a@ == response(chunk@),
            !old(self).is_active() ==> a@ == Response::Close,
            final(self).is_active() == (old(self).is_active() && !a@.closes()),
    {
        if !self.open {
            return Action::Close;
        }
        let a = respond(chunk);
        if !matches!(a, Action::Send(_)) {
            self.open = false;
        }
        a
    }
}

/// A read of well-formed UTF-8 whose first byte is not `@` is echoed back
/// unchanged; a non-empty one leaves the session open.
pub proof fn lemma_echo_identity(b: Seq<u8>)
    requires
        valid_utf8(b),
        !(b.len() > 0 && b[0] == 0x40u8),
    ensures
        response(b).bytes() == b,
        b.len() > 0 ==> response(b) == Response::Send(b),
{
    lemma_starts_with_terminator_byte(b);
}

/// A read that is not well-formed UTF-8 is answered by the warning alone,
/// and the session goes on to answer the reads that follow.
pub proof fn lemma_invalid_utf8_warns(bad: Seq<u8>, rest: Seq<Seq<u8>>)
    requires
        !valid_utf8(bad),
    ensures
        response(bad) == Response::Send(warning_bytes()),
        sent(seq![bad] + rest) == warning_bytes() + sent(rest),
{
    assert(bad.len() != 0);
    assert((seq![bad] + rest).drop_first() == rest);
}

/// A read whose text starts with `@` is answered by the farewell, and
/// nothing is sent for any read after it.
pub proof fn lemma_terminator_ends_session(chunk: Seq<u8>, rest: Seq<Seq<u8>>)
    requires
        valid_utf8(chunk),
        starts_with_terminator(decode_utf8(chunk)),
    ensures
        response(chunk) == Response::SendThenClose(farewell_bytes()),
        sent(seq![chunk] + rest) == farewell_bytes(),
{
    assert((seq![chunk] + rest)[0] == chunk);
}

/// At the end of the stream the session is released and sends nothing,
/// whatever reads would follow.
pub proof fn lemma_end_of_stream_is_silent(rest: Seq<Seq<u8>>)
    ensures
        response(Seq::empty()) == Response::Close,
        sent(seq![Seq::<u8>::empty()] + rest) == Seq::<u8>::empty(),
{
    assert((seq![Seq::<u8>::empty()] + rest)[0] == Seq::<u8>::empty());
}

/// Input split over several reads, each well-formed UTF-8 and not starting
/// with `@`, comes back whole: the echoed chunks concatenate to the input,
/// and the session stays open.
pub proof fn lemma_chunked_echo(chunks: Seq<Seq<u8>>)
    requires
        forall|i: int|
            0 <= i < chunks.len() ==> {
                &&& (#[trigger] chunks[i]).len() > 0
                &&& valid_utf8(chunks[i])
                &&& chunks[i][0] != 0x40u8
            },
    ensures
        sent(chunks) == chunks.flatten(),
        open_after(chunks),
    decreases chunks.len(),
{
    if chunks.len() > 0 {
        lemma_echo_identity(chunks[0]);
        lemma_chunked_echo(chunks.drop_first());
        assert forall|i: int| 0 <= i < chunks.len() implies !(#[trigger] response(
            chunks[i],
        )).closes() by {
            lemma_echo_identity(chunks[i]);
        }
    }
}

} // verus!

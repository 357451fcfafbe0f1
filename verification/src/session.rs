//! The life of one connection: a store of its own, fed frame by frame.
//!
//! A session starts listening with an empty store. Each frame it is handed
//! either records an observation, asks for a mean that is to be sent back,
//! or, with an unknown tag, ends the session. The owner of the socket
//! performs the reads and writes and reports what came of them; nothing
//! here touches the network.

use crate::frame::{
    decode_frame, i32_be_bytes, read_message, write_response, FRAME_LEN, INSERT_TAG, QUERY_TAG,
};
use crate::prices::{
    handle_avg_query, handle_insert, lemma_mean_bounds, mean, PricePoint, QueryRange,
};
use vstd::prelude::*;
use vstd::slice::slice_subrange;

verus! {

/// Why a session ended.
#[derive(Debug, Clone, Copy, PartialEq, Eq, Structural)]
pub enum Ending {
    /// The peer closed the stream between two frames.
    EndOfStream,
    /// The stream ended inside a frame.
    TruncatedFrame,
    /// A frame carried a tag that is neither insert nor query.
    UnknownTag,
    /// Reading from or writing to the transport failed.
    TransportError,
}

/// What the owner of the connection does after an event.
#[derive(Debug, Clone, Copy, PartialEq, Eq, Structural)]
pub enum Action {
    /// Send nothing and wait for the next frame.
    Continue,
    /// Send this mean, then wait for the next frame.
    Respond(i32),
    /// Shut the connection down. No further frame is handled.
    Close(Ending),
}

/// A session as the contracts see it.
pub struct SessionView {
    /// The observations recorded so far, oldest first.
    pub store: Seq<PricePoint>,
    /// `None` while the session listens, the reason once it is closed.
    pub ending: Option<Ending>,
}

impl SessionView {
    /// A session that has just been accepted.
    pub open spec fn fresh() -> SessionView {
        SessionView { store: Seq::empty(), ending: None }
    }

    /// This session, closed for the reason `why`, the store untouched.
    pub open spec fn closed(self, why: Ending) -> SessionView {
        SessionView { store: self.store, ending: Some(why) }
    }

    /// The session and the action after a decoded frame arrived.
    ///
    /// A closed session stays as it is and repeats its reason.
    pub open spec fn after_frame(self, frame: (char, i32, i32)) -> (SessionView, Action) {
        match self.ending {
            Some(why) => (self, Action::Close(why)),
            None => if frame.0 == INSERT_TAG {
                (
                    SessionView {
                        store: self.store.push(PricePoint(frame.1, frame.2)),
                        ending: None,
                    },
                    Action::Continue,
                )
            } else if frame.0 == QUERY_TAG {
                (
                    self,
                    Action::Respond(
                        mean(self.store, QueryRange { start: frame.1, end: frame.2 }) as i32,
                    ),
                )
            } else {
                (self.closed(Ending::UnknownTag), Action::Close(Ending::UnknownTag))
            },
        }
    }

    /// The session and the action after an attempt to read one frame
    /// returned `bytes`: nothing at all is a clean end of the stream, fewer
    /// than nine bytes a truncated frame.
    pub open spec fn after_read(self, bytes: Seq<u8>) -> (SessionView, Action) {
        match self.ending {
            Some(why) => (self, Action::Close(why)),
            None => if bytes.len() == 0 {
                (self.closed(Ending::EndOfStream), Action::Close(Ending::EndOfStream))
            } else if bytes.len() < FRAME_LEN {
                (self.closed(Ending::TruncatedFrame), Action::Close(Ending::TruncatedFrame))
            } else {
                self.after_frame(decode_frame(bytes))
            },
        }
    }

    /// The session and the action after the transport reported a failure.
    pub open spec fn after_failure(self) -> (SessionView, Action) {
        match self.ending {
            Some(why) => (self, Action::Close(why)),
            None => (self.closed(Ending::TransportError), Action::Close(Ending::TransportError)),
        }
    }
}

/// The state that one connection owns.
pub struct Session {
    storage: Vec<PricePoint>,
    ending: Option<Ending>,
}

impl View for Session {
    type V = SessionView;

    closed spec fn view(&self) -> SessionView {
        SessionView { store: self.storage@, ending: self.ending }
    }
}

impl Session {
    /// A listening session with an empty store.
    pub fn new() -> (session: Session)
        ensures
            session@ == SessionView::fresh(),
    {
        Session { storage: Vec::new(), ending: None }
    }

    /// Whether the session has ended.
    pub fn is_closed(&self) -> (closed: bool)
        ensures
            closed == self@.ending.is_some(),
    {
        self.ending.is_some()
    }

    /// Handles one decoded frame.
    ///
    /// An insert appends `(field1, field2)` to the store and sends nothing.
    /// A query answers with the mean over `field1..=field2` of the store as
    /// it stands. Any other tag closes the session. The store never shrinks.
    pub fn on_frame(&mut self, tag: char, field1: i32, field2: i32) -> (action: Action)
        ensures
            (final(self)@, action) == old(self)@.after_frame((tag, field1, field2)),
            old(self)@.store.is_prefix_of(final(self)@.store),
    {
        match self.ending {
            Some(why) => Action::Close(why),
            None => {
                if tag == INSERT_TAG {
                    handle_insert(&mut self.storage, PricePoint(field1, field2));
                    Action::Continue
                } else if tag == QUERY_TAG {
                    let query = QueryRange { start: field1, end: field2 };
                    proof {
                        lemma_mean_bounds(self.storage@, query);
                    }
                    Action::Respond(handle_avg_query(&self.storage, query))
                } else {
                    self.ending = Some(Ending::UnknownTag);
                    Action::Close(Ending::UnknownTag)
                }
            },
        }
    }

    /// Handles what one attempt to read a frame returned.
    ///
    /// No bytes mean that the peer is done; one to eight bytes mean that
    /// the stream broke off inside a frame. Either closes the session.
    /// Nine bytes or more are decoded and handled as [`Session::on_frame`]
    /// does.
    pub fn on_read(&mut self, bytes: &[u8]) -> (action: Action)
        ensures
            (final(self)@, action) == old(self)@.after_read(bytes@),
            old(self)@.store.is_prefix_of(final(self)@.store),
    {
        match self.ending {
            Some(why) => Action::Close(why),
            None => {
                match read_message(bytes) {
                    Ok((tag, field1, field2)) => self.on_frame(tag, field1, field2),
                    Err(_) => {
                        let why = if bytes.len() == 0 {
                            Ending::EndOfStream
                        } else {
                            Ending::TruncatedFrame
                        };
                        self.ending = Some(why);
                        Action::Close(why)
                    },
                }
            },
        }
    }

    /// Handles a failed read or write: the session closes.
    pub fn on_failure(&mut self) -> (action: Action)
        ensures
            (final(self)@, action) == old(self)@.after_failure(),
    {
        match self.ending {
            Some(why) => Action::Close(why),
            None => {
                self.ending = Some(Ending::TransportError);
                Action::Close(Ending::TransportError)
            },
        }
    }
}

/// The first frame's worth of `input`: nine bytes, or all of it if shorter.
pub open spec fn first_read(input: Seq<u8>) -> Seq<u8> {
    if input.len() >= FRAME_LEN {
        input.take(FRAME_LEN as int)
    } else {
        input
    }
}

/// The bytes that go out for `action`: a mean's four bytes, else nothing.
pub open spec fn response_bytes(action: Action) -> Seq<u8> {
    match action {
        Action::Respond(value) => i32_be_bytes(value),
        _ => Seq::empty(),
    }
}

/// Everything a session in state `session` sends while it consumes `input`
/// frame by frame, and the reason for which it ends.
///
/// Each query is answered from the store as the frames before it left it.
pub open spec fn transcript(session: SessionView, input: Seq<u8>) -> (Seq<u8>, Ending)
    decreases input.len(),
{
    let (next, action) = session.after_read(first_read(input));
    match next.ending {
        Some(why) => (Seq::empty(), why),
        None => {
            let (rest, why) = transcript(next, input.skip(FRAME_LEN as int));
            (response_bytes(action) + rest, why)
        },
    }
}

/// Runs a whole session over a request stream that is already in memory.
///
/// Returns the bytes of all responses in order, and why the session ended:
/// at the end of the stream, inside a truncated frame, or at the first
/// frame with an unknown tag, after which nothing is read or sent.
pub fn handle_session(input: &[u8]) -> (outcome: (Vec<u8>, Ending))
    ensures
        (outcome.0@, outcome.1) == transcript(SessionView::fresh(), input@),
{
    let mut session = Session::new();
    let mut sent: Vec<u8> = Vec::new();
    let mut at: usize = 0;
    proof {
        assert(input@.skip(0) =~= input@);
        assert(sent@ + transcript(session@, input@).0 =~= transcript(session@, input@).0);
    }
    loop
        invariant
            at <= input@.len(),
            transcript(SessionView::fresh(), input@) == (
                sent@ + transcript(session@, input@.skip(at as int)).0,
                transcript(session@, input@.skip(at as int)).1,
            ),
        decreases input@.len() - at,
    {
        let end = if input.len() - at >= FRAME_LEN {
            at + FRAME_LEN
        } else {
            input.len()
        };
        let ghost rest = input@.skip(at as int);
        assert(first_read(rest) =~= input@.subrange(at as int, end as int));
        let action = session.on_read(slice_subrange(input, at, end));
        let ghost tail = transcript(session@, input@.skip(end as int)).0;
        match action {
            Action::Close(why) => {
                assert(sent@ + Seq::<u8>::empty() =~= sent@);
                return (sent, why);
            },
            Action::Continue => {
                assert(rest.skip(FRAME_LEN as int) =~= input@.skip(end as int));
                assert(sent@ + (Seq::<u8>::empty() + tail) =~= sent@ + tail);
            },
            Action::Respond(value) => {
                let bytes = write_response(value);
                assert(rest.skip(FRAME_LEN as int) =~= input@.skip(end as int));
                assert(sent@ + (i32_be_bytes(value) + tail) =~= (sent@ + i32_be_bytes(value))
                    + tail);
                let ghost sent_before = sent@;
                sent.push(bytes[0]);
                sent.push(bytes[1]);
                sent.push(bytes[2]);
                sent.push(bytes[3]);
                assert(sent@ =~= sent_before + i32_be_bytes(value));
            },
        }
        at = end;
    }
}

} // verus!

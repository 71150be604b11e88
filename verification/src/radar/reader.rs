//! The frame reader as a state machine.
//!
//! The reader never touches a transport. It says how many bytes it wants
//! next ([`ReaderState::wanted`]); the caller performs that one read, with
//! whatever timeout it applies to every read, and hands back what came of it
//! ([`ReaderState::advance`]). An attempt ends with the first read that comes
//! back short, failed or wrong, or with the trailer. A read that comes back
//! with more bytes than were asked for counts as short. Nothing is carried
//! over from one attempt to the next: each starts at [`ReaderState::start`].

use vstd::prelude::*;
use crate::radar::endian::{le16, u16_from_le};
use crate::radar::frame::{header_bytes, trailer_bytes, check_header, check_tail, FrameError};

verus! {

/// Where an attempt stands, as a mathematical value.
pub enum Phase {
    /// Nothing read yet: the header comes next.
    Header,
    /// The header was right: the length field comes next.
    Length,
    /// `length` bytes of payload come next.
    Payload { length: u16 },
    /// The payload is in hand: the trailer comes next.
    Trailer { payload: Seq<u8> },
}

/// What one read came back with, as a mathematical value.
pub enum Reply {
    /// The bytes that arrived before the timeout, possibly fewer than asked.
    Bytes(Seq<u8>),
    /// The read failed and delivered nothing.
    Failed,
}

/// What the reader makes of one reply, as a mathematical value.
pub enum Outcome {
    /// The attempt goes on in this phase.
    Next(Phase),
    /// The attempt is over, with a payload or with the reason for none.
    Done(Result<Seq<u8>, FrameError>),
}

/// Where an attempt stands.
#[derive(Debug)]
pub enum ReaderState {
    /// Nothing read yet: the header comes next.
    Header,
    /// The header was right: the length field comes next.
    Length,
    /// `length` bytes of payload come next.
    Payload { length: u16 },
    /// The payload is in hand: the trailer comes next.
    Trailer { payload: Vec<u8> },
}

/// What one read came back with.
#[derive(Debug)]
pub enum ReadReply {
    /// The bytes that arrived before the timeout, possibly fewer than asked.
    Bytes(Vec<u8>),
    /// The read failed and delivered nothing.
    Failed,
}

/// What the reader makes of one reply.
#[derive(Debug)]
pub enum Step {
    /// The attempt goes on: ask for the bytes that this state wants.
    Next(ReaderState),
    /// The attempt is over.
    Done(Result<Vec<u8>, FrameError>),
}

impl View for ReaderState {
    type V = Phase;

    open spec fn view(&self) -> Phase {
        match self {
            ReaderState::Header => Phase::Header,
            ReaderState::Length => Phase::Length,
            ReaderState::Payload { length } => Phase::Payload { length: *length },
            ReaderState::Trailer { payload } => Phase::Trailer { payload: payload@ },
        }
    }
}

impl View for ReadReply {
    type V = Reply;

    open spec fn view(&self) -> Reply {
        match self {
            ReadReply::Bytes(bytes) => Reply::Bytes(bytes@),
            ReadReply::Failed => Reply::Failed,
        }
    }
}

impl View for Step {
    type V = Outcome;

    open spec fn view(&self) -> Outcome {
        match self {
            Step::Next(state) => Outcome::Next(state@),
            Step::Done(Ok(payload)) => Outcome::Done(Ok(payload@)),
            Step::Done(Err(e)) => Outcome::Done(Err(*e)),
        }
    }
}

/// How many bytes the read of a phase asks for.
pub open spec fn wanted_in(phase: Phase) -> nat {
    match phase {
        Phase::Header => 4,
        Phase::Length => 2,
        Phase::Payload { length } => length as nat,
        Phase::Trailer { .. } => 4,
    }
}

/// How many bytes a reply delivered: none if the read failed.
pub open spec fn delivered(reply: Reply) -> nat {
    match reply {
        Reply::Bytes(bytes) => bytes.len(),
        Reply::Failed => 0,
    }
}

/// Whether a reply delivered exactly the bytes that the phase asked for.
pub open spec fn complete(phase: Phase, reply: Reply) -> bool {
    reply matches Reply::Bytes(bytes) && bytes.len() == wanted_in(phase)
}

/// The transition of the reader: what follows from `reply` in `phase`.
pub open spec fn step(phase: Phase, reply: Reply) -> Outcome {
    match phase {
        Phase::Header => {
            if !complete(phase, reply) {
                Outcome::Done(Err(FrameError::HeaderRead))
            } else if reply->Bytes_0 != header_bytes() {
                Outcome::Done(Err(FrameError::BadHeader))
            } else {
                Outcome::Next(Phase::Length)
            }
        },
        Phase::Length => {
            if !complete(phase, reply) {
                Outcome::Done(Err(FrameError::LengthRead))
            } else {
                Outcome::Next(
                    Phase::Payload { length: le16(reply->Bytes_0[0], reply->Bytes_0[1]) },
                )
            }
        },
        Phase::Payload { length } => {
            if !complete(phase, reply) {
                Outcome::Done(
                    Err(
                        FrameError::PayloadRead {
                            expected: length,
                            got: delivered(reply) as usize,
                        },
                    ),
                )
            } else {
                Outcome::Next(Phase::Trailer { payload: reply->Bytes_0 })
            }
        },
        Phase::Trailer { payload } => {
            if !complete(phase, reply) {
                Outcome::Done(Err(FrameError::TrailerRead))
            } else if reply->Bytes_0 != trailer_bytes() {
                Outcome::Done(Err(FrameError::BadTrailer))
            } else {
                Outcome::Done(Ok(payload))
            }
        },
    }
}

impl ReaderState {
    /// The state in which every attempt begins.
    pub fn start() -> (state: ReaderState)
        ensures
            state@ == Phase::Header,
    {
        ReaderState::Header
    }

    /// How many bytes to ask the transport for next.
    pub fn wanted(&self) -> (count: usize)
        ensures
            count == wanted_in(self@),
    {
        match self {
            ReaderState::Header => 4,
            ReaderState::Length => 2,
            ReaderState::Payload { length } => *length as usize,
            ReaderState::Trailer { .. } => 4,
        }
    }

    /// Takes what the read came back with and says how the attempt goes on.
    ///
    /// A header read that is short or failed ends the attempt with
    /// `HeaderRead`: no further read is asked for. A payload read that
    /// delivers another number of bytes than announced ends it with
    /// `PayloadRead`, which carries the number that did arrive.
    pub fn advance(self, reply: ReadReply) -> (next: Step)
        ensures
            next@ == step(self@, reply@),
            self@ is Header && !complete(self@, reply@) ==> next@ == Outcome::Done(
                Err(FrameError::HeaderRead),
            ),
            self@ is Payload && !complete(self@, reply@) ==> next@ == Outcome::Done(
                Err(
                    FrameError::PayloadRead {
                        expected: self@->length,
                        got: delivered(reply@) as usize,
                    },
                ),
            ),
    {
        match self {
            ReaderState::Header => {
                match reply {
                    ReadReply::Bytes(bytes) => {
                        if bytes.len() != 4 {
                            Step::Done(Err(FrameError::HeaderRead))
                        } else if !check_header(bytes.as_slice()) {
                            Step::Done(Err(FrameError::BadHeader))
                        } else {
                            Step::Next(ReaderState::Length)
                        }
                    },
                    ReadReply::Failed => Step::Done(Err(FrameError::HeaderRead)),
                }
            },
            ReaderState::Length => {
                match reply {
                    ReadReply::Bytes(bytes) => {
                        if bytes.len() != 2 {
                            Step::Done(Err(FrameError::LengthRead))
                        } else {
                            Step::Next(
                                ReaderState::Payload { length: u16_from_le(bytes[0], bytes[1]) },
                            )
                        }
                    },
                    ReadReply::Failed => Step::Done(Err(FrameError::LengthRead)),
                }
            },
            ReaderState::Payload { length } => {
                match reply {
                    ReadReply::Bytes(bytes) => {
                        if bytes.len() != length as usize {
                            Step::Done(
                                Err(FrameError::PayloadRead { expected: length, got: bytes.len() }),
                            )
                        } else {
                            Step::Next(ReaderState::Trailer { payload: bytes })
                        }
                    },
                    ReadReply::Failed => Step::Done(
                        Err(FrameError::PayloadRead { expected: length, got: 0 }),
                    ),
                }
            },
            ReaderState::Trailer { payload } => {
                match reply {
                    ReadReply::Bytes(bytes) => {
                        if bytes.len() != 4 {
                            Step::Done(Err(FrameError::TrailerRead))
                        } else if !check_tail(bytes.as_slice()) {
                            Step::Done(Err(FrameError::BadTrailer))
                        } else {
                            Step::Done(Ok(payload))
                        }
                    },
                    ReadReply::Failed => Step::Done(Err(FrameError::TrailerRead)),
                }
            },
        }
    }
}

/// Where an attempt stands after the replies to its reads, in order. Replies
/// that come after the attempt is over are not looked at.
pub open spec fn run(phase: Phase, replies: Seq<Reply>) -> Outcome
    decreases replies.len(),
{
    if replies.len() == 0 {
        Outcome::Next(phase)
    } else {
        match step(phase, replies[0]) {
            Outcome::Next(next) => run(next, replies.drop_first()),
            Outcome::Done(result) => Outcome::Done(result),
        }
    }
}

/// An attempt is over after four reads at the latest, whatever they come
/// back with.
pub proof fn lemma_attempt_ends(replies: Seq<Reply>)
    requires
        replies.len() >= 4,
    ensures
        run(Phase::Header, replies) is Done,
{
    let after_header = replies.drop_first();
    let after_length = after_header.drop_first();
    let after_payload = after_length.drop_first();
    if let Outcome::Next(length_phase) = step(Phase::Header, replies[0]) {
        assert(length_phase is Length);
        if let Outcome::Next(payload_phase) = step(length_phase, after_header[0]) {
            assert(payload_phase is Payload);
            if let Outcome::Next(trailer_phase) = step(payload_phase, after_length[0]) {
                assert(trailer_phase is Trailer);
                assert(step(trailer_phase, after_payload[0]) is Done);
                assert(run(trailer_phase, after_payload) is Done);
                assert(run(payload_phase, after_length) is Done);
            }
            assert(run(length_phase, after_header) is Done);
        }
    }
}

/// An attempt whose header read is short or failed is over with that read:
/// it ends in `HeaderRead` and what later reads would bring plays no part.
pub proof fn lemma_header_read_ends_attempt(replies: Seq<Reply>)
    requires
        replies.len() > 0,
        !complete(Phase::Header, replies[0]),
    ensures
        run(Phase::Header, replies) == Outcome::Done(Err(FrameError::HeaderRead)),
{
}

} // verus!

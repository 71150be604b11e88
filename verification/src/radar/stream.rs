//! Reading frames from bytes held in memory.
//!
//! A [`ByteStream`] stands for a line that delivers the bytes it holds and
//! then falls silent: a read gets as many bytes as were asked for, or what is
//! left if that is less. On such a line the outcome of an attempt is a
//! function of the bytes alone, [`frame_parse`].

use vstd::prelude::*;
use crate::radar::endian::le16;
use crate::radar::record::{decode, decode_spec, basic_record, lemma_record_round_trip,
    DecodeResult, Measurement};
use crate::radar::frame::{frame_parse, framed, lemma_frame_round_trip, FrameError};
use crate::radar::reader::{ReaderState, ReadReply, Reply, Step};

verus! {

/// Bytes waiting to be read, in order.
pub struct ByteStream {
    data: Vec<u8>,
    pos: usize,
}

impl View for ByteStream {
    type V = Seq<u8>;

    /// The bytes not yet read.
    closed spec fn view(&self) -> Seq<u8> {
        self.data@.subrange(self.pos as int, self.data@.len() as int)
    }
}

/// The bytes that a read of `count` gets from a line that still holds `s`.
pub open spec fn got_from(s: Seq<u8>, count: nat) -> Seq<u8> {
    if count <= s.len() {
        s.subrange(0, count as int)
    } else {
        s
    }
}

/// What is left on a line that held `s` after a read of `count`.
pub open spec fn left_after(s: Seq<u8>, count: nat) -> Seq<u8> {
    if count <= s.len() {
        s.subrange(count as int, s.len() as int)
    } else {
        Seq::empty()
    }
}

impl ByteStream {
    #[verifier::type_invariant]
    spec fn well_formed(self) -> bool {
        self.pos <= self.data@.len()
    }

    /// A stream that will deliver `data` from its first byte on.
    pub fn new(data: Vec<u8>) -> (stream: ByteStream)
        ensures
            stream@ == data@,
    {
        let stream = ByteStream { data, pos: 0 };
        assert(stream@ =~= data@);
        stream
    }

    /// How many bytes are still to be read.
    pub fn remaining(&self) -> (count: usize)
        ensures
            count == self@.len(),
    {
        proof {
            use_type_invariant(self);
        }
        self.data.len() - self.pos
    }

    /// Reads `count` bytes, or all that is left if that is less. The read
    /// never fails.
    pub fn read(&mut self, count: usize) -> (reply: ReadReply)
        ensures
            reply@ == Reply::Bytes(got_from(old(self)@, count as nat)),
            final(self)@ == left_after(old(self)@, count as nat),
    {
        proof {
            use_type_invariant(&*self);
        }
        let left: usize = self.data.len() - self.pos;
        let take: usize = if count <= left {
            count
        } else {
            left
        };
        let start: usize = self.pos;
        let mut bytes: Vec<u8> = Vec::new();
        let mut i: usize = 0;
        while i < take
            invariant
                i <= take,
                start + take <= self.data.len(),
                self.pos == start,
                self.data@ == old(self).data@,
                bytes@ == self.data@.subrange(start as int, start + i),
            decreases take - i,
        {
            bytes.push(self.data[start + i]);
            i = i + 1;
            assert(bytes@ =~= self.data@.subrange(start as int, start + i));
        }
        self.pos = start + take;
        proof {
            assert(bytes@ =~= got_from(old(self)@, count as nat));
            assert(self@ =~= left_after(old(self)@, count as nat));
        }
        ReadReply::Bytes(bytes)
    }
}

/// Reads one frame from the stream and returns its payload.
///
/// The four reads of an attempt are made in turn, each for the number of
/// bytes that the reader asks for, and the attempt ends at the first that
/// comes back short or wrong. The stream is left where the last read ended.
pub fn read_frame(stream: &mut ByteStream) -> (r: Result<Vec<u8>, FrameError>)
    ensures
        match r {
            Ok(payload) => frame_parse(old(stream)@).outcome == Ok::<Seq<u8>, FrameError>(
                payload@,
            ),
            Err(e) => frame_parse(old(stream)@).outcome == Err::<Seq<u8>, FrameError>(e),
        },
        final(stream)@ == old(stream)@.subrange(
            frame_parse(old(stream)@).consumed as int,
            old(stream)@.len() as int,
        ),
        old(stream)@.len() < 4 ==> r == Err::<Vec<u8>, FrameError>(FrameError::HeaderRead)
            && final(stream)@.len() == 0,
        r matches Err(FrameError::PayloadRead { expected, got }) ==> got < expected && got
            == old(stream)@.len() - 6 && final(stream)@.len() == 0,
{
    let ghost s = stream@;
    let state = ReaderState::start();
    let reply = stream.read(state.wanted());
    let state = match state.advance(reply) {
        Step::Next(state) => state,
        Step::Done(r) => {
            assert(stream@ =~= s.subrange(frame_parse(s).consumed as int, s.len() as int));
            return r;
        },
    };
    let reply = stream.read(state.wanted());
    let state = match state.advance(reply) {
        Step::Next(state) => state,
        Step::Done(r) => {
            assert(stream@ =~= s.subrange(frame_parse(s).consumed as int, s.len() as int));
            return r;
        },
    };
    assert(stream@ =~= s.subrange(6, s.len() as int));
    let reply = stream.read(state.wanted());
    let state = match state.advance(reply) {
        Step::Next(state) => state,
        Step::Done(r) => {
            assert(stream@ =~= s.subrange(frame_parse(s).consumed as int, s.len() as int));
            return r;
        },
    };
    let ghost n = le16(s[4], s[5]) as int;
    assert(stream@ =~= s.subrange(6 + n, s.len() as int));
    assert(state@->payload =~= s.subrange(6, 6 + n));
    let reply = stream.read(state.wanted());
    proof {
        if s.len() >= 10 + n {
            assert(reply@->Bytes_0 =~= s.subrange(6 + n, 10 + n));
        }
    }
    match state.advance(reply) {
        Step::Next(_) => {
            assert(false);
            Err(FrameError::TrailerRead)
        },
        Step::Done(r) => {
            assert(stream@ =~= s.subrange(frame_parse(s).consumed as int, s.len() as int));
            r
        },
    }
}

/// What one full cycle makes of the bytes `s` on a line: the frame is read,
/// and its payload, if there is one, is decoded.
pub open spec fn cycle_spec(s: Seq<u8>) -> DecodeResult {
    match frame_parse(s).outcome {
        Ok(payload) => decode_spec(payload),
        Err(e) => DecodeResult::FrameError(e),
    }
}

/// Turns the outcome of a frame read into the result to report: a payload is
/// decoded, a frame error is passed on as it is.
pub fn classify(frame: Result<Vec<u8>, FrameError>) -> (r: DecodeResult)
    ensures
        match frame {
            Ok(payload) => r == decode_spec(payload@),
            Err(e) => r == DecodeResult::FrameError(e),
        },
{
    match frame {
        Ok(payload) => decode(payload.as_slice()),
        Err(e) => DecodeResult::FrameError(e),
    }
}

/// One full cycle on a stream: reads a frame and decodes its payload.
pub fn read_and_decode(stream: &mut ByteStream) -> (r: DecodeResult)
    ensures
        r == cycle_spec(old(stream)@),
        final(stream)@ == old(stream)@.subrange(
            frame_parse(old(stream)@).consumed as int,
            old(stream)@.len() as int,
        ),
{
    let frame = read_frame(stream);
    classify(frame)
}

/// A well-formed frame around a well-formed basic-data record reads and
/// decodes to the measurement that the record spells, whatever follows the
/// frame on the line and whatever stands in the record's other bytes.
pub proof fn lemma_framed_record_decodes(
    m: Measurement,
    moving_energy: u8,
    stationary_energy: u8,
    last: u8,
    rest: Seq<u8>,
)
    ensures
        cycle_spec(framed(basic_record(m, moving_energy, stationary_energy, last)) + rest)
            == DecodeResult::Measurement(m),
        frame_parse(
            framed(basic_record(m, moving_energy, stationary_energy, last)) + rest,
        ).consumed == 24,
{
    let record = basic_record(m, moving_energy, stationary_energy, last);
    lemma_frame_round_trip(record, rest);
    lemma_record_round_trip(m, moving_energy, stationary_energy, last);
}

} // verus!

//! The outer frame that carries one payload over the serial line.
//!
//! | offset       | size     | field                 |
//! |--------------|----------|-----------------------|
//! | 0            | 4        | header `F4 F3 F2 F1`  |
//! | 4            | 2        | length, little-endian |
//! | 6            | `length` | payload               |
//! | 6 + `length` | 4        | trailer `F8 F7 F6 F5` |
//!
//! There is no checksum: a frame is accepted when header and trailer are
//! byte-exact and the payload has the announced length.

use vstd::prelude::*;
use crate::radar::endian::{le16, lo_byte, hi_byte, u16_to_le, lemma_le16_round_trip};

verus! {

/// Why no payload came out of an attempt to read a frame.
#[derive(Clone, Copy, Debug, PartialEq, Eq, Structural)]
pub enum FrameError {
    /// The header read came back short or failed.
    HeaderRead,
    /// Four bytes were read where the header belongs, but not the header.
    BadHeader,
    /// The length read came back short or failed.
    LengthRead,
    /// The payload read came back with `got` bytes where `expected` were
    /// announced. A read that failed outright counts as zero bytes.
    PayloadRead { expected: u16, got: usize },
    /// The trailer read came back short or failed.
    TrailerRead,
    /// Four bytes were read where the trailer belongs, but not the trailer.
    BadTrailer,
}

/// Bytes of a frame besides its payload.
pub const FRAME_OVERHEAD: usize = 10;

/// The largest payload that the length field can announce.
pub const MAX_PAYLOAD: usize = 65535;

/// The four bytes that open a frame.
pub open spec fn header_bytes() -> Seq<u8> {
    seq![0xF4u8, 0xF3u8, 0xF2u8, 0xF1u8]
}

/// The four bytes that close a frame.
pub open spec fn trailer_bytes() -> Seq<u8> {
    seq![0xF8u8, 0xF7u8, 0xF6u8, 0xF5u8]
}

/// The two bytes of the length field for a payload of `n` bytes.
pub open spec fn length_bytes(n: u16) -> Seq<u8> {
    seq![lo_byte(n), hi_byte(n)]
}

/// The frame that carries `payload`.
pub open spec fn framed(payload: Seq<u8>) -> Seq<u8>
    recommends
        payload.len() <= MAX_PAYLOAD,
{
    header_bytes() + length_bytes(payload.len() as u16) + payload + trailer_bytes()
}

/// What one attempt to read a frame makes of the bytes `s` that a line still
/// has to give, and how many of them the attempt takes.
pub struct FrameParse {
    /// The payload, or why there is none.
    pub outcome: Result<Seq<u8>, FrameError>,
    /// How many bytes of `s` were read.
    pub consumed: nat,
}

/// One attempt on a line that delivers `s` and then nothing more.
///
/// The attempt reads header, length, payload and trailer in turn and stops at
/// the first read that comes back short or wrong. A short read takes what
/// was left; a wrong header or trailer takes its four bytes. Nothing is read
/// after the read that failed.
pub open spec fn frame_parse(s: Seq<u8>) -> FrameParse {
    if s.len() < 4 {
        FrameParse { outcome: Err(FrameError::HeaderRead), consumed: s.len() }
    } else if s.subrange(0, 4) != header_bytes() {
        FrameParse { outcome: Err(FrameError::BadHeader), consumed: 4 }
    } else if s.len() < 6 {
        FrameParse { outcome: Err(FrameError::LengthRead), consumed: s.len() }
    } else {
        let n: u16 = le16(s[4], s[5]);
        if s.len() < 6 + n {
            FrameParse {
                outcome: Err(
                    FrameError::PayloadRead { expected: n, got: (s.len() - 6) as usize },
                ),
                consumed: s.len(),
            }
        } else if s.len() < 10 + n {
            FrameParse { outcome: Err(FrameError::TrailerRead), consumed: s.len() }
        } else if s.subrange(6 + n, 10 + n) != trailer_bytes() {
            FrameParse { outcome: Err(FrameError::BadTrailer), consumed: (10 + n) as nat }
        } else {
            FrameParse { outcome: Ok(s.subrange(6, 6 + n)), consumed: (10 + n) as nat }
        }
    }
}

/// Whether `got` is the frame header.
pub fn check_header(got: &[u8]) -> (ok: bool)
    ensures
        ok == (got@ == header_bytes()),
{
    let ok: bool = got.len() == 4 && got[0] == 0xF4 && got[1] == 0xF3 && got[2] == 0xF2 && got[3]
        == 0xF1;
    proof {
        if ok {
            assert(got@ =~= header_bytes());
        }
    }
    ok
}

/// Whether `got` is the frame trailer.
pub fn check_tail(got: &[u8]) -> (ok: bool)
    ensures
        ok == (got@ == trailer_bytes()),
{
    let ok: bool = got.len() == 4 && got[0] == 0xF8 && got[1] == 0xF7 && got[2] == 0xF6 && got[3]
        == 0xF5;
    proof {
        if ok {
            assert(got@ =~= trailer_bytes());
        }
    }
    ok
}

/// Wraps `payload` in a frame. There is no frame for a payload longer than
/// the length field can announce.
pub fn encode_frame(payload: &[u8]) -> (out: Option<Vec<u8>>)
    ensures
        out is Some <==> payload@.len() <= MAX_PAYLOAD,
        out matches Some(bytes) ==> bytes@ == framed(payload@),
{
    if payload.len() > MAX_PAYLOAD {
        return None;
    }
    let length: (u8, u8) = u16_to_le(payload.len() as u16);
    let mut out: Vec<u8> = Vec::new();
    out.push(0xF4);
    out.push(0xF3);
    out.push(0xF2);
    out.push(0xF1);
    out.push(length.0);
    out.push(length.1);
    assert(out@ =~= header_bytes() + length_bytes(payload@.len() as u16));
    let mut i: usize = 0;
    while i < payload.len()
        invariant
            i <= payload@.len(),
            out@ == header_bytes() + length_bytes(payload@.len() as u16) + payload@.subrange(
                0,
                i as int,
            ),
        decreases payload@.len() - i,
    {
        out.push(payload[i]);
        i = i + 1;
        assert(out@ =~= header_bytes() + length_bytes(payload@.len() as u16)
            + payload@.subrange(0, i as int));
    }
    assert(payload@.subrange(0, i as int) =~= payload@);
    out.push(0xF8);
    out.push(0xF7);
    out.push(0xF6);
    out.push(0xF5);
    assert(out@ =~= framed(payload@));
    Some(out)
}

/// A line that delivers a frame, and then anything, gives the frame's payload
/// back and is read up to the end of the frame.
pub proof fn lemma_frame_round_trip(payload: Seq<u8>, rest: Seq<u8>)
    requires
        payload.len() <= MAX_PAYLOAD,
    ensures
        frame_parse(framed(payload) + rest).outcome == Ok::<Seq<u8>, FrameError>(payload),
        frame_parse(framed(payload) + rest).consumed == payload.len() + FRAME_OVERHEAD,
{
    let n: u16 = payload.len() as u16;
    let s = framed(payload) + rest;
    lemma_le16_round_trip(n);
    assert(s.len() == 10 + n + rest.len());
    assert(s.subrange(0, 4) =~= header_bytes());
    assert(s[4] == lo_byte(n) && s[5] == hi_byte(n));
    assert(le16(s[4], s[5]) == n);
    assert(s.subrange(6 + n, 10 + n) =~= trailer_bytes());
    assert(s.subrange(6, 6 + n) =~= payload);
}

} // verus!

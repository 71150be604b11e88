//! The record carried inside a frame's payload.
//!
//! A basic-data record is exactly fourteen bytes. All integers are
//! little-endian.
//!
//! | offset | size | field                      |
//! |--------|------|----------------------------|
//! | 0      | 1    | discriminant               |
//! | 1      | 1    | inner header `AA`          |
//! | 2      | 1    | target status              |
//! | 3      | 2    | moving target distance     |
//! | 5      | 1    | moving target energy       |
//! | 6      | 2    | stationary target distance |
//! | 8      | 1    | stationary target energy   |
//! | 9      | 2    | detection distance         |
//! | 11     | 2    | inner trailer `55 00`      |
//! | 13     | 1    | not inspected              |
//!
//! A payload is taken apart only if its length and its three marker bytes are
//! right. Only then is the discriminant looked at.

use vstd::prelude::*;
use crate::radar::endian::{le16, lo_byte, hi_byte, u16_from_le, u16_to_le, lemma_le16_round_trip};
use crate::radar::frame::FrameError;

verus! {

/// Length in bytes of a basic-data record.
pub const RECORD_LEN: usize = 14;

/// The byte that follows the discriminant.
pub const INNER_HEADER: u8 = 0xAA;

/// First byte of the inner trailer.
pub const INNER_TRAILER_0: u8 = 0x55;

/// Second byte of the inner trailer.
pub const INNER_TRAILER_1: u8 = 0x00;

/// Discriminant of an engineering-data record.
pub const ENGINEERING_DATA: u8 = 0x01;

/// Discriminant of a basic-data record.
pub const BASIC_DATA: u8 = 0x02;

/// One decoded basic-data report. The two energy bytes of the record are not
/// part of it.
#[derive(Clone, Copy, Debug, PartialEq, Eq, Structural)]
pub struct Measurement {
    /// Status code as sent by the sensor.
    pub target_status: u8,
    /// Distance to the moving target, in the sensor's unit (centimetres).
    pub moving_target_distance: u16,
    /// Distance to the stationary target.
    pub stationary_target_distance: u16,
    /// Distance at which presence was detected.
    pub detection_distance: u16,
}

/// Why a well-formed record carries nothing to report.
#[derive(Clone, Copy, Debug, PartialEq, Eq, Structural)]
pub enum IgnoreReason {
    /// The record holds engineering data.
    EngineeringData,
}

/// Why a payload could not be decoded.
#[derive(Clone, Copy, Debug, PartialEq, Eq, Structural)]
pub enum RecordError {
    /// The payload's length or marker bytes match no known record layout.
    UnrecognizedShape,
    /// The shape is right but the discriminant, carried here, is unknown.
    UnknownDiscriminant(u8),
}

/// The outcome of one attempt to read and decode a frame.
#[derive(Clone, Copy, Debug, PartialEq, Eq, Structural)]
pub enum DecodeResult {
    /// A basic-data record, decoded.
    Measurement(Measurement),
    /// A record that is well-formed and deliberately skipped.
    Ignored(IgnoreReason),
    /// No payload was obtained.
    FrameError(FrameError),
    /// A payload was obtained and rejected.
    RecordError(RecordError),
}

/// Whether `p` has the length and the marker bytes of a basic-data record.
pub open spec fn is_basic_shape(p: Seq<u8>) -> bool {
    &&& p.len() == RECORD_LEN
    &&& p[1] == INNER_HEADER
    &&& p[11] == INNER_TRAILER_0
    &&& p[12] == INNER_TRAILER_1
}

/// The fields of a payload that has the basic-data shape.
pub open spec fn fields_of(p: Seq<u8>) -> Measurement
    recommends
        is_basic_shape(p),
{
    Measurement {
        target_status: p[2],
        moving_target_distance: le16(p[3], p[4]),
        stationary_target_distance: le16(p[6], p[7]),
        detection_distance: le16(p[9], p[10]),
    }
}

/// What a payload decodes to.
pub open spec fn decode_spec(p: Seq<u8>) -> DecodeResult {
    if !is_basic_shape(p) {
        DecodeResult::RecordError(RecordError::UnrecognizedShape)
    } else if p[0] == BASIC_DATA {
        DecodeResult::Measurement(fields_of(p))
    } else if p[0] == ENGINEERING_DATA {
        DecodeResult::Ignored(IgnoreReason::EngineeringData)
    } else {
        DecodeResult::RecordError(RecordError::UnknownDiscriminant(p[0]))
    }
}

/// The fourteen bytes of a basic-data record that carries `m`. The bytes that
/// a measurement does not determine are given separately: the two energies
/// and the last byte.
pub open spec fn basic_record(
    m: Measurement,
    moving_energy: u8,
    stationary_energy: u8,
    last: u8,
) -> Seq<u8> {
    seq![
        BASIC_DATA,
        INNER_HEADER,
        m.target_status,
        lo_byte(m.moving_target_distance),
        hi_byte(m.moving_target_distance),
        moving_energy,
        lo_byte(m.stationary_target_distance),
        hi_byte(m.stationary_target_distance),
        stationary_energy,
        lo_byte(m.detection_distance),
        hi_byte(m.detection_distance),
        INNER_TRAILER_0,
        INNER_TRAILER_1,
        last,
    ]
}

/// Classifies and decodes one payload.
///
/// A payload that does not have the basic-data shape is rejected whatever its
/// first byte says; the discriminant is looked at only once the shape matches.
pub fn decode(payload: &[u8]) -> (r: DecodeResult)
    ensures
        r == decode_spec(payload@),
        !(r is FrameError),
        payload@.len() != 14 ==> r == DecodeResult::RecordError(RecordError::UnrecognizedShape),
        is_basic_shape(payload@) && payload@[0] == 0x02 ==> r == DecodeResult::Measurement(
            fields_of(payload@),
        ),
        is_basic_shape(payload@) && payload@[0] == 0x01 ==> r == DecodeResult::Ignored(
            IgnoreReason::EngineeringData,
        ),
        is_basic_shape(payload@) && payload@[0] != 0x01 && payload@[0] != 0x02 ==> r
            == DecodeResult::RecordError(RecordError::UnknownDiscriminant(payload@[0])),
{
    if payload.len() != RECORD_LEN {
        return DecodeResult::RecordError(RecordError::UnrecognizedShape);
    }
    if payload[1] != INNER_HEADER || payload[11] != INNER_TRAILER_0 || payload[12]
        != INNER_TRAILER_1 {
        return DecodeResult::RecordError(RecordError::UnrecognizedShape);
    }
    let discriminant: u8 = payload[0];
    if discriminant == BASIC_DATA {
        DecodeResult::Measurement(
            Measurement {
                target_status: payload[2],
                moving_target_distance: u16_from_le(payload[3], payload[4]),
                stationary_target_distance: u16_from_le(payload[6], payload[7]),
                detection_distance: u16_from_le(payload[9], payload[10]),
            },
        )
    } else if discriminant == ENGINEERING_DATA {
        DecodeResult::Ignored(IgnoreReason::EngineeringData)
    } else {
        DecodeResult::RecordError(RecordError::UnknownDiscriminant(discriminant))
    }
}

impl IgnoreReason {
    /// The reason in words.
    pub fn describe(&self) -> (text: &'static str)
        ensures
            text@ == "engineering data"@,
    {
        match self {
            IgnoreReason::EngineeringData => "engineering data",
        }
    }
}

impl Measurement {
    /// The record that carries this measurement, with zero for every byte that
    /// the measurement does not determine.
    pub fn encode(&self) -> (out: Vec<u8>)
        ensures
            out@ == basic_record(*self, 0, 0, 0),
            decode_spec(out@) == DecodeResult::Measurement(*self),
    {
        let moving: (u8, u8) = u16_to_le(self.moving_target_distance);
        let stationary: (u8, u8) = u16_to_le(self.stationary_target_distance);
        let detection: (u8, u8) = u16_to_le(self.detection_distance);
        let mut out: Vec<u8> = Vec::new();
        out.push(BASIC_DATA);
        out.push(INNER_HEADER);
        out.push(self.target_status);
        out.push(moving.0);
        out.push(moving.1);
        out.push(0);
        out.push(stationary.0);
        out.push(stationary.1);
        out.push(0);
        out.push(detection.0);
        out.push(detection.1);
        out.push(INNER_TRAILER_0);
        out.push(INNER_TRAILER_1);
        out.push(0);
        proof {
            assert(out@ =~= basic_record(*self, 0, 0, 0));
            lemma_record_round_trip(*self, 0, 0, 0);
        }
        out
    }
}

/// Encoding a measurement into the wire layout and decoding the bytes gives
/// the same measurement, whatever stands in the bytes that the measurement
/// does not determine.
pub proof fn lemma_record_round_trip(
    m: Measurement,
    moving_energy: u8,
    stationary_energy: u8,
    last: u8,
)
    ensures
        is_basic_shape(basic_record(m, moving_energy, stationary_energy, last)),
        decode_spec(basic_record(m, moving_energy, stationary_energy, last))
            == DecodeResult::Measurement(m),
{
    let p = basic_record(m, moving_energy, stationary_energy, last);
    lemma_le16_round_trip(m.moving_target_distance);
    lemma_le16_round_trip(m.stationary_target_distance);
    lemma_le16_round_trip(m.detection_distance);
    assert(fields_of(p) == m);
}

} // verus!

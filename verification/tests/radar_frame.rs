use toolbox::radar::frame::{check_header, check_tail, encode_frame, FrameError};
use toolbox::radar::reader::{ReadReply, ReaderState, Step};
use toolbox::radar::record::{DecodeResult, Measurement, RecordError};
use toolbox::radar::stream::{classify, read_and_decode, read_frame, ByteStream};

/// A frame that announces fourteen bytes and carries a basic-data record.
fn good_frame() -> Vec<u8> {
    vec![
        0xF4, 0xF3, 0xF2, 0xF1, 0x0E, 0x00, 0x02, 0xAA, 0x01, 0x64, 0x00, 0x50, 0x56, 0x03, 0x02,
        0xA0, 0x00, 0x55, 0x00, 0x00, 0xF8, 0xF7, 0xF6, 0xF5,
    ]
}

/// Twenty-three bytes: a length field of fourteen, then thirteen bytes and a
/// trailer.
fn short_listing(last: u8) -> Vec<u8> {
    vec![
        0xF4, 0xF3, 0xF2, 0xF1, 0x0E, 0x00, 0x02, 0xAA, 0x01, 0x64, 0x00, 0x50, 0x03, 0x96, 0x02,
        0xA0, 0x00, 0x55, 0x00, 0xF8, 0xF7, 0xF6, last,
    ]
}

fn expected_measurement() -> Measurement {
    Measurement {
        target_status: 0x01,
        moving_target_distance: 100,
        stationary_target_distance: 854,
        detection_distance: 160,
    }
}

#[test]
fn end_to_end_measurement() {
    let mut stream = ByteStream::new(good_frame());
    assert_eq!(
        read_and_decode(&mut stream),
        DecodeResult::Measurement(expected_measurement())
    );
    assert_eq!(stream.remaining(), 0);
}

#[test]
fn end_to_end_bad_trailer() {
    let mut bytes = good_frame();
    let n = bytes.len();
    bytes[n - 1] = 0xF4;
    let mut stream = ByteStream::new(bytes);
    assert_eq!(
        read_and_decode(&mut stream),
        DecodeResult::FrameError(FrameError::BadTrailer)
    );
    assert_eq!(stream.remaining(), 0);
}

#[test]
fn length_field_decides_where_the_trailer_is() {
    // The length field claims one byte more than stands before the trailer,
    // so the payload swallows the trailer's first byte and the trailer read
    // comes back with three bytes.
    let mut stream = ByteStream::new(short_listing(0xF5));
    assert_eq!(
        read_and_decode(&mut stream),
        DecodeResult::FrameError(FrameError::TrailerRead)
    );
    assert_eq!(stream.remaining(), 0);
    let mut altered = ByteStream::new(short_listing(0xF4));
    assert_eq!(
        read_and_decode(&mut altered),
        DecodeResult::FrameError(FrameError::TrailerRead)
    );
}

#[test]
fn read_frame_returns_the_payload() {
    let mut stream = ByteStream::new(good_frame());
    let payload = read_frame(&mut stream).unwrap();
    assert_eq!(payload, good_frame()[6..20].to_vec());
}

#[test]
fn short_header_is_header_read_and_ends_the_attempt() {
    for have in 0..4usize {
        let mut stream = ByteStream::new(good_frame()[..have].to_vec());
        assert_eq!(read_frame(&mut stream), Err(FrameError::HeaderRead));
        assert_eq!(stream.remaining(), 0);
    }
}

#[test]
fn wrong_header_is_bad_header_and_takes_four_bytes() {
    let mut bytes = good_frame();
    bytes[2] = 0x00;
    let mut stream = ByteStream::new(bytes);
    assert_eq!(read_frame(&mut stream), Err(FrameError::BadHeader));
    assert_eq!(stream.remaining(), 20);
}

#[test]
fn short_length_is_length_read() {
    for have in 4..6usize {
        let mut stream = ByteStream::new(good_frame()[..have].to_vec());
        assert_eq!(read_frame(&mut stream), Err(FrameError::LengthRead));
    }
}

#[test]
fn short_payload_reports_the_count_that_arrived() {
    for got in 0..14usize {
        let mut stream = ByteStream::new(good_frame()[..6 + got].to_vec());
        assert_eq!(
            read_frame(&mut stream),
            Err(FrameError::PayloadRead { expected: 14, got })
        );
    }
}

#[test]
fn short_trailer_is_trailer_read() {
    for have in 20..24usize {
        let mut stream = ByteStream::new(good_frame()[..have].to_vec());
        assert_eq!(read_frame(&mut stream), Err(FrameError::TrailerRead));
    }
}

#[test]
fn empty_payload_is_a_legal_frame_and_an_unrecognized_record() {
    let bytes = vec![0xF4, 0xF3, 0xF2, 0xF1, 0x00, 0x00, 0xF8, 0xF7, 0xF6, 0xF5];
    let mut stream = ByteStream::new(bytes.clone());
    assert_eq!(read_frame(&mut stream), Ok(vec![]));
    let mut stream = ByteStream::new(bytes);
    assert_eq!(
        read_and_decode(&mut stream),
        DecodeResult::RecordError(RecordError::UnrecognizedShape)
    );
}

#[test]
fn frames_are_read_one_after_the_other() {
    let mut bytes = good_frame();
    bytes.extend_from_slice(&[0xF4, 0xF3, 0xF2, 0xF1, 0x01, 0x00, 0x09, 0xF8, 0xF7, 0xF6, 0xF5]);
    let mut stream = ByteStream::new(bytes);
    assert!(matches!(
        read_and_decode(&mut stream),
        DecodeResult::Measurement(_)
    ));
    assert_eq!(stream.remaining(), 11);
    assert_eq!(read_frame(&mut stream), Ok(vec![0x09]));
    assert_eq!(read_frame(&mut stream), Err(FrameError::HeaderRead));
}

#[test]
fn encode_frame_wraps_and_read_frame_unwraps() {
    let payload: Vec<u8> = (0u8..200).collect();
    let frame = encode_frame(&payload).unwrap();
    assert_eq!(frame.len(), 210);
    assert_eq!(&frame[..6], &[0xF4, 0xF3, 0xF2, 0xF1, 200, 0]);
    assert_eq!(&frame[206..], &[0xF8, 0xF7, 0xF6, 0xF5]);
    let mut stream = ByteStream::new(frame);
    assert_eq!(read_frame(&mut stream), Ok(payload));
}

#[test]
fn encode_frame_length_is_little_endian() {
    let payload = vec![7u8; 0x0102];
    let frame = encode_frame(&payload).unwrap();
    assert_eq!(&frame[4..6], &[0x02, 0x01]);
}

#[test]
fn encode_frame_refuses_what_the_length_field_cannot_say() {
    assert!(encode_frame(&vec![0u8; 65535]).is_some());
    assert!(encode_frame(&vec![0u8; 65536]).is_none());
}

#[test]
fn encoded_measurement_survives_the_full_cycle() {
    let m = Measurement {
        target_status: 2,
        moving_target_distance: 513,
        stationary_target_distance: 65535,
        detection_distance: 1,
    };
    let mut frame = encode_frame(&m.encode()).unwrap();
    frame.extend_from_slice(&[1, 2, 3]);
    let mut stream = ByteStream::new(frame);
    assert_eq!(read_and_decode(&mut stream), DecodeResult::Measurement(m));
    assert_eq!(stream.remaining(), 3);
}

#[test]
fn header_and_tail_checks() {
    assert!(check_header(&[0xF4, 0xF3, 0xF2, 0xF1]));
    assert!(!check_header(&[0xF4, 0xF3, 0xF2]));
    assert!(!check_header(&[0xF4, 0xF3, 0xF2, 0xF1, 0x00]));
    assert!(!check_header(&[0xF8, 0xF7, 0xF6, 0xF5]));
    assert!(check_tail(&[0xF8, 0xF7, 0xF6, 0xF5]));
    assert!(!check_tail(&[0xF8, 0xF7, 0xF6, 0xF4]));
    assert!(!check_tail(&[]));
}

#[test]
fn reader_asks_for_four_two_length_four() {
    let state = ReaderState::start();
    assert_eq!(state.wanted(), 4);
    let state = match state.advance(ReadReply::Bytes(vec![0xF4, 0xF3, 0xF2, 0xF1])) {
        Step::Next(s) => s,
        Step::Done(r) => panic!("ended early: {:?}", r),
    };
    assert_eq!(state.wanted(), 2);
    let state = match state.advance(ReadReply::Bytes(vec![0x03, 0x01])) {
        Step::Next(s) => s,
        Step::Done(r) => panic!("ended early: {:?}", r),
    };
    assert_eq!(state.wanted(), 0x0103);
    let state = match state.advance(ReadReply::Bytes(vec![0xAB; 0x0103])) {
        Step::Next(s) => s,
        Step::Done(r) => panic!("ended early: {:?}", r),
    };
    assert_eq!(state.wanted(), 4);
    match state.advance(ReadReply::Bytes(vec![0xF8, 0xF7, 0xF6, 0xF5])) {
        Step::Done(Ok(payload)) => assert_eq!(payload, vec![0xAB; 0x0103]),
        other => panic!("unexpected: {:?}", other),
    }
}

#[test]
fn reader_ends_on_a_failed_read_in_every_state() {
    let done = |step: Step| match step {
        Step::Done(r) => r,
        Step::Next(s) => panic!("went on: {:?}", s),
    };
    assert_eq!(
        done(ReaderState::Header.advance(ReadReply::Failed)),
        Err(FrameError::HeaderRead)
    );
    assert_eq!(
        done(ReaderState::Header.advance(ReadReply::Bytes(vec![0xF4, 0xF3, 0xF2]))),
        Err(FrameError::HeaderRead)
    );
    assert_eq!(
        done(ReaderState::Length.advance(ReadReply::Failed)),
        Err(FrameError::LengthRead)
    );
    assert_eq!(
        done(ReaderState::Length.advance(ReadReply::Bytes(vec![0x0E]))),
        Err(FrameError::LengthRead)
    );
    assert_eq!(
        done(ReaderState::Payload { length: 14 }.advance(ReadReply::Failed)),
        Err(FrameError::PayloadRead { expected: 14, got: 0 })
    );
    assert_eq!(
        done(ReaderState::Payload { length: 14 }.advance(ReadReply::Bytes(vec![1, 2, 3]))),
        Err(FrameError::PayloadRead { expected: 14, got: 3 })
    );
    assert_eq!(
        done(ReaderState::Trailer { payload: vec![1] }.advance(ReadReply::Failed)),
        Err(FrameError::TrailerRead)
    );
    assert_eq!(
        done(ReaderState::Trailer { payload: vec![1] }
            .advance(ReadReply::Bytes(vec![0xF8, 0xF7, 0xF6, 0xF4]))),
        Err(FrameError::BadTrailer)
    );
    assert_eq!(
        done(ReaderState::Header.advance(ReadReply::Bytes(vec![0xF4, 0xF3, 0xF2, 0xF0]))),
        Err(FrameError::BadHeader)
    );
}

#[test]
fn classify_passes_frame_errors_on() {
    assert_eq!(
        classify(Err(FrameError::LengthRead)),
        DecodeResult::FrameError(FrameError::LengthRead)
    );
    assert_eq!(
        classify(Ok(vec![0x02])),
        DecodeResult::RecordError(RecordError::UnrecognizedShape)
    );
}

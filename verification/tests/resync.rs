use ffsim::buffered_control_data::BufferedControlData;
use ffsim::comm::{shift, FeedOutcome, ResyncBuffer};
use ffsim::control_data::ControlData;

/// Build a well-formed 20-byte control frame with the given field values.
fn frame_bytes(rudder: u16, left: u16, right: u16, elevator: u16, throttle: u16) -> Vec<u8> {
    let mut v: Vec<u8> = vec![0x53, 0x59, 0x4E, 0x43];
    for f in [rudder, left, right, elevator, throttle, 0u16] {
        v.push((f % 256) as u8);
        v.push((f / 256) as u8);
    }
    let sum: u32 = v[4..16].iter().fold(0u32, |a, b| a.wrapping_add(*b as u32));
    let ck: u32 = !sum;
    v.extend_from_slice(&[
        (ck % 256) as u8,
        ((ck / 256) % 256) as u8,
        ((ck / 0x1_0000) % 256) as u8,
        (ck / 0x100_0000) as u8,
    ]);
    v
}

/// Run the resynchronizer over a whole stream, reading exactly the number
/// of bytes it asks for each time, and collect the emitted frames.
fn run_stream(stream: &[u8]) -> Vec<ControlData> {
    let mut rb = ResyncBuffer::new();
    let mut pos = 0usize;
    let mut frames = Vec::new();
    loop {
        let need = rb.needed();
        if stream.len() - pos < need {
            break;
        }
        let chunk = &stream[pos..pos + need];
        pos += need;
        if let FeedOutcome::Frame(cd) = rb.feed(chunk) {
            frames.push(cd);
        }
    }
    frames
}

#[test]
fn aligned_valid_frame_is_emitted() {
    let bytes = frame_bytes(1024, 2, 3, 4, 2047);
    let mut rb = ResyncBuffer::new();
    assert_eq!(rb.needed(), 20);
    match rb.feed(&bytes) {
        FeedOutcome::Frame(cd) => {
            assert_eq!(cd.rudder, 1024);
            assert_eq!(cd.throttle, 2047);
        }
        other => panic!("expected a frame, got {:?}", other),
    }
    assert_eq!(rb.needed(), 20);
}

#[test]
fn receive_loop_end_to_end_values() {
    // A valid frame with rudder=1024 decodes to 7 millidegrees (about
    // 0.0073 degrees, near zero) and throttle=2047 to full scale.
    let bytes = frame_bytes(1024, 0, 0, 0, 2047);
    let frames = run_stream(&bytes);
    assert_eq!(frames.len(), 1);
    let sample = BufferedControlData::from_external(frames[0], 1);
    assert_eq!(sample.rudder, 7);
    assert_eq!(sample.throttle, 1000);
}

#[test]
fn one_frame_in_noise_is_recovered_at_every_offset() {
    let frame = frame_bytes(5, 6, 7, 8, 9);
    for offset in 0..40usize {
        let mut stream: Vec<u8> = vec![0x11; offset];
        stream.extend_from_slice(&frame);
        stream.extend_from_slice(&vec![0x22; 37]);
        let frames = run_stream(&stream);
        assert_eq!(frames.len(), 1, "offset {}", offset);
        assert_eq!(frames[0].to_bytes(), frame, "offset {}", offset);
    }
}

#[test]
fn checksum_failure_drops_frame_and_resets() {
    let mut bytes = frame_bytes(1, 2, 3, 4, 5);
    bytes[6] ^= 0x40;
    let mut rb = ResyncBuffer::new();
    match rb.feed(&bytes) {
        FeedOutcome::Invalid(_) => {}
        other => panic!("expected a dropped frame, got {:?}", other),
    }
    assert_eq!(rb.needed(), 20);
}

#[test]
fn partial_marker_at_tail_is_carried_over() {
    let frame = frame_bytes(11, 12, 13, 14, 15);
    let mut first: Vec<u8> = vec![0x33; 17];
    first.extend_from_slice(&frame[..3]);
    let mut rb = ResyncBuffer::new();
    assert!(matches!(rb.feed(&first), FeedOutcome::NoFrame));
    assert_eq!(rb.needed(), 17);
    match rb.feed(&frame[3..]) {
        FeedOutcome::Frame(cd) => assert_eq!(cd.to_bytes(), frame),
        other => panic!("expected the completed frame, got {:?}", other),
    }
}

#[test]
fn marker_inside_window_shifts_to_front() {
    let frame = frame_bytes(21, 22, 23, 24, 25);
    let mut first: Vec<u8> = vec![0x44; 8];
    first.extend_from_slice(&frame[..12]);
    let mut rb = ResyncBuffer::new();
    assert!(matches!(rb.feed(&first), FeedOutcome::NoFrame));
    assert_eq!(rb.needed(), 8);
    match rb.feed(&frame[12..]) {
        FeedOutcome::Frame(cd) => assert_eq!(cd.to_bytes(), frame),
        other => panic!("expected the completed frame, got {:?}", other),
    }
}

#[test]
fn trailing_marker_prefixes_are_not_mistaken_for_frames() {
    let frame = frame_bytes(1, 2, 3, 4, 5);
    let mut stream: Vec<u8> = vec![0x10; 5];
    stream.extend_from_slice(&frame);
    // stray marker prefixes after the frame, but never the whole marker
    stream.extend_from_slice(b"xxSYNxxSYxxSxxxxSxxNxYxxSYNxxxxxxxxxxxxxxxxx");
    let frames = run_stream(&stream);
    assert_eq!(frames.len(), 1);
    assert_eq!(frames[0].to_bytes(), frame);
}

#[test]
fn pure_noise_emits_nothing() {
    let stream: Vec<u8> = (0u16..200).map(|i| (i % 0x50) as u8).collect();
    assert!(run_stream(&stream).is_empty());
}

#[test]
fn shift_moves_suffix_to_front_and_keeps_order() {
    let mut v: Vec<u32> = vec![10, 11, 12, 13, 14];
    shift(&mut v, 2);
    assert_eq!(v, vec![12, 13, 14, 13, 14]);
    let mut w: Vec<u32> = vec![1, 2, 3];
    shift(&mut w, 0);
    assert_eq!(w, vec![1, 2, 3]);
    let mut z: Vec<u32> = vec![1, 2, 3];
    shift(&mut z, 3);
    assert_eq!(z, vec![1, 2, 3]);
}

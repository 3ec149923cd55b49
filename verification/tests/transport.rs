use ffsim::comm::{
    control_exchange, recv_process, send_fetch_bytes, telemetry_exchange, FeedOutcome,
    ResyncBuffer,
};
use ffsim::exchange::exchange_read;
use ffsim::exchange::exchange_write;
use ffsim::flight_data::{FlightData, FLIGHT_DATA_SIZE};

/// Build a well-formed 20-byte control frame with the given field values.
fn frame_bytes(rudder: u16, left: u16, right: u16, elevator: u16, throttle: u16) -> Vec<u8> {
    let mut v: Vec<u8> = vec![0x53, 0x59, 0x4E, 0x43];
    for f in [rudder, left, right, elevator, throttle, 0u16] {
        v.push((f % 256) as u8);
        v.push((f / 256) as u8);
    }
    let sum: u32 = v[4..16].iter().fold(0u32, |a, b| a.wrapping_add(*b as u32));
    let ck: u32 = !sum;
    v.extend_from_slice(&[
        (ck % 256) as u8,
        ((ck / 256) % 256) as u8,
        ((ck / 0x1_0000) % 256) as u8,
        (ck / 0x100_0000) as u8,
    ]);
    v
}

#[test]
fn recv_step_publishes_the_decoded_sample() {
    let (mut to_driver, mut from_loop) = control_exchange();
    let mut rb = ResyncBuffer::new();
    let bytes = frame_bytes(1024, 0, 0, 0, 2047);
    match recv_process(&mut rb, &bytes, 77, &mut to_driver) {
        FeedOutcome::Frame(cd) => assert_eq!(cd.rudder, 1024),
        other => panic!("expected a frame, got {:?}", other),
    }
    let sample = exchange_read(&mut from_loop);
    assert_eq!(sample.time_ns, 77);
    assert_eq!(sample.rudder, 7);
    assert_eq!(sample.throttle, 1000);
}

#[test]
fn recv_step_does_not_publish_dropped_frames() {
    let (mut to_driver, mut from_loop) = control_exchange();
    let mut rb = ResyncBuffer::new();
    let mut bytes = frame_bytes(9, 9, 9, 9, 9);
    bytes[5] ^= 0x20;
    assert!(matches!(
        recv_process(&mut rb, &bytes, 99, &mut to_driver),
        FeedOutcome::Invalid(_)
    ));
    let sample = exchange_read(&mut from_loop);
    assert_eq!(sample.time_ns, 0, "only the seed is visible");
}

#[test]
fn send_step_serializes_the_latest_frame() {
    let (mut from_driver, mut to_loop) = telemetry_exchange();
    let frame = FlightData::new(-1, 2, -3, 4, -5, 6, -7, 8, -9, 10, 11, 12, 4321, -8765);
    exchange_write(&mut from_driver, frame);
    let bytes = send_fetch_bytes(&mut to_loop);
    assert_eq!(bytes.len(), FLIGHT_DATA_SIZE);
    assert_eq!(bytes, frame.to_bytes());
}

#[test]
fn send_step_before_any_write_serializes_the_seed() {
    let (_from_driver, mut to_loop) = telemetry_exchange();
    let bytes = send_fetch_bytes(&mut to_loop);
    assert_eq!(bytes.len(), FLIGHT_DATA_SIZE);
    assert_eq!(&bytes[0..2], &[0, 0]);
}

use ffsim::buffered_control_data::BufferedControlData;
use ffsim::exchange::{exchange_new, exchange_read, exchange_write};
use ffsim::flight_data::FlightData;

fn sample(time_ns: u64) -> BufferedControlData {
    let mut s = BufferedControlData::new();
    s.time_ns = time_ns;
    s.rudder = time_ns as i32;
    s
}

#[test]
fn reader_before_any_write_sees_seed() {
    let seed = BufferedControlData::new();
    let (_input, mut output) = exchange_new(&seed);
    let got = exchange_read(&mut output);
    assert_eq!(got.time_ns, 0);
    assert_eq!(got.rudder, 0);
}

#[test]
fn reader_after_n_writes_sees_exactly_the_nth() {
    let (mut input, mut output) = exchange_new(&BufferedControlData::new());
    for i in 1..=25u64 {
        exchange_write(&mut input, sample(i));
    }
    let got = exchange_read(&mut output);
    assert_eq!(got.time_ns, 25);
    assert_eq!(got.rudder, 25);
}

#[test]
fn each_read_sees_the_latest_complete_write() {
    let (mut input, mut output) = exchange_new(&BufferedControlData::new());
    exchange_write(&mut input, sample(7));
    let first = exchange_read(&mut output);
    assert_eq!(first.time_ns, 7);
    exchange_write(&mut input, sample(8));
    let second = exchange_read(&mut output);
    assert_eq!(second.time_ns, 8);
    // nothing new written: the reader keeps seeing the last value
    let third = exchange_read(&mut output);
    assert_eq!(third.time_ns, 8);
}

#[test]
fn telemetry_direction_carries_whole_frames() {
    let seed = FlightData::new(0, 0, 0, 0, 0, 0, 0, 0, 0, 0, 0, 0, 0, 0);
    let (mut input, mut output) = exchange_new(&seed);
    let frame = FlightData::new(-2, 3, -4, 5, -6, 7, -8, 9, -10, 11, 12, 13, 1234, -5678);
    exchange_write(&mut input, frame);
    let got = exchange_read(&mut output);
    assert_eq!(got.roll_rate, -2);
    assert_eq!(got.barometer, 12);
    assert_eq!(got.to_bytes(), frame.to_bytes());
}

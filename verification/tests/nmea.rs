use ffsim::comm::{next_connection_state, ConnectionState, LinkEvent};
use ffsim::flight_data::{conv_to_nmea, FlightData, FLIGHT_DATA_SIZE};

#[test]
fn known_sentence_with_checksum() {
    // latitude 12.34, longitude -56.78
    let field = conv_to_nmea(1234, -5678);
    let expected = b"$GLGLL,12.34,N,56.78,W*5D\r\n";
    assert_eq!(&field[..expected.len()], expected);
    for &b in &field[expected.len()..] {
        assert_eq!(b, 0, "the sentence is zero-padded to the fixed field");
    }
}

#[test]
fn hemispheres_follow_the_signs() {
    let field = conv_to_nmea(-1234, 5678);
    let expected = b"$GLGLL,12.34,S,56.78,E*";
    assert_eq!(&field[..expected.len()], expected);
}

#[test]
fn fractional_digits_are_zero_padded() {
    let field = conv_to_nmea(500, 9);
    let expected = b"$GLGLL,5.00,N,0.09,E*";
    assert_eq!(&field[..expected.len()], expected);
}

#[test]
fn telemetry_frame_serializes_little_endian() {
    let fd = FlightData::new(-2, 1, 0, 300, -300, 32767, -32768, 5, 6, 25 * 256, 0x00C0FFEE, 9, 0, 0);
    let bytes = fd.to_bytes();
    assert_eq!(bytes.len(), FLIGHT_DATA_SIZE);
    assert_eq!(&bytes[0..2], &[0xFE, 0xFF]); // roll_rate -2
    assert_eq!(&bytes[2..4], &[0x01, 0x00]); // pitch_rate 1
    assert_eq!(&bytes[6..8], &[0x2C, 0x01]); // lin_acc_x 300
    assert_eq!(&bytes[12..14], &[0x00, 0x80]); // mag_x -32768
    assert_eq!(&bytes[20..24], &[0xEE, 0xFF, 0xC0, 0x00]); // barometer
    assert_eq!(&bytes[24..26], &[0x09, 0x00]); // airspeed pressure
    assert_eq!(bytes[26], b'$'); // the NMEA field closes the frame
}

#[test]
fn transfer_failure_drops_the_connection() {
    let s = next_connection_state(ConnectionState::Connected, LinkEvent::TransferFailed);
    assert_eq!(s, ConnectionState::Disconnected);
    let s = next_connection_state(s, LinkEvent::ConnectFailed);
    assert_eq!(s, ConnectionState::Disconnected);
    let s = next_connection_state(s, LinkEvent::ConnectSucceeded);
    assert_eq!(s, ConnectionState::Connected);
    let s = next_connection_state(s, LinkEvent::TransferSucceeded);
    assert_eq!(s, ConnectionState::Connected);
}

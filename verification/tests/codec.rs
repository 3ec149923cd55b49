use ffsim::control_data::{ControlData, VerifyError, CONTROL_DATA_SIZE};

/// Build a well-formed 20-byte control frame with the given field values.
fn frame_bytes(rudder: u16, left: u16, right: u16, elevator: u16, throttle: u16) -> Vec<u8> {
    let mut v: Vec<u8> = vec![0x53, 0x59, 0x4E, 0x43];
    for f in [rudder, left, right, elevator, throttle, 0u16] {
        v.push((f % 256) as u8);
        v.push((f / 256) as u8);
    }
    let sum: u32 = v[4..16].iter().fold(0u32, |a, b| a.wrapping_add(*b as u32));
    let ck: u32 = !sum;
    v.push((ck % 256) as u8);
    v.push(((ck / 256) % 256) as u8);
    v.push(((ck / 0x1_0000) % 256) as u8);
    v.push((ck / 0x100_0000) as u8);
    v
}

#[test]
fn verify_accepts_valid_frame() {
    let bytes = frame_bytes(1024, 512, 256, 128, 2047);
    assert_eq!(bytes.len(), CONTROL_DATA_SIZE);
    let cd = ControlData::from_bytes(&bytes);
    assert_eq!(cd.rudder, 1024);
    assert_eq!(cd.left_aileron, 512);
    assert_eq!(cd.right_aileron, 256);
    assert_eq!(cd.elevator, 128);
    assert_eq!(cd.throttle, 2047);
    assert!(cd.verify());
}

#[test]
fn decode_then_encode_is_identity() {
    let bytes = frame_bytes(7, 0, 2047, 1000, 3);
    let cd = ControlData::from_bytes(&bytes);
    assert_eq!(cd.to_bytes(), bytes);
}

#[test]
fn verify_rejects_any_sync_byte_mutation() {
    for i in 0..4 {
        let mut bytes = frame_bytes(1024, 512, 256, 128, 2047);
        bytes[i] ^= 0xFF;
        let cd = ControlData::from_bytes(&bytes);
        assert!(!cd.verify(), "mutation of sync byte {} must be rejected", i);
    }
}

#[test]
fn verify_rejects_any_checksum_byte_mutation() {
    for i in 16..20 {
        let mut bytes = frame_bytes(1024, 512, 256, 128, 2047);
        bytes[i] ^= 0x01;
        let cd = ControlData::from_bytes(&bytes);
        assert!(!cd.verify(), "mutation of checksum byte {} must be rejected", i);
    }
}

#[test]
fn verify_detail_distinguishes_both_causes() {
    let mut bytes = frame_bytes(1, 2, 3, 4, 5);
    bytes[0] = 0x54;
    let cd = ControlData::from_bytes(&bytes);
    match cd.verify_detail() {
        Err(VerifyError::BadSync { found }) => assert_eq!(found, [0x54, 0x59, 0x4E, 0x43]),
        other => panic!("expected a sync diagnostic, got {:?}", other),
    }

    let mut bytes = frame_bytes(1, 2, 3, 4, 5);
    bytes[16] ^= 0xA5;
    let stored = u32::from_le_bytes([bytes[16], bytes[17], bytes[18], bytes[19]]);
    let cd = ControlData::from_bytes(&bytes);
    match cd.verify_detail() {
        Err(VerifyError::BadChecksum { expected, got }) => {
            assert_eq!(got, stored);
            let sum: u32 = bytes[4..16].iter().fold(0u32, |a, b| a.wrapping_add(*b as u32));
            assert_eq!(expected, !sum);
        }
        other => panic!("expected a checksum diagnostic, got {:?}", other),
    }
}

#[test]
fn checksum_uses_wrapping_sum_complement() {
    // rudder=1024, left=512, right=256, elevator=128, throttle=2047:
    // payload byte sum 397, so the stored checksum is !397.
    let bytes = frame_bytes(1024, 512, 256, 128, 2047);
    let stored = u32::from_le_bytes([bytes[16], bytes[17], bytes[18], bytes[19]]);
    assert_eq!(stored, 0xFFFF_FE72);
}

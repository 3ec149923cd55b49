//! The control-direction wire frame: a 20-byte record carrying five 11-bit
//! control fields behind a 4-byte sync marker, protected by a one's-complement
//! checksum of the 12 payload bytes.

use vstd::prelude::*;

verus! {

/// Size of a control frame on the wire, in bytes.
pub const CONTROL_DATA_SIZE: usize = 20;

/// The 4-byte ASCII sync marker "SYNC" that opens every control frame.
pub open spec fn sync_marker() -> Seq<u8> {
    seq![0x53u8, 0x59u8, 0x4Eu8, 0x43u8]
}

/// Sum of a byte sequence as an unbounded integer.
pub open spec fn sum_bytes(s: Seq<u8>) -> nat
    decreases s.len(),
{
    if s.len() == 0 {
        0
    } else {
        (sum_bytes(s.drop_last()) + s.last()) as nat
    }
}

/// The checksum law: one's complement of the wrapping 32-bit sum of the
/// payload bytes.  Addition of bytes wraps modulo 2^32, and the final value
/// has all bits flipped.
pub open spec fn checksum_of(payload: Seq<u8>) -> u32 {
    (0xFFFF_FFFF - (sum_bytes(payload) % 0x1_0000_0000)) as u32
}

/// A control frame, field by field.  The five control fields carry 11
/// significant bits each; the 5 high bits of each 16-bit slot are reserved
/// as zero by the sender, though nothing on the receive path relies on it.
#[derive(Copy, Clone, Debug)]
pub struct ControlData {
    /// The ASCII bytes "SYNC" on a well-formed frame.
    pub sync: [u8; 4],
    /// Rudder deflection, 11-bit unsigned; 0 is full deflection one way.
    pub rudder: u16,
    /// Left aileron deflection, 11-bit unsigned.
    pub left_aileron: u16,
    /// Right aileron deflection, 11-bit unsigned.
    pub right_aileron: u16,
    /// Elevator deflection, 11-bit unsigned.
    pub elevator: u16,
    /// Throttle setting, 11-bit unsigned.
    pub throttle: u16,
    /// Reserved; zero on a well-formed frame but not checked.
    pub pad: u16,
    /// One's complement of the wrapping byte sum of the payload.
    pub checksum: u32,
}

/// Little-endian bytes of a 16-bit value.
pub open spec fn u16_le(x: u16) -> Seq<u8> {
    seq![(x % 256) as u8, (x / 256) as u8]
}

/// Little-endian bytes of a 32-bit value.
pub open spec fn u32_le(x: u32) -> Seq<u8> {
    seq![
        (x % 256) as u8,
        ((x / 256) % 256) as u8,
        ((x / 0x1_0000) % 256) as u8,
        ((x / 0x100_0000) % 256) as u8,
    ]
}

/// The 16-bit value read back from two little-endian bytes.
pub open spec fn u16_of_le(lo: u8, hi: u8) -> u16 {
    (lo + hi * 256) as u16
}

/// The 32-bit value read back from four little-endian bytes.
pub open spec fn u32_of_le(b0: u8, b1: u8, b2: u8, b3: u8) -> u32 {
    (b0 + b1 * 256 + b2 * 0x1_0000 + b3 * 0x100_0000) as u32
}

/// The exact wire image of a frame: sync marker, five fields, padding and
/// checksum, all multi-byte values little-endian.
pub open spec fn control_bytes(f: ControlData) -> Seq<u8> {
    f.sync@ + u16_le(f.rudder) + u16_le(f.left_aileron) + u16_le(f.right_aileron) + u16_le(
        f.elevator,
    ) + u16_le(f.throttle) + u16_le(f.pad) + u32_le(f.checksum)
}

/// The payload covered by the checksum: the 12 bytes between the sync marker
/// and the checksum field.
pub open spec fn payload_of(f: ControlData) -> Seq<u8> {
    control_bytes(f).subrange(4, 16)
}

/// A frame is valid when its sync marker is the literal "SYNC" and its stored
/// checksum equals the checksum of its payload.
pub open spec fn frame_valid(f: ControlData) -> bool {
    &&& f.sync@ == sync_marker()
    &&& f.checksum == checksum_of(payload_of(f))
}

/// A 20-byte wire image is valid under the same two conditions, read off the
/// bytes themselves.
pub open spec fn valid_wire(s: Seq<u8>) -> bool {
    &&& s.len() == CONTROL_DATA_SIZE
    &&& s.subrange(0, 4) == sync_marker()
    &&& u32_of_le(s[16], s[17], s[18], s[19]) == checksum_of(s.subrange(4, 16))
}

/// Why a frame failed verification; both causes are reported separately.
#[derive(Copy, Clone, Debug)]
pub enum VerifyError {
    /// The first four bytes were not the sync marker; carries what they were.
    BadSync { found: [u8; 4] },
    /// The stored checksum did not match the computed one.
    BadChecksum { expected: u32, got: u32 },
}

/// Reading two little-endian bytes and writing them back is the identity.
proof fn lemma_u16_le_of(lo: u8, hi: u8)
    ensures
        u16_le(u16_of_le(lo, hi)) == seq![lo, hi],
{
    let x: int = lo + hi * 256;
    assert(x % 256 == lo && x / 256 == hi) by (nonlinear_arith)
        requires
            lo < 256,
            hi < 256,
            x == lo + hi * 256,
    ;
    assert(u16_le(u16_of_le(lo, hi)) =~= seq![lo, hi]);
}

/// Reading four little-endian bytes and writing them back is the identity.
proof fn lemma_u32_le_of(b0: u8, b1: u8, b2: u8, b3: u8)
    ensures
        u32_le(u32_of_le(b0, b1, b2, b3)) == seq![b0, b1, b2, b3],
{
    let x: int = b0 + b1 * 256 + b2 * 0x1_0000 + b3 * 0x100_0000;
    assert(x % 256 == b0 && (x / 256) % 256 == b1 && (x / 0x1_0000) % 256 == b2 && x
        / 0x100_0000 == b3) by (nonlinear_arith)
        requires
            b0 < 256,
            b1 < 256,
            b2 < 256,
            b3 < 256,
            x == b0 + b1 * 256 + b2 * 0x1_0000 + b3 * 0x100_0000,
    ;
    assert(u32_le(u32_of_le(b0, b1, b2, b3)) =~= seq![b0, b1, b2, b3]);
}

impl ControlData {
    /// Serialize the frame to its exact 20-byte wire image.
    pub fn to_bytes(&self) -> (r: Vec<u8>)
        ensures
            r@ == control_bytes(*self),
    {
        let mut v: Vec<u8> = Vec::new();
        v.push(self.sync[0]);
        v.push(self.sync[1]);
        v.push(self.sync[2]);
        v.push(self.sync[3]);
        v.push((self.rudder % 256) as u8);
        v.push((self.rudder / 256) as u8);
        v.push((self.left_aileron % 256) as u8);
        v.push((self.left_aileron / 256) as u8);
        v.push((self.right_aileron % 256) as u8);
        v.push((self.right_aileron / 256) as u8);
        v.push((self.elevator % 256) as u8);
        v.push((self.elevator / 256) as u8);
        v.push((self.throttle % 256) as u8);
        v.push((self.throttle / 256) as u8);
        v.push((self.pad % 256) as u8);
        v.push((self.pad / 256) as u8);
        v.push((self.checksum % 256) as u8);
        v.push(((self.checksum / 256) % 256) as u8);
        v.push(((self.checksum / 0x1_0000) % 256) as u8);
        v.push((self.checksum / 0x100_0000) as u8);
        proof {
            assert(self.checksum / 0x100_0000 < 256);
            assert(v@ =~= control_bytes(*self));
        }
        v
    }

    /// Reinterpret a 20-byte image as a frame.  Always succeeds structurally;
    /// validity is a separate question answered by `verify`.
    pub fn from_bytes(b: &[u8]) -> (r: ControlData)
        requires
            b@.len() == CONTROL_DATA_SIZE,
        ensures
            control_bytes(r) == b@,
            r.rudder == u16_of_le(b@[4], b@[5]),
            r.left_aileron == u16_of_le(b@[6], b@[7]),
            r.right_aileron == u16_of_le(b@[8], b@[9]),
            r.elevator == u16_of_le(b@[10], b@[11]),
            r.throttle == u16_of_le(b@[12], b@[13]),
            r.checksum == u32_of_le(b@[16], b@[17], b@[18], b@[19]),
    {
        let r = ControlData {
            sync: [b[0], b[1], b[2], b[3]],
            rudder: b[4] as u16 + (b[5] as u16) * 256,
            left_aileron: b[6] as u16 + (b[7] as u16) * 256,
            right_aileron: b[8] as u16 + (b[9] as u16) * 256,
            elevator: b[10] as u16 + (b[11] as u16) * 256,
            throttle: b[12] as u16 + (b[13] as u16) * 256,
            pad: b[14] as u16 + (b[15] as u16) * 256,
            checksum: b[16] as u32 + (b[17] as u32) * 256 + (b[18] as u32) * 0x1_0000 + (
            b[19] as u32) * 0x100_0000,
        };
        proof {
            lemma_u16_le_of(b@[4], b@[5]);
            lemma_u16_le_of(b@[6], b@[7]);
            lemma_u16_le_of(b@[8], b@[9]);
            lemma_u16_le_of(b@[10], b@[11]);
            lemma_u16_le_of(b@[12], b@[13]);
            lemma_u16_le_of(b@[14], b@[15]);
            lemma_u32_le_of(b@[16], b@[17], b@[18], b@[19]);
            assert(control_bytes(r) =~= b@);
        }
        r
    }

    /// Check the sync marker and the checksum, reporting which of the two
    /// failed and with what values, as the link's diagnostics need.
    pub fn verify_detail(&self) -> (r: Result<(), VerifyError>)
        ensures
            r is Ok <==> frame_valid(*self),
            match r {
                Ok(()) => frame_valid(*self),
                Err(VerifyError::BadSync { found }) => found@ == self.sync@ && self.sync@
                    != sync_marker(),
                Err(VerifyError::BadChecksum { expected, got }) => self.sync@ == sync_marker()
                    && expected == checksum_of(payload_of(*self)) && got == self.checksum
                    && expected != got,
            },
    {
        let bytes = self.to_bytes();
        if !(bytes[0] == 0x53 && bytes[1] == 0x59 && bytes[2] == 0x4E && bytes[3] == 0x43) {
            proof {
                assert(self.sync@ =~= control_bytes(*self).subrange(0, 4));
                assert(self.sync@ != sync_marker());
            }
            return Err(VerifyError::BadSync { found: self.sync });
        }
        proof {
            assert(self.sync@ =~= control_bytes(*self).subrange(0, 4));
            assert(self.sync@ =~= sync_marker());
        }
        let mut sum: u32 = 0;
        let mut i: usize = 4;
        while i < 16
            invariant
                4 <= i <= 16,
                bytes@ == control_bytes(*self),
                bytes@.len() == CONTROL_DATA_SIZE,
                sum == sum_bytes(bytes@.subrange(4, i as int)),
                sum <= 255 * (i - 4),
            decreases 16 - i,
        {
            proof {
                assert(bytes@.subrange(4, i + 1).drop_last() =~= bytes@.subrange(4, i as int));
                assert(bytes@.subrange(4, i + 1).last() == bytes@[i as int]);
            }
            sum = sum + bytes[i] as u32;
            i = i + 1;
        }
        proof {
            assert(bytes@.subrange(4, 16) == payload_of(*self));
            vstd::arithmetic::div_mod::lemma_small_mod(sum as nat, 0x1_0000_0000);
        }
        let expected: u32 = !sum;
        proof {
            assert(!sum == (0xFFFF_FFFFu32 - sum) as u32) by (bit_vector);
        }
        if expected != self.checksum {
            return Err(VerifyError::BadChecksum { expected, got: self.checksum });
        }
        Ok(())
    }

    /// True exactly when the frame is valid: sync marker present and
    /// checksum matching.
    pub fn verify(&self) -> (r: bool)
        ensures
            r == frame_valid(*self),
    {
        self.verify_detail().is_ok()
    }
}

/// A frame is valid exactly when its wire image is: serialization preserves
/// the sync marker, the payload and the stored checksum.
pub proof fn lemma_frame_valid_wire(f: ControlData)
    ensures
        frame_valid(f) <==> valid_wire(control_bytes(f)),
{
    let s = control_bytes(f);
    let x = f.checksum;
    assert(s.subrange(0, 4) =~= f.sync@);
    assert(s.subrange(4, 16) =~= payload_of(f));
    assert(x % 256 + ((x / 256) % 256) * 256 + ((x / 0x1_0000) % 256) * 0x1_0000 + (x
        / 0x100_0000) * 0x100_0000 == x) by (bit_vector);
}

/// `verify` accepts no frame whose sync marker was corrupted in any one
/// byte, and none whose stored checksum was corrupted in any one byte:
/// if `b` is a valid wire image and `c` agrees with `b` everywhere except
/// one position inside the sync marker or the checksum field, then `c` is
/// not valid.
pub proof fn lemma_verify_rejects_byte_corruption(b: Seq<u8>, c: Seq<u8>, i: int)
    requires
        valid_wire(b),
        c.len() == CONTROL_DATA_SIZE,
        0 <= i < CONTROL_DATA_SIZE,
        i < 4 || 16 <= i,
        c[i] != b[i],
        forall|j: int| 0 <= j < CONTROL_DATA_SIZE && j != i ==> c[j] == b[j],
    ensures
        !valid_wire(c),
{
    if i < 4 {
        assert(b.subrange(0, 4)[i] == sync_marker()[i]);
        if c.subrange(0, 4) == sync_marker() {
            assert(c.subrange(0, 4)[i] == c[i]);
        }
    } else {
        assert(c.subrange(4, 16) =~= b.subrange(4, 16));
        assert(u32_of_le(c[16], c[17], c[18], c[19]) != u32_of_le(b[16], b[17], b[18], b[19])) by {
            let vb: int = b[16] + b[17] * 256 + b[18] * 0x1_0000 + b[19] * 0x100_0000;
            let vc: int = c[16] + c[17] * 256 + c[18] * 0x1_0000 + c[19] * 0x100_0000;
            assert(vb < 0x1_0000_0000 && vc < 0x1_0000_0000);
            assert(vb != vc);
        }
    }
}

} // verus!

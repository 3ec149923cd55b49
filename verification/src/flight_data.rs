//! The telemetry wire frame: integer sensor fields in the units of the
//! target hardware, closed by an 82-byte NMEA GLL position sentence, and its
//! fixed little-endian serialization.
//!
//! The frame holds wire-ready integer values; the floating-point
//! physical-unit conversions that produce them belong to the host side of
//! the link, outside the library.  Latitude and longitude enter here as
//! hundredths of a degree, which is exactly the precision the sentence
//! carries.

use vstd::prelude::*;

use crate::control_data::u16_le;
use crate::control_data::u32_le;

verus! {

/// Size of a telemetry frame on the wire, in bytes.
pub const FLIGHT_DATA_SIZE: usize = 108;

/// Size of the fixed NMEA sentence buffer that ends the frame.
pub const GPS_FIELD_SIZE: usize = 82;

/// Decimal digits of `n`, most significant first, as ASCII bytes.
pub open spec fn dec_digits(n: nat) -> Seq<u8>
    decreases n,
{
    if n < 10 {
        seq![(0x30 + n) as u8]
    } else {
        dec_digits(n / 10).push((0x30 + n % 10) as u8)
    }
}

/// A magnitude in hundredths, printed with exactly two decimal places, as
/// `format!("{:.2}", v / 100.0)` prints it.
pub open spec fn centi_digits(v: nat) -> Seq<u8> {
    dec_digits(v / 100) + seq![0x2Eu8, (0x30 + (v / 10) % 10) as u8, (0x30 + v % 10) as u8]
}

/// XOR of all bytes of a sequence; the NMEA checksum law.
pub open spec fn xor_bytes(s: Seq<u8>) -> u8
    decreases s.len(),
{
    if s.len() == 0 {
        0
    } else {
        xor_bytes(s.drop_last()) ^ s.last()
    }
}

/// Uppercase ASCII hexadecimal digit for a value below 16.
pub open spec fn hex_digit(n: nat) -> u8 {
    if n < 10 {
        (0x30 + n) as u8
    } else {
        (0x41 + (n - 10)) as u8
    }
}

/// The checksummed span of the sentence, between `$` and `*`:
/// `GLGLL,<|lat|:.2f>,<N|S>,<|long|:.2f>,<E|W>`, with coordinates given in
/// hundredths of a degree.
pub open spec fn nmea_body(lat_centi: int, long_centi: int) -> Seq<u8> {
    seq![0x47u8, 0x4Cu8, 0x47u8, 0x4Cu8, 0x4Cu8, 0x2Cu8] + centi_digits(
        (if lat_centi >= 0 {
            lat_centi
        } else {
            -lat_centi
        }) as nat,
    ) + seq![0x2Cu8] + (if lat_centi >= 0 {
        seq![0x4Eu8]
    } else {
        seq![0x53u8]
    }) + seq![0x2Cu8] + centi_digits(
        (if long_centi >= 0 {
            long_centi
        } else {
            -long_centi
        }) as nat,
    ) + seq![0x2Cu8] + (if long_centi >= 0 {
        seq![0x45u8]
    } else {
        seq![0x57u8]
    })
}

/// The whole sentence: `$`, the body, `*`, the body's XOR checksum as two
/// uppercase hexadecimal digits, and CRLF.
pub open spec fn nmea_sentence(lat_centi: int, long_centi: int) -> Seq<u8> {
    let body = nmea_body(lat_centi, long_centi);
    let ck = xor_bytes(body);
    seq![0x24u8] + body + seq![0x2Au8, hex_digit(ck as nat / 16), hex_digit(ck as nat % 16), 0x0Du8, 0x0Au8]
}

/// The sentence right-padded with zero bytes to the fixed wire field.
pub open spec fn nmea_field(lat_centi: int, long_centi: int) -> Seq<u8> {
    let s = nmea_sentence(lat_centi, long_centi);
    s + Seq::new((GPS_FIELD_SIZE - s.len()) as nat, |i: int| 0u8)
}

/// Little-endian bytes of a 16-bit signed value, two's complement.
pub open spec fn i16_le(x: i16) -> Seq<u8> {
    u16_le(x as u16)
}

/// A telemetry frame, field by field, in wire units.
#[derive(Copy, Clone, Debug)]
pub struct FlightData {
    /// Roll rate, milli-degrees-per-second units of the rate gyro.
    pub roll_rate: i16,
    /// Pitch rate, same units.
    pub pitch_rate: i16,
    /// Yaw rate, same units.
    pub yaw_rate: i16,
    /// Body-relative linear acceleration, accelerometer LSB units.
    pub lin_acc_x: i16,
    /// Same, y axis.
    pub lin_acc_y: i16,
    /// Same, z axis.
    pub lin_acc_z: i16,
    /// Magnetic field vector, magnetometer LSB units.
    pub mag_x: i16,
    /// Same, y axis.
    pub mag_y: i16,
    /// Same, z axis.
    pub mag_z: i16,
    /// Ambient temperature, 256 LSB per degree Celsius.
    pub temp: i16,
    /// Barometric pressure, 4096 LSB per hPa, 24 significant bits.
    pub barometer: u32,
    /// Differential airspeed pressure, 240 Pa per LSB.
    pub airspeed_pressure: i16,
    /// GPS position as a fixed-size NMEA GLL sentence buffer, zero-padded.
    pub gps: [u8; 82],
}

/// The exact 108-byte wire image of a telemetry frame, all multi-byte
/// values little-endian, signed fields two's complement.
pub open spec fn flight_bytes(f: FlightData) -> Seq<u8> {
    i16_le(f.roll_rate) + i16_le(f.pitch_rate) + i16_le(f.yaw_rate) + i16_le(f.lin_acc_x) + i16_le(
        f.lin_acc_y,
    ) + i16_le(f.lin_acc_z) + i16_le(f.mag_x) + i16_le(f.mag_y) + i16_le(f.mag_z) + i16_le(f.temp)
        + u32_le(f.barometer) + i16_le(f.airspeed_pressure) + f.gps@
}

/// Number of digits `dec_digits` produces for small magnitudes.
proof fn lemma_dec_digits_len(n: nat)
    ensures
        dec_digits(n).len() >= 1,
        n < 10 ==> dec_digits(n).len() == 1,
        n < 100 ==> dec_digits(n).len() <= 2,
        n < 1000 ==> dec_digits(n).len() <= 3,
    decreases n,
{
    if n >= 10 {
        lemma_dec_digits_len(n / 10);
    }
}

/// Append the decimal digits of `n` to `v`.
fn push_decimal(v: &mut Vec<u8>, n: u64)
    ensures
        final(v)@ == old(v)@ + dec_digits(n as nat),
    decreases n,
{
    if n >= 10 {
        push_decimal(v, n / 10);
    }
    v.push(0x30 + (n % 10) as u8);
    proof {
        assert(v@ =~= old(v)@ + dec_digits(n as nat));
    }
}

/// Append a magnitude in hundredths with two decimal places.
fn push_centi(v: &mut Vec<u8>, c: u64)
    ensures
        final(v)@ == old(v)@ + centi_digits(c as nat),
{
    push_decimal(v, c / 100);
    v.push(0x2E);
    v.push(0x30 + ((c / 10) % 10) as u8);
    v.push(0x30 + (c % 10) as u8);
    proof {
        assert(v@ =~= old(v)@ + centi_digits(c as nat));
    }
}

/// Uppercase hexadecimal digit.
fn hex_digit_exec(n: u8) -> (r: u8)
    requires
        n < 16,
    ensures
        r == hex_digit(n as nat),
{
    if n < 10 {
        0x30 + n
    } else {
        0x41 + (n - 10)
    }
}

/// Build the checksummed span of the sentence.
fn build_nmea_body(lat_centi: i64, long_centi: i64) -> (body: Vec<u8>)
    requires
        -9000 <= lat_centi <= 9000,
        -18000 <= long_centi <= 18000,
    ensures
        body@ == nmea_body(lat_centi as int, long_centi as int),
        body@.len() <= 24,
{
    let mut body: Vec<u8> = Vec::new();
    body.push(0x47);
    body.push(0x4C);
    body.push(0x47);
    body.push(0x4C);
    body.push(0x4C);
    body.push(0x2C);
    let lat_abs: u64 = if lat_centi >= 0 {
        lat_centi as u64
    } else {
        (-lat_centi) as u64
    };
    push_centi(&mut body, lat_abs);
    body.push(0x2C);
    body.push(if lat_centi >= 0 { 0x4E } else { 0x53 });
    body.push(0x2C);
    let long_abs: u64 = if long_centi >= 0 {
        long_centi as u64
    } else {
        (-long_centi) as u64
    };
    push_centi(&mut body, long_abs);
    body.push(0x2C);
    body.push(if long_centi >= 0 { 0x45 } else { 0x57 });
    proof {
        assert(body@ =~= nmea_body(lat_centi as int, long_centi as int));
        lemma_dec_digits_len((lat_abs / 100) as nat);
        lemma_dec_digits_len((long_abs / 100) as nat);
    }
    body
}

/// Format latitude and longitude, given in hundredths of a degree, as a
/// GLL-type NMEA sentence in the frame's fixed 82-byte field.
pub fn conv_to_nmea(lat_centi: i64, long_centi: i64) -> (r: [u8; 82])
    requires
        -9000 <= lat_centi <= 9000,
        -18000 <= long_centi <= 18000,
    ensures
        r@ == nmea_field(lat_centi as int, long_centi as int),
{
    let body = build_nmea_body(lat_centi, long_centi);
    let mut ck: u8 = 0;
    let mut i: usize = 0;
    while i < body.len()
        invariant
            i <= body@.len(),
            ck == xor_bytes(body@.subrange(0, i as int)),
        decreases body@.len() - i,
    {
        proof {
            assert(body@.subrange(0, i + 1).drop_last() =~= body@.subrange(0, i as int));
            assert(body@.subrange(0, i + 1).last() == body@[i as int]);
        }
        ck = ck ^ body[i];
        i = i + 1;
    }
    proof {
        assert(body@.subrange(0, body@.len() as int) =~= body@);
    }
    let mut s: Vec<u8> = Vec::new();
    s.push(0x24);
    let mut j: usize = 0;
    while j < body.len()
        invariant
            j <= body@.len(),
            s@ == seq![0x24u8] + body@.subrange(0, j as int),
        decreases body@.len() - j,
    {
        s.push(body[j]);
        proof {
            assert(seq![0x24u8] + body@.subrange(0, j + 1) =~= (seq![0x24u8] + body@.subrange(
                0,
                j as int,
            )).push(body@[j as int]));
        }
        j = j + 1;
    }
    proof {
        assert(body@.subrange(0, body@.len() as int) =~= body@);
    }
    s.push(0x2A);
    s.push(hex_digit_exec(ck / 16));
    s.push(hex_digit_exec(ck % 16));
    s.push(0x0D);
    s.push(0x0A);
    proof {
        assert(s@ =~= nmea_sentence(lat_centi as int, long_centi as int));
    }
    let ghost sentence = nmea_sentence(lat_centi as int, long_centi as int);
    while s.len() < 82
        invariant
            sentence.len() <= s@.len() <= 82,
            s@.subrange(0, sentence.len() as int) == sentence,
            forall|k: int| sentence.len() <= k < s@.len() ==> s@[k] == 0u8,
        decreases 82 - s@.len(),
    {
        s.push(0);
        proof {
            assert(s@.subrange(0, sentence.len() as int) =~= sentence);
        }
    }
    let mut arr: [u8; 82] = [0u8; 82];
    let mut k: usize = 0;
    while k < 82
        invariant
            k <= 82,
            s@.len() == 82,
            sentence.len() <= 82,
            s@.subrange(0, sentence.len() as int) == sentence,
            forall|m: int| sentence.len() <= m < 82 ==> s@[m] == 0u8,
            arr@.len() == 82,
            forall|m: int| 0 <= m < k ==> arr@[m] == s@[m],
        decreases 82 - k,
    {
        arr[k] = s[k];
        k = k + 1;
    }
    proof {
        assert(arr@ =~= nmea_field(lat_centi as int, long_centi as int));
    }
    arr
}

impl FlightData {
    /// Assemble a telemetry frame from wire-ready field values; the
    /// position is formatted into the frame's NMEA sentence buffer.
    pub fn new(
        roll_rate: i16,
        pitch_rate: i16,
        yaw_rate: i16,
        lin_acc_x: i16,
        lin_acc_y: i16,
        lin_acc_z: i16,
        mag_x: i16,
        mag_y: i16,
        mag_z: i16,
        temp: i16,
        barometer: u32,
        airspeed_pressure: i16,
        lat_centi: i64,
        long_centi: i64,
    ) -> (r: FlightData)
        requires
            -9000 <= lat_centi <= 9000,
            -18000 <= long_centi <= 18000,
        ensures
            r.roll_rate == roll_rate,
            r.pitch_rate == pitch_rate,
            r.yaw_rate == yaw_rate,
            r.lin_acc_x == lin_acc_x,
            r.lin_acc_y == lin_acc_y,
            r.lin_acc_z == lin_acc_z,
            r.mag_x == mag_x,
            r.mag_y == mag_y,
            r.mag_z == mag_z,
            r.temp == temp,
            r.barometer == barometer,
            r.airspeed_pressure == airspeed_pressure,
            r.gps@ == nmea_field(lat_centi as int, long_centi as int),
    {
        FlightData {
            roll_rate,
            pitch_rate,
            yaw_rate,
            lin_acc_x,
            lin_acc_y,
            lin_acc_z,
            mag_x,
            mag_y,
            mag_z,
            temp,
            barometer,
            airspeed_pressure,
            gps: conv_to_nmea(lat_centi, long_centi),
        }
    }

    /// Serialize the frame to its exact 108-byte wire image.
    pub fn to_bytes(&self) -> (r: Vec<u8>)
        ensures
            r@ == flight_bytes(*self),
            r@.len() == FLIGHT_DATA_SIZE,
    {
        let mut v: Vec<u8> = Vec::new();
        push_i16_le(&mut v, self.roll_rate);
        push_i16_le(&mut v, self.pitch_rate);
        push_i16_le(&mut v, self.yaw_rate);
        push_i16_le(&mut v, self.lin_acc_x);
        push_i16_le(&mut v, self.lin_acc_y);
        push_i16_le(&mut v, self.lin_acc_z);
        push_i16_le(&mut v, self.mag_x);
        push_i16_le(&mut v, self.mag_y);
        push_i16_le(&mut v, self.mag_z);
        push_i16_le(&mut v, self.temp);
        v.push((self.barometer % 256) as u8);
        v.push(((self.barometer / 256) % 256) as u8);
        v.push(((self.barometer / 0x1_0000) % 256) as u8);
        v.push((self.barometer / 0x100_0000) as u8);
        push_i16_le(&mut v, self.airspeed_pressure);
        proof {
            assert(v@ =~= flight_bytes(*self).take(26));
        }
        let mut g: usize = 0;
        while g < 82
            invariant
                g <= 82,
                v@ == flight_bytes(*self).take(26 + g),
            decreases 82 - g,
        {
            v.push(self.gps[g]);
            proof {
                assert(flight_bytes(*self).take(26 + g + 1) =~= flight_bytes(*self).take(
                    26 + g,
                ).push(self.gps@[g as int]));
            }
            g = g + 1;
        }
        proof {
            assert(flight_bytes(*self).take(108) =~= flight_bytes(*self));
        }
        v
    }
}

/// Append a 16-bit signed value as two little-endian bytes, two's
/// complement.
fn push_i16_le(v: &mut Vec<u8>, x: i16)
    ensures
        final(v)@ == old(v)@ + i16_le(x),
{
    let u: u16 = #[verifier::truncate] (x as u16);
    v.push((u % 256) as u8);
    v.push((u / 256) as u8);
    proof {
        assert(v@ =~= old(v)@ + i16_le(x));
    }
}

} // verus!

//! The in-memory form of a received control frame: control-surface
//! deflections and throttle as plain fixed-point numbers, plus the creation
//! timestamp used for latency accounting.
//!
//! Deflections are held in millidegrees so the 11-bit wire law
//! `value = raw * 30 / 2047 - 15` (degrees) becomes exact integer
//! arithmetic; the throttle is held in thousandths of full scale for the
//! law `value = raw / 2047`.

use vstd::prelude::*;

use crate::control_data::ControlData;
use crate::control_data::frame_valid;

verus! {

/// Largest raw value of an 11-bit control field.
pub const FULL_SCALE_RAW: u16 = 2047;

/// The decode law for a control-surface field, in millidegrees:
/// raw 0 maps to -15000, raw 2047 to +15000, linearly, truncating.
pub open spec fn surface_decode(raw: int) -> int {
    raw * 30000 / 2047 - 15000
}

/// The decode law for the throttle field, in thousandths:
/// raw 0 maps to 0, raw 2047 to 1000, linearly, truncating.
pub open spec fn throttle_decode(raw: int) -> int {
    raw * 1000 / 2047
}

/// The encode law for a control-surface deflection in millidegrees; it
/// exists for generating frames on the far side of the link and for test
/// fixtures, since the control direction of the link is receive-only.
pub open spec fn surface_encode(millideg: int) -> int {
    (millideg + 15000) * 2047 / 30000
}

/// The encode law for the throttle, from thousandths of full scale.
pub open spec fn throttle_encode(milli: int) -> int {
    milli * 2047 / 1000
}

/// A decoded control sample.  `time_ns` is the creation time, in
/// nanoseconds since the epoch, of the telemetry sample the controller was
/// answering; 0 is the sentinel for a fictitious, uninitialized sample
/// that latency accounting must ignore.
#[derive(Copy, Clone, Debug)]
pub struct BufferedControlData {
    /// Rudder deflection in millidegrees.
    pub rudder: i32,
    /// Left aileron deflection in millidegrees.
    pub left_aileron: i32,
    /// Right aileron deflection in millidegrees.
    pub right_aileron: i32,
    /// Elevator deflection in millidegrees.
    pub elevator: i32,
    /// Throttle in thousandths of full scale.
    pub throttle: i32,
    /// Creation time of the paired telemetry sample, ns since the epoch;
    /// 0 marks a sample to be ignored.
    pub time_ns: u64,
}

/// Decode one control-surface field.
pub fn control_surface_conversion(raw: u16) -> (r: i32)
    ensures
        r == surface_decode(raw as int),
        raw <= FULL_SCALE_RAW ==> -15000 <= r <= 15000,
{
    let wide: u32 = (raw as u32) * 30000;
    let scaled: u32 = wide / 2047;
    proof {
        if raw <= 2047 {
            assert(wide / 2047 <= 30000) by (nonlinear_arith)
                requires
                    wide <= 2047 * 30000,
            ;
        }
    }
    (scaled as i32) - 15000
}

/// Decode the throttle field.
pub fn throttle_conversion(raw: u16) -> (r: i32)
    ensures
        r == throttle_decode(raw as int),
        raw <= FULL_SCALE_RAW ==> 0 <= r <= 1000,
{
    let wide: u32 = (raw as u32) * 1000;
    let scaled: u32 = wide / 2047;
    proof {
        if raw <= 2047 {
            assert(wide / 2047 <= 1000) by (nonlinear_arith)
                requires
                    wide <= 2047 * 1000,
            ;
        }
    }
    scaled as i32
}

/// Encode a control-surface deflection; the inverse of
/// `control_surface_conversion` up to one quantization step.
pub fn control_surface_encode(millideg: i32) -> (r: u16)
    requires
        -15000 <= millideg <= 15000,
    ensures
        r == surface_encode(millideg as int),
        r <= FULL_SCALE_RAW,
{
    let shifted: u32 = (millideg + 15000) as u32;
    let raw: u32 = shifted * 2047 / 30000;
    proof {
        assert(shifted * 2047 / 30000 <= 2047) by (nonlinear_arith)
            requires
                shifted <= 30000,
        ;
    }
    raw as u16
}

/// Encode a throttle setting; the inverse of `throttle_conversion` up to
/// one quantization step.
pub fn throttle_encode_exec(milli: i32) -> (r: u16)
    requires
        0 <= milli <= 1000,
    ensures
        r == throttle_encode(milli as int),
        r <= FULL_SCALE_RAW,
{
    let raw: u32 = (milli as u32) * 2047 / 1000;
    proof {
        assert(milli as u32 * 2047 / 1000 <= 2047) by (nonlinear_arith)
            requires
                milli as u32 <= 1000,
        ;
    }
    raw as u16
}

/// Round trip of the control-surface law: for every deflection in range,
/// decoding the encoding recovers the value within one quantization step
/// of the 11-bit fixed-point law (30000/2047, i.e. at most 15
/// millidegrees), and never overshoots it.
pub proof fn lemma_surface_round_trip(x: int)
    requires
        -15000 <= x <= 15000,
    ensures
        surface_decode(surface_encode(x)) <= x,
        x - surface_decode(surface_encode(x)) <= 15,
{
    let y = x + 15000;
    let r = y * 2047 / 30000;
    let d = r * 30000 / 2047;
    vstd::arithmetic::div_mod::lemma_fundamental_div_mod(y * 2047, 30000);
    vstd::arithmetic::div_mod::lemma_mod_division_less_than_divisor(y * 2047, 30000);
    vstd::arithmetic::div_mod::lemma_fundamental_div_mod(r * 30000, 2047);
    vstd::arithmetic::div_mod::lemma_mod_division_less_than_divisor(r * 30000, 2047);
    assert(2047 * d <= 2047 * y);
    assert(2047 * d > 2047 * y - 32047);
}

/// Round trip of the throttle law: decoding the encoding recovers the
/// value within one quantization step (1000/2047, i.e. at most one
/// thousandth), and never overshoots it.
pub proof fn lemma_throttle_round_trip(x: int)
    requires
        0 <= x <= 1000,
    ensures
        throttle_decode(throttle_encode(x)) <= x,
        x - throttle_decode(throttle_encode(x)) <= 1,
{
    let r = x * 2047 / 1000;
    let d = r * 1000 / 2047;
    vstd::arithmetic::div_mod::lemma_fundamental_div_mod(x * 2047, 1000);
    vstd::arithmetic::div_mod::lemma_mod_division_less_than_divisor(x * 2047, 1000);
    vstd::arithmetic::div_mod::lemma_fundamental_div_mod(r * 1000, 2047);
    vstd::arithmetic::div_mod::lemma_mod_division_less_than_divisor(r * 1000, 2047);
    assert(2047 * d <= 2047 * x);
    assert(2047 * d > 2047 * x - 3047);
}

impl BufferedControlData {
    /// A fictitious all-neutral sample carrying the epoch sentinel, so that
    /// latency accounting ignores it.
    pub fn new() -> (r: Self)
        ensures
            r.rudder == 0,
            r.left_aileron == 0,
            r.right_aileron == 0,
            r.elevator == 0,
            r.throttle == 0,
            r.time_ns == 0,
    {
        BufferedControlData {
            rudder: 0,
            left_aileron: 0,
            right_aileron: 0,
            elevator: 0,
            throttle: 0,
            time_ns: 0,
        }
    }

    /// Decode a verified wire frame into physical units, stamping it with
    /// the creation time of the telemetry sample it answers.
    pub fn from_external(cd: ControlData, time_ns: u64) -> (r: Self)
        requires
            frame_valid(cd),
        ensures
            r.rudder == surface_decode(cd.rudder as int),
            r.left_aileron == surface_decode(cd.left_aileron as int),
            r.right_aileron == surface_decode(cd.right_aileron as int),
            r.elevator == surface_decode(cd.elevator as int),
            r.throttle == throttle_decode(cd.throttle as int),
            r.time_ns == time_ns,
    {
        BufferedControlData {
            rudder: control_surface_conversion(cd.rudder),
            left_aileron: control_surface_conversion(cd.left_aileron),
            right_aileron: control_surface_conversion(cd.right_aileron),
            elevator: control_surface_conversion(cd.elevator),
            throttle: throttle_conversion(cd.throttle),
            time_ns,
        }
    }
}

} // verus!

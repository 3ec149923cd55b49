//! Telemetry/control link between a flight-simulation engine and
//! hardware-in-the-loop avionics over a serial line.
//!
//! The crate holds the verified core of the link: the two fixed binary wire
//! formats with their sync/checksum discipline, the byte-stream
//! resynchronizer that recovers framing after any loss of alignment, the
//! fixed-point conversion laws for the control fields, the NMEA position
//! sentence, the connection-lifecycle policy of the two I/O loops, and the
//! latency harness.  Serial I/O itself and the floating-point unit
//! conversions of the host simulator live outside the library.

use vstd::prelude::*;

pub mod buffered_control_data;
pub mod comm;
pub mod control_data;
pub mod exchange;
pub mod flight_data;
pub mod flight_loop;

verus! {

/// Number of round-trip latency samples a report holds by default.
pub const NUM_LATENCY_MEASUREMENTS: usize = 100;

/// Number of initial samples discarded while the link stabilises.
pub const SACRIFICE_LATENCY_MEASUREMENTS: usize = 100;

} // verus!

//! The receive-side resynchronizer and the connection-lifecycle policy of
//! the two serial I/O loops.
//!
//! The resynchronizer consumes the raw byte stream in fills of a fixed
//! 20-byte window, emits the validated control frames it finds, and
//! recovers alignment after any loss of framing by hunting for the sync
//! marker, keeping at most one partial frame of carried-over bytes.

use vstd::prelude::*;

use crate::buffered_control_data::BufferedControlData;
use crate::control_data::CONTROL_DATA_SIZE;
use crate::control_data::ControlData;
use crate::control_data::VerifyError;
use crate::control_data::control_bytes;
use crate::control_data::frame_valid;
use crate::control_data::lemma_frame_valid_wire;
use crate::control_data::checksum_of;
use crate::control_data::sync_marker;
use crate::control_data::u32_of_le;
use crate::control_data::valid_wire;
use crate::exchange::exchange_new;
use crate::exchange::exchange_read;
use crate::exchange::exchange_write;
use crate::flight_data::FLIGHT_DATA_SIZE;
use crate::flight_data::FlightData;
use crate::flight_data::flight_bytes;

verus! {

/// Fixed cadence of the telemetry send loop, milliseconds.
pub const SEND_PERIOD_MILLIS: u64 = 20;

/// Poll period of the receive loop while the link is down, milliseconds.
pub const RECV_BACKOFF_MILLIS: u64 = 200;

/// Move the elements of `arr` from `start_pos` onward to the front of the
/// vector, preserving their order; the positions past the moved span keep
/// their old values.
pub fn shift<T: Copy>(arr: &mut Vec<T>, start_pos: usize)
    requires
        start_pos <= old(arr)@.len(),
    ensures
        final(arr)@.len() == old(arr)@.len(),
        forall|i: int|
            0 <= i < old(arr)@.len() - start_pos ==> final(arr)@[i] == old(arr)@[start_pos + i],
        forall|i: int|
            old(arr)@.len() - start_pos <= i < old(arr)@.len() ==> final(arr)@[i] == old(arr)@[i],
{
    let length = arr.len();
    let mut i: usize = start_pos;
    while i < length
        invariant
            start_pos <= i <= length,
            arr@.len() == length,
            length == old(arr)@.len(),
            forall|k: int| 0 <= k < i - start_pos ==> arr@[k] == old(arr)@[start_pos + k],
            forall|k: int| i - start_pos <= k < length ==> arr@[k] == old(arr)@[k],
        decreases length - i,
    {
        let val = arr[i];
        arr.set(i - start_pos, val);
        i = i + 1;
    }
}

/// The sync marker sits at offset `p` of the 20-byte window.
pub open spec fn has_sync_at(w: Seq<u8>, p: int) -> bool {
    0 <= p <= 16 && w.subrange(p, p + 4) == sync_marker()
}

/// Offset of the first sync marker at or after `i`, or -1 if there is none.
pub open spec fn find_sync_from(w: Seq<u8>, i: int) -> int
    decreases 17 - i when i <= 17
{
    if i < 0 || i > 16 {
        -1
    } else if w.subrange(i, i + 4) == sync_marker() {
        i
    } else {
        find_sync_from(w, i + 1)
    }
}

/// Offset of the first sync marker in the window, or -1.
pub open spec fn find_sync(w: Seq<u8>) -> int {
    find_sync_from(w, 0)
}

/// How many trailing bytes of the window are a proper prefix of the sync
/// marker, longest first.
pub open spec fn tail_partial(w: Seq<u8>) -> int {
    if w.subrange(17, 20) == sync_marker().subrange(0, 3) {
        3
    } else if w.subrange(18, 20) == sync_marker().subrange(0, 2) {
        2
    } else if w[19] == sync_marker()[0] {
        1
    } else {
        0
    }
}

/// The bytes a filled window leaves behind for the next fill: nothing after
/// an aligned frame, the suffix from the first sync marker on when one sits
/// inside the window, or the trailing partial marker.
pub open spec fn next_retained(w: Seq<u8>) -> Seq<u8> {
    let p = find_sync(w);
    if p == 0 {
        Seq::empty()
    } else if p > 0 {
        w.subrange(p, CONTROL_DATA_SIZE as int)
    } else {
        w.subrange(CONTROL_DATA_SIZE - tail_partial(w), CONTROL_DATA_SIZE as int)
    }
}

/// A filled window hands a frame onward exactly when it is aligned and
/// valid.
pub open spec fn emits(w: Seq<u8>) -> bool {
    find_sync(w) == 0 && valid_wire(w)
}

/// What one fill of the window produced.
#[derive(Copy, Clone, Debug)]
pub enum FeedOutcome {
    /// An aligned, validated frame.
    Frame(ControlData),
    /// An aligned frame that failed verification and was dropped.
    Invalid(VerifyError),
    /// No aligned frame; the cursor advanced per the resync policy.
    NoFrame,
}

/// The resynchronizer's cursor state: a fixed window and the number of
/// leading bytes already filled with carried-over data.
pub struct ResyncBuffer {
    /// The receive window; always exactly one frame long.
    pub buf: Vec<u8>,
    /// How many leading bytes of `buf` hold carried-over data.
    pub cursor: usize,
}

impl ResyncBuffer {
    /// The window is frame-sized and the cursor strictly inside it.
    pub open spec fn wf(self) -> bool {
        &&& self.buf@.len() == CONTROL_DATA_SIZE
        &&& self.cursor < CONTROL_DATA_SIZE
    }

    /// The carried-over bytes awaiting more data.
    pub open spec fn retained(self) -> Seq<u8> {
        self.buf@.subrange(0, self.cursor as int)
    }

    /// A fresh, empty resynchronizer.
    pub fn new() -> (r: Self)
        ensures
            r.wf(),
            r.retained() == Seq::<u8>::empty(),
    {
        let mut buf: Vec<u8> = Vec::new();
        let mut i: usize = 0;
        while i < CONTROL_DATA_SIZE
            invariant
                buf@.len() == i,
                i <= CONTROL_DATA_SIZE,
            decreases CONTROL_DATA_SIZE - i,
        {
            buf.push(0);
            i = i + 1;
        }
        let r = ResyncBuffer { buf, cursor: 0 };
        proof {
            assert(r.retained() =~= Seq::<u8>::empty());
        }
        r
    }

    /// How many fresh bytes the next fill must bring.
    pub fn needed(&self) -> (n: usize)
        requires
            self.wf(),
        ensures
            n == CONTROL_DATA_SIZE - self.cursor,
            1 <= n <= CONTROL_DATA_SIZE,
    {
        CONTROL_DATA_SIZE - self.cursor
    }

    /// Drop any carried-over bytes; used when the connection is lost, since
    /// partial in-flight data is then assumed stale.
    pub fn reset(&mut self)
        requires
            old(self).wf(),
        ensures
            final(self).wf(),
            final(self).retained() == Seq::<u8>::empty(),
    {
        self.cursor = 0;
        proof {
            assert(self.retained() =~= Seq::<u8>::empty());
        }
    }

    /// Fill the window with exactly the bytes it still needs, then classify
    /// it: an aligned frame is verified and handed out, a sync marker found
    /// inside the window shifts the suffix to the front, a trailing partial
    /// marker is kept, and anything else is discarded.
    pub fn feed(&mut self, fresh: &[u8]) -> (out: FeedOutcome)
        requires
            old(self).wf(),
            fresh@.len() == CONTROL_DATA_SIZE - old(self).cursor,
        ensures
            final(self).wf(),
            final(self).retained() == next_retained(old(self).retained() + fresh@),
            ({
                let w = old(self).retained() + fresh@;
                match out {
                    FeedOutcome::Frame(cd) => emits(w) && control_bytes(cd) == w && frame_valid(
                        cd,
                    ),
                    FeedOutcome::Invalid(e) => find_sync(w) == 0 && !valid_wire(w) && (
                    e matches VerifyError::BadChecksum { expected, got } && expected
                        == checksum_of(w.subrange(4, 16)) && got == u32_of_le(
                        w[16],
                        w[17],
                        w[18],
                        w[19],
                    ) && expected != got),
                    FeedOutcome::NoFrame => find_sync(w) != 0,
                }
            }),
    {
        let ghost w = old(self).retained() + fresh@;
        let mut i: usize = 0;
        while i < fresh.len()
            invariant
                i <= fresh@.len(),
                fresh@.len() == CONTROL_DATA_SIZE - old(self).cursor,
                self.cursor == old(self).cursor,
                self.buf@.len() == CONTROL_DATA_SIZE,
                self.buf@.subrange(0, self.cursor as int) == old(self).retained(),
                forall|k: int| 0 <= k < i ==> self.buf@[self.cursor + k] == fresh@[k],
            decreases fresh@.len() - i,
        {
            let b = fresh[i];
            self.buf.set(self.cursor + i, b);
            proof {
                assert(self.buf@.subrange(0, self.cursor as int) =~= old(self).retained());
            }
            i = i + 1;
        }
        proof {
            assert(self.buf@ =~= w);
        }
        if self.buf[0] == 0x53 && self.buf[1] == 0x59 && self.buf[2] == 0x4E && self.buf[3]
            == 0x43 {
            proof {
                assert(w.subrange(0, 4) =~= sync_marker());
            }
            let cd = ControlData::from_bytes(self.buf.as_slice());
            self.cursor = 0;
            proof {
                lemma_frame_valid_wire(cd);
                assert(self.retained() =~= Seq::<u8>::empty());
            }
            match cd.verify_detail() {
                Ok(()) => FeedOutcome::Frame(cd),
                Err(e) => {
                    proof {
                        assert(cd.sync@ =~= control_bytes(cd).subrange(0, 4));
                        assert(cd.sync@ == sync_marker());
                        assert(crate::control_data::payload_of(cd) =~= w.subrange(4, 16));
                    }
                    FeedOutcome::Invalid(e)
                },
            }
        } else {
            proof {
                assert(!has_sync_at(w, 0)) by {
                    if has_sync_at(w, 0) {
                        assert(w.subrange(0, 4)[0] == sync_marker()[0]);
                    }
                }
            }
            let mut p: usize = 1;
            while p <= 16
                invariant
                    1 <= p <= 17,
                    self.buf@ == w,
                    w == old(self).retained() + fresh@,
                    w.len() == CONTROL_DATA_SIZE,
                    self.cursor == old(self).cursor,
                    self.cursor < CONTROL_DATA_SIZE,
                    forall|q: int| 0 <= q < p ==> !has_sync_at(w, q),
                decreases 17 - p,
            {
                if self.buf[p] == 0x53 && self.buf[p + 1] == 0x59 && self.buf[p + 2] == 0x4E
                    && self.buf[p + 3] == 0x43 {
                    proof {
                        assert(w.subrange(p as int, p + 4) =~= sync_marker());
                        lemma_find_sync_range(w, 0, p as int);
                    }
                    shift(&mut self.buf, p);
                    self.cursor = CONTROL_DATA_SIZE - p;
                    proof {
                        assert(self.retained() =~= next_retained(w));
                    }
                    return FeedOutcome::NoFrame;
                }
                proof {
                    assert(!has_sync_at(w, p as int)) by {
                        if has_sync_at(w, p as int) {
                            assert(w.subrange(p as int, p + 4)[0] == sync_marker()[0]);
                            assert(w.subrange(p as int, p + 4)[1] == sync_marker()[1]);
                            assert(w.subrange(p as int, p + 4)[2] == sync_marker()[2]);
                            assert(w.subrange(p as int, p + 4)[3] == sync_marker()[3]);
                        }
                    }
                }
                p = p + 1;
            }
            proof {
                lemma_find_sync_none(w, 0);
            }
            if self.buf[17] == 0x53 && self.buf[18] == 0x59 && self.buf[19] == 0x4E {
                proof {
                    assert(w.subrange(17, 20) =~= sync_marker().subrange(0, 3));
                }
                shift(&mut self.buf, 17);
                self.cursor = 3;
                proof {
                    assert(self.retained() =~= next_retained(w));
                }
                FeedOutcome::NoFrame
            } else if self.buf[18] == 0x53 && self.buf[19] == 0x59 {
                proof {
                    assert(w.subrange(17, 20) != sync_marker().subrange(0, 3)) by {
                        if w.subrange(17, 20) == sync_marker().subrange(0, 3) {
                            assert(w.subrange(17, 20)[0] == sync_marker().subrange(0, 3)[0]);
                            assert(w.subrange(17, 20)[1] == sync_marker().subrange(0, 3)[1]);
                            assert(w.subrange(17, 20)[2] == sync_marker().subrange(0, 3)[2]);
                        }
                    }
                    assert(w.subrange(18, 20) =~= sync_marker().subrange(0, 2));
                }
                shift(&mut self.buf, 18);
                self.cursor = 2;
                proof {
                    assert(self.retained() =~= next_retained(w));
                }
                FeedOutcome::NoFrame
            } else if self.buf[19] == 0x53 {
                proof {
                    assert(w.subrange(17, 20) != sync_marker().subrange(0, 3)) by {
                        if w.subrange(17, 20) == sync_marker().subrange(0, 3) {
                            assert(w.subrange(17, 20)[0] == sync_marker().subrange(0, 3)[0]);
                            assert(w.subrange(17, 20)[1] == sync_marker().subrange(0, 3)[1]);
                            assert(w.subrange(17, 20)[2] == sync_marker().subrange(0, 3)[2]);
                        }
                    }
                    assert(w.subrange(18, 20) != sync_marker().subrange(0, 2)) by {
                        if w.subrange(18, 20) == sync_marker().subrange(0, 2) {
                            assert(w.subrange(18, 20)[0] == sync_marker().subrange(0, 2)[0]);
                            assert(w.subrange(18, 20)[1] == sync_marker().subrange(0, 2)[1]);
                        }
                    }
                }
                shift(&mut self.buf, 19);
                self.cursor = 1;
                proof {
                    assert(self.retained() =~= next_retained(w));
                }
                FeedOutcome::NoFrame
            } else {
                proof {
                    assert(w.subrange(17, 20) != sync_marker().subrange(0, 3)) by {
                        if w.subrange(17, 20) == sync_marker().subrange(0, 3) {
                            assert(w.subrange(17, 20)[0] == sync_marker().subrange(0, 3)[0]);
                            assert(w.subrange(17, 20)[1] == sync_marker().subrange(0, 3)[1]);
                            assert(w.subrange(17, 20)[2] == sync_marker().subrange(0, 3)[2]);
                        }
                    }
                    assert(w.subrange(18, 20) != sync_marker().subrange(0, 2)) by {
                        if w.subrange(18, 20) == sync_marker().subrange(0, 2) {
                            assert(w.subrange(18, 20)[0] == sync_marker().subrange(0, 2)[0]);
                            assert(w.subrange(18, 20)[1] == sync_marker().subrange(0, 2)[1]);
                        }
                    }
                }
                self.cursor = 0;
                proof {
                    assert(self.retained() =~= next_retained(w));
                }
                FeedOutcome::NoFrame
            }
        }
    }
}

/// If the marker is absent before `p` and present at `p`, the search from
/// `i` finds exactly `p`.
proof fn lemma_find_sync_range(w: Seq<u8>, i: int, p: int)
    requires
        0 <= i <= p <= 16,
        forall|q: int| i <= q < p ==> !has_sync_at(w, q),
        has_sync_at(w, p),
    ensures
        find_sync_from(w, i) == p,
    decreases p - i,
{
    if i < p {
        assert(!has_sync_at(w, i));
        assert(w.subrange(i, i + 4) != sync_marker());
        lemma_find_sync_range(w, i + 1, p);
        assert(find_sync_from(w, i + 1) == p);
        assert(find_sync_from(w, i) == find_sync_from(w, i + 1));
    } else {
        assert(w.subrange(i, i + 4) == sync_marker());
        assert(find_sync_from(w, i) == i);
    }
}

/// If the marker is absent from `i` on, the search from `i` fails.
proof fn lemma_find_sync_none(w: Seq<u8>, i: int)
    requires
        0 <= i <= 17,
        forall|q: int| i <= q <= 16 ==> !has_sync_at(w, q),
    ensures
        find_sync_from(w, i) == -1,
    decreases 17 - i,
{
    if i <= 16 {
        assert(!has_sync_at(w, i));
        assert(w.subrange(i, i + 4) != sync_marker());
        lemma_find_sync_none(w, i + 1);
        assert(find_sync_from(w, i) == find_sync_from(w, i + 1));
    } else {
        assert(find_sync_from(w, i) == -1);
    }
}

/// Build the control-direction exchange, receive loop to driver, seeded
/// with the fictitious sentinel sample so that latency accounting ignores
/// everything read before the first real frame.
pub fn control_exchange() -> (triple_buffer::Input<BufferedControlData>, triple_buffer::Output<
    BufferedControlData,
>) {
    exchange_new(&BufferedControlData::new())
}

/// Build the telemetry-direction exchange, driver to send loop, seeded
/// with an all-neutral frame at coordinates zero.
pub fn telemetry_exchange() -> (triple_buffer::Input<FlightData>, triple_buffer::Output<
    FlightData,
>) {
    let seed = FlightData::new(0, 0, 0, 0, 0, 0, 0, 0, 0, 0, 0, 0, 0, 0);
    exchange_new(&seed)
}

/// One compute step of the receive loop: fill the resynchronizer's window
/// with the freshly read bytes, and when that completes a valid frame,
/// decode it to physical units, stamp it with `time_ns`, and publish it on
/// the control-direction exchange for the driver to pick up.
pub fn recv_process(
    resync: &mut ResyncBuffer,
    fresh: &[u8],
    time_ns: u64,
    out: &mut triple_buffer::Input<BufferedControlData>,
) -> (r: FeedOutcome)
    requires
        old(resync).wf(),
        fresh@.len() == CONTROL_DATA_SIZE - old(resync).cursor,
    ensures
        final(resync).wf(),
        final(resync).retained() == next_retained(old(resync).retained() + fresh@),
        ({
            let w = old(resync).retained() + fresh@;
            match r {
                FeedOutcome::Frame(cd) => emits(w) && control_bytes(cd) == w && frame_valid(cd),
                FeedOutcome::Invalid(e) => find_sync(w) == 0 && !valid_wire(w) && (
                e matches VerifyError::BadChecksum { expected, got } && expected == checksum_of(
                    w.subrange(4, 16),
                ) && got == u32_of_le(w[16], w[17], w[18], w[19]) && expected != got),
                FeedOutcome::NoFrame => find_sync(w) != 0,
            }
        }),
{
    let outcome = resync.feed(fresh);
    match outcome {
        FeedOutcome::Frame(cd) => {
            let sample = BufferedControlData::from_external(cd, time_ns);
            exchange_write(out, sample);
        },
        FeedOutcome::Invalid(_) => {},
        FeedOutcome::NoFrame => {},
    }
    outcome
}

/// One compute step of the send loop: fetch the latest telemetry frame
/// from the outgoing exchange and serialize it for the wire.
pub fn send_fetch_bytes(src: &mut triple_buffer::Output<FlightData>) -> (r: Vec<u8>)
    ensures
        r@.len() == FLIGHT_DATA_SIZE,
        exists|fd: FlightData| r@ == flight_bytes(fd),
{
    let fd = exchange_read(src);
    let bytes = fd.to_bytes();
    proof {
        assert(bytes@ == flight_bytes(fd));
    }
    bytes
}

/// A span of bytes in which the sync marker's first byte never occurs, so
/// no whole or partial marker can start inside it.
pub open spec fn sync_free(s: Seq<u8>) -> bool {
    forall|i: int| 0 <= i < s.len() ==> s[i] != sync_marker()[0]
}

/// The windows a byte stream makes the resynchronizer emit, starting from
/// `retained` carried-over bytes: each step fills the window with exactly
/// the bytes it still needs, emits it when it is an aligned valid frame,
/// and carries over what the resync policy keeps.  This is the run of
/// `feed` over the stream, written as a function of the bytes alone.
pub open spec fn run_emissions(retained: Seq<u8>, stream: Seq<u8>) -> Seq<Seq<u8>>
    decreases stream.len(),
{
    if retained.len() >= CONTROL_DATA_SIZE {
        Seq::empty()
    } else {
        let need = CONTROL_DATA_SIZE - retained.len();
        if stream.len() < need {
            Seq::empty()
        } else {
            let w = retained + stream.take(need as int);
            let rest = stream.skip(need as int);
            let tail = run_emissions(next_retained(w), rest);
            if emits(w) {
                seq![w] + tail
            } else {
                tail
            }
        }
    }
}

/// A span of bytes in which the whole 4-byte sync marker never occurs.
/// Weaker than `sync_free`: stray marker prefixes are allowed.
pub open spec fn marker_free(s: Seq<u8>) -> bool {
    forall|i: int| 0 <= i && i + 4 <= s.len() ==> #[trigger] s.subrange(i, i + 4) != sync_marker()
}

/// Dropping a prefix of a marker-free span leaves it marker-free.
proof fn lemma_suffix_marker_free(s: Seq<u8>, m: int)
    requires
        marker_free(s),
        0 <= m <= s.len(),
    ensures
        marker_free(s.skip(m)),
{
    assert forall|i: int| 0 <= i && i + 4 <= s.skip(m).len() implies #[trigger] s.skip(m).subrange(
        i,
        i + 4,
    ) != sync_marker() by {
        assert(s.skip(m).subrange(i, i + 4) =~= s.subrange(m + i, m + i + 4));
    }
}

/// A marker-free stream makes the resynchronizer emit nothing, whatever
/// carried-over bytes it starts from, as long as those too come from the
/// same marker-free span: every window it ever fills is a contiguous slice
/// of that span, so no window begins with the marker.
proof fn lemma_marker_free_run(retained: Seq<u8>, stream: Seq<u8>)
    requires
        marker_free(retained + stream),
        retained.len() < CONTROL_DATA_SIZE,
    ensures
        run_emissions(retained, stream) == Seq::<Seq<u8>>::empty(),
    decreases stream.len(),
{
    let all = retained + stream;
    let need = CONTROL_DATA_SIZE - retained.len();
    if stream.len() >= need {
        let w = retained + stream.take(need as int);
        assert(w =~= all.take(20));
        assert forall|q: int| 0 <= q <= 16 implies #[trigger] w.subrange(q, q + 4)
            != sync_marker() by {
            assert(w.subrange(q, q + 4) =~= all.subrange(q, q + 4));
        }
        assert forall|q: int| 0 <= q <= 16 implies !has_sync_at(w, q) by {
            assert(w.subrange(q, q + 4) != sync_marker());
        }
        lemma_find_sync_none(w, 0);
        assert(!emits(w));
        let len2: int = tail_partial(w);
        assert(0 <= len2 <= 3);
        assert(next_retained(w) =~= w.subrange(20 - len2, 20));
        let r2 = next_retained(w);
        let rest = stream.skip(need as int);
        assert(r2 + rest =~= all.skip(20 - len2));
        lemma_suffix_marker_free(all, 20 - len2);
        assert(marker_free(r2 + rest));
        lemma_marker_free_run(r2, rest);
        assert(run_emissions(retained, stream) == run_emissions(r2, rest));
    }
}

/// In a window whose bytes at 17, 18 and 19 come from a sync-free span
/// starting at window offset `off`, no trailing partial marker is found
/// past the span's start.
proof fn lemma_no_tail_partial(w: Seq<u8>, noise: Seq<u8>, off: int)
    requires
        w.len() == CONTROL_DATA_SIZE,
        sync_free(noise),
        0 <= off,
        forall|i: int| off <= i < CONTROL_DATA_SIZE ==> i - off < noise.len() && w[i] == noise[i
            - off],
        off <= 17,
    ensures
        tail_partial(w) == 0,
{
    assert(w.subrange(17, 20) != sync_marker().subrange(0, 3)) by {
        if w.subrange(17, 20) == sync_marker().subrange(0, 3) {
            assert(w.subrange(17, 20)[0] == sync_marker().subrange(0, 3)[0]);
            assert(noise[17 - off] == sync_marker()[0]);
        }
    }
    assert(w.subrange(18, 20) != sync_marker().subrange(0, 2)) by {
        if w.subrange(18, 20) == sync_marker().subrange(0, 2) {
            assert(w.subrange(18, 20)[0] == sync_marker().subrange(0, 2)[0]);
            assert(noise[18 - off] == sync_marker()[0]);
        }
    }
    assert(w[19] == noise[19 - off]);
}

/// A marker-free trailing stream, started from an empty window, emits
/// nothing.
proof fn proof_marker_free_tail(noise: Seq<u8>)
    requires
        marker_free(noise),
    ensures
        run_emissions(Seq::empty(), noise) == Seq::<Seq<u8>>::empty(),
{
    assert(Seq::<u8>::empty() + noise =~= noise);
    lemma_marker_free_run(Seq::empty(), noise);
}

/// A valid frame begins with the marker, so the search finds offset 0 and
/// the window is emitted.
proof fn lemma_frame_emits(frame: Seq<u8>)
    requires
        valid_wire(frame),
    ensures
        emits(frame),
        next_retained(frame) == Seq::<u8>::empty(),
{
    assert(has_sync_at(frame, 0));
    lemma_find_sync_range(frame, 0, 0);
    assert(next_retained(frame) =~= Seq::<u8>::empty());
}

/// Resynchronization recovers exactly one frame from a dirtied stream: if
/// a byte stream consists of one well-formed frame at an arbitrary offset,
/// preceded by noise in which the marker's first byte never occurs and
/// followed by noise in which the whole marker never occurs, then the
/// resynchronizer, started empty, emits that frame and nothing else,
/// wherever the frame falls relative to the window fills.
pub proof fn lemma_resync_single_frame(noise1: Seq<u8>, frame: Seq<u8>, noise2: Seq<u8>)
    requires
        valid_wire(frame),
        sync_free(noise1),
        marker_free(noise2),
    ensures
        run_emissions(Seq::empty(), noise1 + frame + noise2) == seq![frame],
    decreases noise1.len(),
{
    let stream = noise1 + frame + noise2;
    assert(frame[0] == sync_marker()[0] && frame[1] == sync_marker()[1] && frame[2]
        == sync_marker()[2] && frame[3] == sync_marker()[3]) by {
        assert(frame.subrange(0, 4)[0] == sync_marker()[0]);
        assert(frame.subrange(0, 4)[1] == sync_marker()[1]);
        assert(frame.subrange(0, 4)[2] == sync_marker()[2]);
        assert(frame.subrange(0, 4)[3] == sync_marker()[3]);
    }
    if noise1.len() >= CONTROL_DATA_SIZE {
        let w = stream.take(20);
        assert(w =~= noise1.take(20));
        assert forall|q: int| 0 <= q <= 16 implies !has_sync_at(w, q) by {
            if has_sync_at(w, q) {
                assert(w.subrange(q, q + 4)[0] == sync_marker()[0]);
                assert(noise1[q] == sync_marker()[0]);
            }
        }
        lemma_find_sync_none(w, 0);
        lemma_no_tail_partial(w, noise1, 0);
        assert(next_retained(w) =~= Seq::<u8>::empty());
        let rest = stream.skip(20);
        let n1rest = noise1.skip(20);
        assert(sync_free(n1rest)) by {
            assert(forall|i: int| 0 <= i < n1rest.len() ==> n1rest[i] == noise1[i + 20]);
        }
        lemma_resync_single_frame(n1rest, frame, noise2);
        assert(rest =~= n1rest + frame + noise2);
        assert(run_emissions(Seq::<u8>::empty(), stream) == run_emissions(
            Seq::<u8>::empty(),
            rest,
        ));
    } else {
        let p = noise1.len() as int;
        let w = stream.take(20);
        if p == 0 {
            assert(w =~= frame);
            lemma_frame_emits(frame);
            let rest = stream.skip(20);
            assert(rest =~= noise2);
            proof_marker_free_tail(noise2);
            assert(run_emissions(Seq::<u8>::empty(), stream) =~= seq![frame]);
        } else if p <= 16 {
            assert(forall|i: int| 0 <= i < p ==> w[i] == noise1[i]);
            assert(forall|i: int| p <= i < 20 ==> w[i] == frame[i - p]);
            assert(has_sync_at(w, p)) by {
                assert(w.subrange(p, p + 4) =~= sync_marker());
            }
            assert forall|q: int| 0 <= q < p implies !has_sync_at(w, q) by {
                if has_sync_at(w, q) {
                    assert(w.subrange(q, q + 4)[0] == sync_marker()[0]);
                    assert(noise1[q] == sync_marker()[0]);
                }
            }
            lemma_find_sync_range(w, 0, p);
            assert(!emits(w));
            assert(next_retained(w) =~= frame.take(20 - p));
            let rest = stream.skip(20);
            assert(rest =~= frame.skip(20 - p) + noise2);
            let r2 = frame.take(20 - p);
            assert(r2.len() == 20 - p);
            assert(rest.len() >= p);
            let w2 = r2 + rest.take(p);
            assert(w2 =~= frame);
            lemma_frame_emits(frame);
            let rest2 = rest.skip(p);
            assert(rest2 =~= noise2);
            proof_marker_free_tail(noise2);
            assert(run_emissions(r2, rest) =~= seq![frame]);
            assert(run_emissions(Seq::<u8>::empty(), stream) == run_emissions(r2, rest));
        } else {
            let k = 20 - p;
            assert(1 <= k <= 3);
            assert(forall|i: int| 0 <= i < p ==> w[i] == noise1[i]);
            assert(forall|i: int| p <= i < 20 ==> w[i] == frame[i - p]);
            assert forall|q: int| 0 <= q <= 16 implies !has_sync_at(w, q) by {
                if has_sync_at(w, q) {
                    assert(w.subrange(q, q + 4)[0] == sync_marker()[0]);
                    assert(noise1[q] == sync_marker()[0]);
                }
            }
            lemma_find_sync_none(w, 0);
            if k == 3 {
                assert(w.subrange(17, 20) =~= sync_marker().subrange(0, 3));
                assert(tail_partial(w) == 3);
            } else if k == 2 {
                assert(w.subrange(17, 20) != sync_marker().subrange(0, 3)) by {
                    if w.subrange(17, 20) == sync_marker().subrange(0, 3) {
                        assert(w.subrange(17, 20)[0] == sync_marker().subrange(0, 3)[0]);
                        assert(noise1[17] == sync_marker()[0]);
                    }
                }
                assert(w.subrange(18, 20) =~= sync_marker().subrange(0, 2));
                assert(tail_partial(w) == 2);
            } else {
                assert(w.subrange(17, 20) != sync_marker().subrange(0, 3)) by {
                    if w.subrange(17, 20) == sync_marker().subrange(0, 3) {
                        assert(w.subrange(17, 20)[0] == sync_marker().subrange(0, 3)[0]);
                        assert(noise1[17] == sync_marker()[0]);
                    }
                }
                assert(w.subrange(18, 20) != sync_marker().subrange(0, 2)) by {
                    if w.subrange(18, 20) == sync_marker().subrange(0, 2) {
                        assert(w.subrange(18, 20)[0] == sync_marker().subrange(0, 2)[0]);
                        assert(noise1[18] == sync_marker()[0]);
                    }
                }
                assert(w[19] == frame[0]);
                assert(tail_partial(w) == 1);
            }
            assert(!emits(w));
            assert(next_retained(w) =~= frame.take(k));
            let rest = stream.skip(20);
            assert(rest =~= frame.skip(k) + noise2);
            let r2 = frame.take(k);
            assert(rest.len() >= p);
            let w2 = r2 + rest.take(p);
            assert(w2 =~= frame);
            lemma_frame_emits(frame);
            let rest2 = rest.skip(p);
            assert(rest2 =~= noise2);
            proof_marker_free_tail(noise2);
            assert(run_emissions(r2, rest) =~= seq![frame]);
            assert(run_emissions(Seq::<u8>::empty(), stream) == run_emissions(r2, rest));
        }
    }
}

/// State of the shared serial connection; `Disconnected` stands for the
/// cleared handle.
#[derive(Copy, Clone, Debug, PartialEq, Eq, Structural)]
pub enum ConnectionState {
    /// No open connection; the owning loop attempts to (re)connect.
    Disconnected,
    /// A connection is open and carries traffic.
    Connected,
}

/// What the last cycle of an I/O loop observed.
#[derive(Copy, Clone, Debug, PartialEq, Eq, Structural)]
pub enum LinkEvent {
    /// An attempt to open the device succeeded.
    ConnectSucceeded,
    /// An attempt to open the device failed; failure to open is
    /// recoverable, not fatal.
    ConnectFailed,
    /// A read or write on the open connection succeeded.
    TransferSucceeded,
    /// A read or write on the open connection failed; the handle must be
    /// dropped so either loop reconnects.
    TransferFailed,
}

/// The reconnect policy shared by the send and receive loops: a transfer
/// failure closes the connection, a successful open re-establishes it, and
/// everything else leaves the state alone.
pub fn next_connection_state(s: ConnectionState, e: LinkEvent) -> (r: ConnectionState)
    ensures
        r == ConnectionState::Connected <==> (s == ConnectionState::Connected && e
            != LinkEvent::TransferFailed) || (s == ConnectionState::Disconnected && e
            == LinkEvent::ConnectSucceeded),
{
    match (s, e) {
        (ConnectionState::Connected, LinkEvent::TransferFailed) => ConnectionState::Disconnected,
        (ConnectionState::Connected, _) => ConnectionState::Connected,
        (ConnectionState::Disconnected, LinkEvent::ConnectSucceeded) => ConnectionState::Connected,
        (ConnectionState::Disconnected, _) => ConnectionState::Disconnected,
    }
}

} // verus!

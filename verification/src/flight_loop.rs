//! The latency harness: pairs each received control sample with the
//! creation time of the telemetry sample it answers, discards an initial
//! sacrificial window while the link stabilises, records a fixed number of
//! round-trip durations, and emits them once, together with the cycle count
//! and wall-clock span of the measurement window, before going idle.

use vstd::prelude::*;

verus! {

/// One nanosecond short of the round trip that signals a logic error.
pub const MAX_CREDIBLE_LATENCY_NS: u64 = 1_000_000_000;

/// The record set the harness emits once, when its target count is
/// reached.
pub struct LatencyReport {
    /// One round-trip duration, in nanoseconds, per recorded sample.
    pub latencies: Vec<u64>,
    /// Engine cycles counted inside the measurement window.
    pub cycle_count: u64,
    /// Wall-clock span of the measurement window, in nanoseconds.
    pub elapsed_ns: u64,
}

/// What one observation did to the harness.
#[derive(Copy, Clone, Debug, PartialEq, Eq, Structural)]
pub enum Observation {
    /// The sample carried the epoch sentinel, repeated the previous
    /// timestamp, or arrived after the experiment concluded; ignored.
    Ignored,
    /// The clock reported a time before the sample's creation; the sample
    /// is skipped and nothing else changes.
    ClockAnomaly,
    /// The measured round trip was a second or more, which signals a logic
    /// error elsewhere; nothing is recorded and the caller must fail
    /// loudly.
    Excessive,
    /// The sample was counted: sacrificial samples advance the count only,
    /// measured ones are stored.
    Counted,
}

/// Ghost mirror of the harness state, over which the harness's law is
/// stated.
pub ghost struct HarnessModel {
    /// Recorded rows.
    pub rows: Seq<u64>,
    /// Samples counted so far, starting at `-sacrifice`.
    pub num: int,
    /// Timestamp of the last counted sample.
    pub last: u64,
    /// Number of initial samples discarded.
    pub sacrifice: int,
    /// Number of samples a report holds.
    pub target: int,
}

/// An observation the harness counts when it is not yet done: a real
/// timestamp, a clock that did not go backward, and a credible round trip.
pub open spec fn sane_obs(time: u64, now: u64) -> bool {
    &&& time != 0
    &&& now >= time
    &&& now - time < MAX_CREDIBLE_LATENCY_NS
}

/// One counted observation: sacrificial samples advance the count only,
/// measured ones are stored.
pub open spec fn step_counted(m: HarnessModel, time: u64, now: u64) -> HarnessModel {
    HarnessModel {
        rows: if m.num >= 0 {
            m.rows.push((now - time) as u64)
        } else {
            m.rows
        },
        num: m.num + 1,
        last: time,
        sacrifice: m.sacrifice,
        target: m.target,
    }
}

/// Whether the harness counts the observation at all.
pub open spec fn counts(m: HarnessModel, time: u64, now: u64) -> bool {
    &&& sane_obs(time, now)
    &&& time != m.last
    &&& m.num < m.target
}

/// One observation, counted or ignored.
pub open spec fn harness_step(m: HarnessModel, time: u64, now: u64) -> HarnessModel {
    if counts(m, time, now) {
        step_counted(m, time, now)
    } else {
        m
    }
}

/// The state after a whole sequence of observations.
pub open spec fn harness_run(m: HarnessModel, obs: Seq<(u64, u64)>) -> HarnessModel
    decreases obs.len(),
{
    if obs.len() == 0 {
        m
    } else {
        harness_run(harness_step(m, obs[0].0, obs[0].1), obs.drop_first())
    }
}

/// How many reports a sequence of observations makes the harness emit: one
/// for each observation whose count reaches the target.
pub open spec fn reports_emitted(m: HarnessModel, obs: Seq<(u64, u64)>) -> int
    decreases obs.len(),
{
    if obs.len() == 0 {
        0
    } else {
        (if counts(m, obs[0].0, obs[0].1) && m.num + 1 == m.target {
            1int
        } else {
            0int
        }) + reports_emitted(harness_step(m, obs[0].0, obs[0].1), obs.drop_first())
    }
}

/// The model a harness value denotes.
pub open spec fn model_of(h: LatencyHarness) -> HarnessModel {
    HarnessModel {
        rows: h.latencies@,
        num: h.num_latencies as int,
        last: h.last_time,
        sacrifice: h.sacrifice as int,
        target: h.target as int,
    }
}

/// The latency harness state machine.
pub struct LatencyHarness {
    /// Recorded round-trip durations, in nanoseconds.
    pub latencies: Vec<u64>,
    /// Samples counted so far, starting at `-(sacrifice)`; recording
    /// happens while it is in `[0, target)`, and `target` means done.
    pub num_latencies: i64,
    /// Timestamp of the last counted sample, to ignore duplicates.
    pub last_time: u64,
    /// Start of the measurement window.
    pub time_start: u64,
    /// Engine cycles observed inside the measurement window.
    pub cycle_count: u64,
    /// Number of initial samples discarded.
    pub sacrifice: usize,
    /// Number of samples a report holds.
    pub target: usize,
}

impl LatencyHarness {
    /// The count stays within its window and matches the stored rows.
    pub open spec fn wf(self) -> bool {
        &&& -(self.sacrifice as int) <= self.num_latencies <= self.target
        &&& self.latencies@.len() == (if self.num_latencies >= 0 {
            self.num_latencies as int
        } else {
            0
        })
        &&& self.target < 0x8000_0000_0000_0000
        &&& self.sacrifice < 0x8000_0000_0000_0000
        &&& self.cycle_count == self.latencies@.len()
    }

    /// The experiment has concluded; every later observation is ignored.
    pub open spec fn done(self) -> bool {
        self.num_latencies == self.target
    }

    /// A fresh harness that will discard `sacrifice` samples and then
    /// record `target`.
    pub fn new(sacrifice: usize, target: usize) -> (r: Self)
        requires
            sacrifice < 0x8000_0000_0000_0000,
            target < 0x8000_0000_0000_0000,
            target >= 1,
        ensures
            r.wf(),
            r.num_latencies == -(sacrifice as int),
            r.last_time == 0,
            r.cycle_count == 0,
            r.sacrifice == sacrifice,
            r.target == target,
            !r.done(),
    {
        LatencyHarness {
            latencies: Vec::new(),
            num_latencies: -(sacrifice as i64),
            last_time: 0,
            time_start: 0,
            cycle_count: 0,
            sacrifice,
            target,
        }
    }

    /// Feed one received control sample, carrying creation time `time_ns`,
    /// observed at wall-clock `now_ns`.  Returns what happened and, on the
    /// observation that completes the experiment, the report.
    pub fn observe(&mut self, time_ns: u64, now_ns: u64) -> (r: (Observation, Option<
        LatencyReport,
    >))
        requires
            old(self).wf(),
        ensures
            final(self).wf(),
            final(self).sacrifice == old(self).sacrifice,
            final(self).target == old(self).target,
            // the three no-change cases, each tied to its cause
            r.0 == Observation::Ignored <==> (time_ns == 0 || time_ns == old(self).last_time
                || old(self).done()),
            r.0 == Observation::ClockAnomaly <==> (time_ns != 0 && time_ns != old(
                self,
            ).last_time && !old(self).done() && now_ns < time_ns),
            r.0 == Observation::Excessive <==> (time_ns != 0 && time_ns != old(self).last_time
                && !old(self).done() && now_ns >= time_ns && now_ns - time_ns
                >= MAX_CREDIBLE_LATENCY_NS),
            (r.0 == Observation::Ignored || r.0 == Observation::ClockAnomaly || r.0
                == Observation::Excessive) ==> *final(self) == *old(self),
            // the counting case
            r.0 == Observation::Counted ==> {
                &&& final(self).num_latencies == old(self).num_latencies + 1
                &&& final(self).last_time == time_ns
                &&& final(self).latencies@ == (if old(self).num_latencies >= 0 {
                    old(self).latencies@.push((now_ns - time_ns) as u64)
                } else {
                    old(self).latencies@
                })
                &&& final(self).cycle_count == (if old(self).num_latencies >= 0 {
                    old(self).cycle_count as int + 1
                } else {
                    old(self).cycle_count as int
                })
            },
            // the report appears exactly when the target is reached
            r.1 is Some <==> (r.0 == Observation::Counted && old(self).num_latencies + 1 == old(
                self,
            ).target),
            r.1 matches Some(rep) ==> {
                &&& rep.latencies@ == final(self).latencies@
                &&& rep.latencies@.len() == old(self).target
                &&& rep.cycle_count == final(self).cycle_count
                &&& rep.elapsed_ns == (if now_ns >= final(self).time_start {
                    now_ns - final(self).time_start
                } else {
                    0
                })
            },
            r.0 == Observation::Counted <==> counts(model_of(*old(self)), time_ns, now_ns),
            r.0 == Observation::Counted ==> final(self).time_start == (if old(self).num_latencies
                == 0 {
                now_ns
            } else {
                old(self).time_start
            }),
            // the harness follows its ghost state machine
            model_of(*final(self)) == harness_step(model_of(*old(self)), time_ns, now_ns),
            r.1 is Some <==> (counts(model_of(*old(self)), time_ns, now_ns) && model_of(
                *old(self),
            ).num + 1 == old(self).target),
    {
        if time_ns == 0 || time_ns == self.last_time || self.num_latencies >= self.target as i64 {
            return (Observation::Ignored, None);
        }
        if now_ns < time_ns {
            return (Observation::ClockAnomaly, None);
        }
        let dur: u64 = now_ns - time_ns;
        if dur >= MAX_CREDIBLE_LATENCY_NS {
            return (Observation::Excessive, None);
        }
        if self.num_latencies >= 0 {
            self.latencies.push(dur);
            if self.num_latencies == 0 {
                self.time_start = now_ns;
            }
            self.cycle_count = self.cycle_count + 1;
        }
        self.num_latencies = self.num_latencies + 1;
        self.last_time = time_ns;
        if self.num_latencies == self.target as i64 {
            let mut rows: Vec<u64> = Vec::new();
            let mut i: usize = 0;
            while i < self.latencies.len()
                invariant
                    i <= self.latencies@.len(),
                    rows@ == self.latencies@.subrange(0, i as int),
                decreases self.latencies@.len() - i,
            {
                rows.push(self.latencies[i]);
                proof {
                    assert(rows@ =~= self.latencies@.subrange(0, i + 1));
                }
                i = i + 1;
            }
            proof {
                assert(rows@ =~= self.latencies@);
            }
            let elapsed: u64 = if now_ns >= self.time_start {
                now_ns - self.time_start
            } else {
                0
            };
            let report = LatencyReport {
                latencies: rows,
                cycle_count: self.cycle_count,
                elapsed_ns: elapsed,
            };
            (Observation::Counted, Some(report))
        } else {
            (Observation::Counted, None)
        }
    }
}

/// Running the harness from any well-formed state: the count advances by
/// one per counted observation up to the target and then freezes, the
/// stored rows track the count, and a report is emitted exactly once, on
/// the observation that reaches the target.
proof fn lemma_harness_run_general(m: HarnessModel, obs: Seq<(u64, u64)>)
    requires
        -m.sacrifice <= m.num <= m.target,
        m.rows.len() == (if m.num >= 0 {
            m.num
        } else {
            0
        }),
        m.target >= 1,
        m.sacrifice >= 0,
        forall|i: int| 0 <= i < obs.len() ==> sane_obs(#[trigger] obs[i].0, obs[i].1),
        obs.len() > 0 && m.num < m.target ==> obs[0].0 != m.last,
        forall|i: int| 1 <= i < obs.len() ==> #[trigger] obs[i].0 != obs[i - 1].0,
    ensures
        harness_run(m, obs).target == m.target,
        harness_run(m, obs).sacrifice == m.sacrifice,
        harness_run(m, obs).num == (if m.num + obs.len() <= m.target {
            m.num + obs.len()
        } else {
            m.target
        }),
        harness_run(m, obs).rows.len() == (if m.num + obs.len() <= m.target {
            if m.num + obs.len() >= 0 {
                m.num + obs.len()
            } else {
                0
            }
        } else {
            m.target
        }),
        reports_emitted(m, obs) == (if m.num < m.target && m.num + obs.len() >= m.target {
            1int
        } else {
            0int
        }),
    decreases obs.len(),
{
    if obs.len() > 0 {
        let t = obs[0].0;
        let n = obs[0].1;
        let m2 = harness_step(m, t, n);
        let rest = obs.drop_first();
        assert(forall|i: int| 0 <= i < rest.len() ==> rest[i] == obs[i + 1]);
        if m.num < m.target {
            assert(counts(m, t, n));
            assert(m2 == step_counted(m, t, n));
            if rest.len() > 0 && m2.num < m2.target {
                assert(rest[0].0 == obs[1].0);
                assert(obs[1].0 != obs[0].0);
            }
        } else {
            assert(!counts(m, t, n));
            assert(m2 == m);
        }
        lemma_harness_run_general(m2, rest);
    }
}

/// The harness's completion law: started fresh with a sacrificial window
/// of `sacrifice` and a target of `target`, and fed sane observations with
/// consecutively distinct timestamps, the harness emits exactly one report
/// — on the observation number `sacrifice + target` — holding exactly
/// `target` rows; observations beyond that change nothing and emit
/// nothing, however many there are.
pub proof fn lemma_harness_report_once(m: HarnessModel, obs: Seq<(u64, u64)>)
    requires
        m.num == -m.sacrifice,
        m.rows.len() == 0,
        m.last == 0,
        m.sacrifice >= 0,
        m.target >= 1,
        forall|i: int| 0 <= i < obs.len() ==> sane_obs(#[trigger] obs[i].0, obs[i].1),
        forall|i: int| 1 <= i < obs.len() ==> #[trigger] obs[i].0 != obs[i - 1].0,
    ensures
        reports_emitted(m, obs) == (if obs.len() >= m.sacrifice + m.target {
            1int
        } else {
            0int
        }),
        harness_run(m, obs).rows.len() == (if obs.len() >= m.sacrifice + m.target {
            m.target
        } else if obs.len() >= m.sacrifice {
            obs.len() - m.sacrifice
        } else {
            0
        }),
{
    if obs.len() > 0 {
        assert(sane_obs(obs[0].0, obs[0].1));
        assert(obs[0].0 != 0);
    }
    lemma_harness_run_general(m, obs);
}

} // verus!

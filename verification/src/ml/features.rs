//! Features for routing and congestion control, taken from round-trip times,
//! transfer outcomes and transport metrics.
use crate::linear_map::{lemma_entries_contains, lemma_entries_value, LinearMap};
use crate::ml::float_bits::{F32Bits, ZERO};
use crate::ml::{texts, Feature, FeatureVector, SignedRatio};
use crate::ratio::Ratio;
use crate::ring::{Location, PeerKeyLocation};
use crate::time::{Duration, Instant};
use chrono::{Datelike, Timelike};
use vstd::prelude::*;

verus! {

/// Samples kept per peer.
pub const MAX_PEER_SAMPLES: usize = 100;

/// Samples kept for the network as a whole.
pub const MAX_NETWORK_SAMPLES: usize = 1000;

/// Samples per window when trends are taken.
pub const TREND_WINDOW: usize = 10;

/// Nanoseconds of a second.
pub const SECOND_NANOS: u128 = 1_000_000_000;

/// Nanoseconds of a millisecond, the unit in which trends are taken.
pub const QUICK_NANOS: u128 = 1_000_000;

/// Nanoseconds of an hour.
pub const HOUR_NANOS: u128 = 3_600_000_000_000;

/// The longest round trip that is accounted for, in nanoseconds; longer ones count
/// as this one.
pub const MAX_RTT_NANOS: u128 = 0xffff_ffff_ffff_ffff;

// ---------------------------------------------------------------------------
// Samples
// ---------------------------------------------------------------------------

/// A sequence with one more element at its end; where there is no room for it,
/// the first one leaves.
pub open spec fn push_bounded<T>(s: Seq<T>, x: T, max: nat) -> Seq<T> {
    if s.len() + 1 > max {
        s.push(x).subrange(1, s.len() + 1 as int)
    } else {
        s.push(x)
    }
}

/// Appends an element and lets the first one leave where there is no room.
pub fn push_sample<T>(v: &mut Vec<T>, x: T, max: usize)
    ensures
        final(v)@ == push_bounded(old(v)@, x, max as nat),
{
    v.push(x);
    if v.len() > max {
        v.remove(0);
        assert(v@ =~= push_bounded(old(v)@, x, max as nat));
    }
}

/// A round trip as it is accounted for.
pub open spec fn accounted_spec(rtt: Duration) -> Duration {
    if rtt.nanos > MAX_RTT_NANOS {
        Duration { nanos: MAX_RTT_NANOS }
    } else {
        rtt
    }
}

/// A round trip as it is accounted for.
pub fn accounted(rtt: Duration) -> (d: Duration)
    ensures
        d == accounted_spec(rtt),
{
    if rtt.nanos > MAX_RTT_NANOS {
        Duration { nanos: MAX_RTT_NANOS }
    } else {
        rtt
    }
}

/// The nanoseconds of some spans taken together.
pub open spec fn total_nanos(s: Seq<Duration>) -> nat
    decreases s.len(),
{
    if s.len() == 0 {
        0
    } else {
        total_nanos(s.drop_last()) + s.last().nanos as nat
    }
}

/// The average of some spans in whole nanoseconds, rounded down.
pub open spec fn mean_nanos(s: Seq<Duration>) -> nat {
    if s.len() == 0 {
        0
    } else {
        total_nanos(s) / s.len()
    }
}

/// How many of some outcomes were good.
pub open spec fn count_true(s: Seq<bool>) -> nat
    decreases s.len(),
{
    if s.len() == 0 {
        0
    } else {
        count_true(s.drop_last()) + (if s.last() {
            1nat
        } else {
            0nat
        })
    }
}

/// The squared deviations of some spans from a mean, in milliseconds, summed.
pub open spec fn squared_deviation(s: Seq<Duration>, mean_ms: int) -> int
    decreases s.len(),
{
    if s.len() == 0 {
        0
    } else {
        let d = s.last().nanos / 1_000_000 - mean_ms;
        squared_deviation(s.drop_last(), mean_ms) + d * d
    }
}

/// Every span is one that is accounted for.
pub open spec fn bounded_spans(s: Seq<Duration>) -> bool {
    forall|i: int| 0 <= i < s.len() ==> (#[trigger] s[i]).nanos <= MAX_RTT_NANOS
}

proof fn lemma_total_bound(s: Seq<Duration>)
    requires
        bounded_spans(s),
    ensures
        total_nanos(s) <= s.len() * MAX_RTT_NANOS,
    decreases s.len(),
{
    if s.len() > 0 {
        assert(bounded_spans(s.drop_last()));
        lemma_total_bound(s.drop_last());
        assert(s.last().nanos <= MAX_RTT_NANOS);
        assert(s.len() * MAX_RTT_NANOS == (s.len() - 1) * MAX_RTT_NANOS + MAX_RTT_NANOS)
            by (nonlinear_arith);
    }
}

/// The mean of spans that are accounted for is one too.
proof fn lemma_mean_bound(s: Seq<Duration>)
    requires
        bounded_spans(s),
    ensures
        mean_nanos(s) <= MAX_RTT_NANOS,
{
    if s.len() > 0 {
        lemma_total_bound(s);
        let t = total_nanos(s) as int;
        let n = s.len() as int;
        assert(t / n <= MAX_RTT_NANOS) by (nonlinear_arith)
            requires
                t <= n * MAX_RTT_NANOS,
                n > 0,
        ;
    }
}

fn sum_spans(s: &Vec<Duration>, from: usize, to: usize) -> (total: u128)
    requires
        bounded_spans(s@),
        from <= to <= s@.len(),
        to - from <= MAX_NETWORK_SAMPLES,
    ensures
        total == total_nanos(s@.subrange(from as int, to as int)),
{
    let mut total: u128 = 0;
    let mut i: usize = from;
    assert(s@.subrange(from as int, from as int) =~= Seq::<Duration>::empty());
    while i < to
        invariant
            from <= i <= to <= s@.len(),
            to - from <= MAX_NETWORK_SAMPLES,
            bounded_spans(s@),
            total == total_nanos(s@.subrange(from as int, i as int)),
            total <= (i - from) * MAX_RTT_NANOS,
        decreases to - i,
    {
        assert((i - from) * MAX_RTT_NANOS <= 1000 * MAX_RTT_NANOS) by (nonlinear_arith)
            requires
                i - from <= 1000,
        ;
        assert((i + 1 - from) * MAX_RTT_NANOS == (i - from) * MAX_RTT_NANOS + MAX_RTT_NANOS)
            by (nonlinear_arith);
        assert(s@[i as int].nanos <= MAX_RTT_NANOS);
        total = total + s[i].nanos;
        i += 1;
        assert(s@.subrange(from as int, i as int).drop_last() =~= s@.subrange(
            from as int,
            i - 1,
        ));
    }
    total
}

/// The average of some spans.
fn mean_span(s: &Vec<Duration>, from: usize, to: usize) -> (d: Duration)
    requires
        bounded_spans(s@),
        from < to <= s@.len(),
        to - from <= MAX_NETWORK_SAMPLES,
    ensures
        d.nanos == mean_nanos(s@.subrange(from as int, to as int)),
        d.nanos <= MAX_RTT_NANOS,
{
    proof {
        assert(bounded_spans(s@.subrange(from as int, to as int)));
        lemma_mean_bound(s@.subrange(from as int, to as int));
    }
    let total: u128 = sum_spans(s, from, to);
    Duration { nanos: total / ((to - from) as u128) }
}

/// The number of good outcomes among some.
fn count_good(s: &Vec<bool>, from: usize, to: usize) -> (n: usize)
    requires
        from <= to <= s@.len(),
    ensures
        n == count_true(s@.subrange(from as int, to as int)),
        n <= to - from,
{
    let mut n: usize = 0;
    let mut i: usize = from;
    assert(s@.subrange(from as int, from as int) =~= Seq::<bool>::empty());
    while i < to
        invariant
            from <= i <= to <= s@.len(),
            n == count_true(s@.subrange(from as int, i as int)),
            n <= i - from,
        decreases to - i,
    {
        if s[i] {
            n += 1;
        }
        i += 1;
        assert(s@.subrange(from as int, i as int).drop_last() =~= s@.subrange(from as int, i - 1));
    }
    n
}

/// The variance of some spans around a mean, in milliseconds.
fn variance_ms(s: &Vec<Duration>, mean_ms: u128) -> (r: Ratio)
    requires
        bounded_spans(s@),
        0 < s@.len() <= MAX_NETWORK_SAMPLES,
        mean_ms <= MAX_RTT_NANOS / 1_000_000,
    ensures
        r.numer == squared_deviation(s@, mean_ms as int),
        r.denom == s@.len(),
{
    let mut sum: u128 = 0;
    let mut i: usize = 0;
    let ghost bound: int = 18_446_744_073_709int * 18_446_744_073_709int;
    assert(s@.subrange(0, 0) =~= Seq::<Duration>::empty());
    while i < s.len()
        invariant
            i <= s@.len() <= MAX_NETWORK_SAMPLES,
            bounded_spans(s@),
            mean_ms <= 18_446_744_073_709,
            bound == 18_446_744_073_709int * 18_446_744_073_709int,
            sum == squared_deviation(s@.subrange(0, i as int), mean_ms as int),
            sum <= i * bound,
        decreases s@.len() - i,
    {
        assert(s@[i as int].nanos <= MAX_RTT_NANOS);
        let ms: u128 = s[i].nanos / 1_000_000;
        let d: u128 = if ms >= mean_ms {
            ms - mean_ms
        } else {
            mean_ms - ms
        };
        proof {
            let e = ms - mean_ms;
            assert(d * d == e * e) by (nonlinear_arith)
                requires
                    d == e || d == -e,
            ;
            assert(d * d <= bound) by (nonlinear_arith)
                requires
                    0 <= d <= 18_446_744_073_709,
                    bound == 18_446_744_073_709int * 18_446_744_073_709int,
            ;
            assert(i * bound <= 1000 * bound) by (nonlinear_arith)
                requires
                    i <= 1000,
                    bound >= 0,
            ;
            assert((i + 1) * bound == i * bound + bound) by (nonlinear_arith);
        }
        sum = sum + d * d;
        i += 1;
        assert(s@.subrange(0, i as int).drop_last() =~= s@.subrange(0, i - 1));
    }
    assert(s@.subrange(0, s@.len() as int) =~= s@);
    Ratio { numer: sum, denom: s.len() as u128 }
}

// ---------------------------------------------------------------------------
// A peer's history
// ---------------------------------------------------------------------------

/// What the past of a peer amounts to.
#[derive(Clone, Copy, Debug, PartialEq, Eq, Structural)]
pub struct PeerSummary {
    pub avg_rtt: Duration,
    pub success_rate: Ratio,
    pub avg_bandwidth: Ratio,
    pub packet_loss_rate: Feature,
    pub recent_rtt_trend: SignedRatio,
    pub recent_success_trend: SignedRatio,
    pub connection_stability: Feature,
    pub uptime_hours: Ratio,
}

/// What is said of a peer without a past.
pub open spec fn no_past() -> PeerSummary {
    PeerSummary {
        avg_rtt: Duration { nanos: 0 },
        success_rate: Ratio { numer: 0, denom: 1 },
        avg_bandwidth: Ratio { numer: 0, denom: 1 },
        packet_loss_rate: Feature::Single(F32Bits { bits: ZERO }),
        recent_rtt_trend: SignedRatio { numer: 0, denom: 1 },
        recent_success_trend: SignedRatio { numer: 0, denom: 1 },
        connection_stability: Feature::Single(F32Bits { bits: ZERO }),
        uptime_hours: Ratio { numer: 0, denom: 1 },
    }
}

/// The past of a peer.
#[derive(Debug)]
pub struct PeerPerformanceHistory {
    /// Average round trip.
    pub avg_rtt: Duration,
    /// Share of good outcomes.
    pub success_rate: Ratio,
    /// Bytes per second.
    pub avg_bandwidth: Ratio,
    /// Share of bad outcomes.
    pub packet_loss_rate: Feature,
    /// Positive where round trips get shorter.
    pub recent_rtt_trend: SignedRatio,
    /// Positive where outcomes get better.
    pub recent_success_trend: SignedRatio,
    /// Near one where round trips vary little.
    pub connection_stability: Feature,
    pub uptime_hours: Ratio,
    pub last_updated: Instant,
    pub rtt_samples: Vec<Duration>,
    pub success_samples: Vec<bool>,
    pub total_bytes: u64,
    pub total_samples: usize,
}

/// A trend held between minus one and one. Where the earlier value is zero, the
/// trend is minus one after any later value but zero, and no number after zero.
pub open spec fn relative_trend(earlier: int, later: int) -> SignedRatio {
    if earlier == 0 {
        if later == 0 {
            SignedRatio { numer: 0, denom: 0 }
        } else {
            SignedRatio { numer: (-1) as i128, denom: 1 }
        }
    } else if earlier - later < -earlier {
        SignedRatio { numer: (-1) as i128, denom: 1 }
    } else {
        SignedRatio { numer: (earlier - later) as i128, denom: earlier as u128 }
    }
}

/// The window of samples that ends a number of samples before the end.
pub open spec fn window<T>(s: Seq<T>, back: int) -> Seq<T> {
    s.subrange(s.len() - back - TREND_WINDOW, s.len() - back)
}

/// The trend of round trips: the last window against the one before, in
/// milliseconds.
pub open spec fn rtt_trend_of(s: Seq<Duration>) -> SignedRatio {
    relative_trend(
        mean_nanos(window(s, TREND_WINDOW as int)) as int / 1_000_000,
        mean_nanos(window(s, 0)) as int / 1_000_000,
    )
}

/// The trend of outcomes: the share of good ones in the last window less that
/// in the one before.
pub open spec fn success_trend_of(s: Seq<bool>) -> SignedRatio {
    SignedRatio {
        numer: (count_true(window(s, 0)) - count_true(window(s, TREND_WINDOW as int))) as i128,
        denom: TREND_WINDOW as u128,
    }
}

/// The average round trip of a peer after a sample, and what follows from it.
pub open spec fn summary_after(
    before: PeerSummary,
    rtts: Seq<Duration>,
    outcomes: Seq<bool>,
    total_bytes: int,
    elapsed: Duration,
) -> PeerSummary {
    let success_rate = Ratio {
        numer: count_true(outcomes) as u128,
        denom: outcomes.len() as u128,
    };
    let mean = mean_nanos(rtts);
    PeerSummary {
        avg_rtt: Duration { nanos: mean as u128 },
        success_rate,
        avg_bandwidth: if elapsed.nanos > 0 {
            Ratio { numer: (total_bytes * SECOND_NANOS) as u128, denom: elapsed.nanos }
        } else {
            before.avg_bandwidth
        },
        packet_loss_rate: Feature::Complement(success_rate),
        recent_rtt_trend: if rtts.len() >= 2 * TREND_WINDOW {
            rtt_trend_of(rtts)
        } else {
            before.recent_rtt_trend
        },
        recent_success_trend: if outcomes.len() >= 2 * TREND_WINDOW {
            success_trend_of(outcomes)
        } else {
            before.recent_success_trend
        },
        connection_stability: if rtts.len() > 1 {
            Feature::Stability {
                variance: Ratio {
                    numer: squared_deviation(rtts, mean as int / 1_000_000) as u128,
                    denom: rtts.len() as u128,
                },
                mean_ms: (mean as int / 1_000_000) as u128,
            }
        } else {
            before.connection_stability
        },
        uptime_hours: if elapsed.nanos > 0 {
            Ratio { numer: elapsed.nanos, denom: HOUR_NANOS }
        } else {
            before.uptime_hours
        },
    }
}

impl PeerPerformanceHistory {
    /// As many outcomes as round trips, none of them beyond what is kept.
    pub open spec fn wf(&self) -> bool {
        &&& self.rtt_samples@.len() <= MAX_PEER_SAMPLES
        &&& self.success_samples@.len() == self.rtt_samples@.len()
        &&& bounded_spans(self.rtt_samples@)
        &&& self.avg_rtt.nanos <= MAX_RTT_NANOS
    }

    /// What the past amounts to.
    pub open spec fn summary_spec(&self) -> PeerSummary {
        PeerSummary {
            avg_rtt: self.avg_rtt,
            success_rate: self.success_rate,
            avg_bandwidth: self.avg_bandwidth,
            packet_loss_rate: self.packet_loss_rate,
            recent_rtt_trend: self.recent_rtt_trend,
            recent_success_trend: self.recent_success_trend,
            connection_stability: self.connection_stability,
            uptime_hours: self.uptime_hours,
        }
    }

    /// The trends lie between minus one and one, and no round trip took less than a
    /// millisecond.
    pub open spec fn steady(&self) -> bool {
        &&& bounded_trend(self.recent_rtt_trend)
        &&& bounded_trend(self.recent_success_trend)
        &&& no_quick_trips(self.rtt_samples@)
    }

    /// A sample can be taken: the counters have room.
    pub open spec fn accepts(&self, bytes_transferred: u64) -> bool {
        &&& self.total_bytes + bytes_transferred <= u64::MAX
        &&& self.total_samples < usize::MAX
    }

    /// Takes a sample. `elapsed` is how long ago `now` was read.
    pub fn update(
        &mut self,
        rtt: Duration,
        success: bool,
        bytes_transferred: u64,
        now: Instant,
        elapsed: Duration,
    )
        requires
            old(self).wf(),
            old(self).accepts(bytes_transferred),
        ensures
            final(self).wf(),
            old(self).steady() && rtt.nanos >= QUICK_NANOS ==> final(self).steady(),
            final(self).last_updated == now,
            final(self).total_samples == old(self).total_samples + 1,
            final(self).total_bytes == old(self).total_bytes + bytes_transferred,
            final(self).rtt_samples@ == push_bounded(
                old(self).rtt_samples@,
                accounted_spec(rtt),
                MAX_PEER_SAMPLES as nat,
            ),
            final(self).success_samples@ == push_bounded(
                old(self).success_samples@,
                success,
                MAX_PEER_SAMPLES as nat,
            ),
            final(self).summary_spec() == summary_after(
                old(self).summary_spec(),
                final(self).rtt_samples@,
                final(self).success_samples@,
                final(self).total_bytes as int,
                elapsed,
            ),
    {
        self.last_updated = now;
        self.total_samples = self.total_samples + 1;
        self.total_bytes = self.total_bytes + bytes_transferred;
        push_sample(&mut self.rtt_samples, accounted(rtt), MAX_PEER_SAMPLES);
        push_sample(&mut self.success_samples, success, MAX_PEER_SAMPLES);
        self.update_averages(elapsed);
        self.update_trends();
    }

    fn update_averages(&mut self, elapsed: Duration)
        requires
            old(self).wf(),
            old(self).rtt_samples@.len() > 0,
        ensures
            final(self).wf(),
            final(self).last_updated == old(self).last_updated,
            final(self).total_samples == old(self).total_samples,
            final(self).total_bytes == old(self).total_bytes,
            final(self).rtt_samples == old(self).rtt_samples,
            final(self).success_samples == old(self).success_samples,
            final(self).summary_spec() == (PeerSummary {
                recent_rtt_trend: old(self).recent_rtt_trend,
                recent_success_trend: old(self).recent_success_trend,
                ..summary_after(
                    old(self).summary_spec(),
                    old(self).rtt_samples@,
                    old(self).success_samples@,
                    old(self).total_bytes as int,
                    elapsed,
                )
            }),
    {
        let count: usize = self.rtt_samples.len();
        assert(self.rtt_samples@.subrange(0, count as int) =~= self.rtt_samples@);
        assert(self.success_samples@.subrange(0, count as int) =~= self.success_samples@);
        self.avg_rtt = mean_span(&self.rtt_samples, 0, count);
        let successes: usize = count_good(&self.success_samples, 0, count);
        self.success_rate = Ratio { numer: successes as u128, denom: count as u128 };
        if elapsed.nanos > 0 {
            let bytes: u128 = self.total_bytes as u128;
            assert(bytes * SECOND_NANOS <= u128::MAX) by (nonlinear_arith)
                requires
                    bytes <= 0xffff_ffff_ffff_ffff,
            ;
            self.avg_bandwidth = Ratio { numer: bytes * SECOND_NANOS, denom: elapsed.nanos };
            self.uptime_hours = Ratio { numer: elapsed.nanos, denom: HOUR_NANOS };
        }
        self.packet_loss_rate = Feature::Complement(self.success_rate);
        if count > 1 {
            let mean_ms: u128 = self.avg_rtt.nanos / 1_000_000;
            let variance = variance_ms(&self.rtt_samples, mean_ms);
            self.connection_stability = Feature::Stability { variance, mean_ms };
        }
    }

    /// Takes the trends anew, where there are samples for two windows. All else stays
    /// as it is.
    pub fn update_trends(&mut self)
        requires
            old(self).wf(),
        ensures
            final(self).wf(),
            old(self).steady() ==> final(self).steady(),
            final(self).last_updated == old(self).last_updated,
            final(self).total_samples == old(self).total_samples,
            final(self).total_bytes == old(self).total_bytes,
            final(self).rtt_samples == old(self).rtt_samples,
            final(self).success_samples == old(self).success_samples,
            final(self).summary_spec() == (PeerSummary {
                recent_rtt_trend: if old(self).rtt_samples@.len() >= 2 * TREND_WINDOW {
                    rtt_trend_of(old(self).rtt_samples@)
                } else {
                    old(self).recent_rtt_trend
                },
                recent_success_trend: if old(self).success_samples@.len() >= 2 * TREND_WINDOW {
                    success_trend_of(old(self).success_samples@)
                } else {
                    old(self).recent_success_trend
                },
                ..old(self).summary_spec()
            }),
    {
        let n: usize = self.rtt_samples.len();
        if n < 2 * TREND_WINDOW {
            return;
        }
        proof {
            if self.steady() {
                lemma_trends_bounded(self.rtt_samples@, self.success_samples@);
            }
        }
        let recent = mean_span(&self.rtt_samples, n - TREND_WINDOW, n);
        let older = mean_span(&self.rtt_samples, n - 2 * TREND_WINDOW, n - TREND_WINDOW);
        self.recent_rtt_trend =
        relative_change(older.nanos / 1_000_000, recent.nanos / 1_000_000);
        let recent_good: usize = count_good(&self.success_samples, n - TREND_WINDOW, n);
        let older_good: usize = count_good(
            &self.success_samples,
            n - 2 * TREND_WINDOW,
            n - TREND_WINDOW,
        );
        self.recent_success_trend =
        SignedRatio {
            numer: recent_good as i128 - older_good as i128,
            denom: TREND_WINDOW as u128,
        };
    }

    /// What the past amounts to.
    pub fn summary(&self) -> (s: PeerSummary)
        ensures
            s == self.summary_spec(),
    {
        PeerSummary {
            avg_rtt: self.avg_rtt,
            success_rate: self.success_rate,
            avg_bandwidth: self.avg_bandwidth,
            packet_loss_rate: self.packet_loss_rate,
            recent_rtt_trend: self.recent_rtt_trend,
            recent_success_trend: self.recent_success_trend,
            connection_stability: self.connection_stability,
            uptime_hours: self.uptime_hours,
        }
    }
}

fn relative_change(earlier: u128, later: u128) -> (r: SignedRatio)
    requires
        earlier <= MAX_RTT_NANOS,
        later <= MAX_RTT_NANOS,
    ensures
        r == relative_trend(earlier as int, later as int),
{
    if earlier == 0 {
        if later == 0 {
            SignedRatio { numer: 0, denom: 0 }
        } else {
            SignedRatio { numer: -1, denom: 1 }
        }
    } else if later > 2 * earlier {
        SignedRatio { numer: -1, denom: 1 }
    } else {
        SignedRatio { numer: earlier as i128 - later as i128, denom: earlier }
    }
}

impl Default for PeerPerformanceHistory {
    fn default() -> (h: Self)
        ensures
            h.wf(),
            h.steady(),
            h.summary_spec() == no_past(),
            h.last_updated.nanos == 0,
            h.rtt_samples@.len() == 0,
            h.success_samples@.len() == 0,
            h.total_bytes == 0,
            h.total_samples == 0,
    {
        let s = empty_summary();
        PeerPerformanceHistory {
            avg_rtt: s.avg_rtt,
            success_rate: s.success_rate,
            avg_bandwidth: s.avg_bandwidth,
            packet_loss_rate: s.packet_loss_rate,
            recent_rtt_trend: s.recent_rtt_trend,
            recent_success_trend: s.recent_success_trend,
            connection_stability: s.connection_stability,
            uptime_hours: s.uptime_hours,
            last_updated: Instant { nanos: 0 },
            rtt_samples: Vec::new(),
            success_samples: Vec::new(),
            total_bytes: 0,
            total_samples: 0,
        }
    }
}

fn empty_summary() -> (s: PeerSummary)
    ensures
        s == no_past(),
{
    PeerSummary {
        avg_rtt: Duration { nanos: 0 },
        success_rate: Ratio { numer: 0, denom: 1 },
        avg_bandwidth: Ratio { numer: 0, denom: 1 },
        packet_loss_rate: Feature::Single(F32Bits { bits: ZERO }),
        recent_rtt_trend: SignedRatio { numer: 0, denom: 1 },
        recent_success_trend: SignedRatio { numer: 0, denom: 1 },
        connection_stability: Feature::Single(F32Bits { bits: ZERO }),
        uptime_hours: Ratio { numer: 0, denom: 1 },
    }
}

proof fn lemma_count_true_bound(s: Seq<bool>)
    ensures
        count_true(s) <= s.len(),
    decreases s.len(),
{
    if s.len() > 0 {
        lemma_count_true_bound(s.drop_last());
    }
}

/// No round trip took less than a millisecond.
pub open spec fn no_quick_trips(s: Seq<Duration>) -> bool {
    forall|i: int| 0 <= i < s.len() ==> (#[trigger] s[i]).nanos >= QUICK_NANOS
}

/// A trend lies between minus one and one.
pub open spec fn bounded_trend(r: SignedRatio) -> bool {
    r.denom > 0 && -(r.denom as int) <= r.numer <= r.denom
}

/// With round trips of at least a millisecond the trends of a peer lie between minus
/// one and one after every sample, where they did before it.
pub proof fn trends_are_bounded(
    before: PeerSummary,
    rtts: Seq<Duration>,
    outcomes: Seq<bool>,
    total_bytes: int,
    elapsed: Duration,
)
    requires
        bounded_trend(before.recent_rtt_trend),
        bounded_trend(before.recent_success_trend),
        bounded_spans(rtts),
        no_quick_trips(rtts),
    ensures
        ({
            let after = summary_after(before, rtts, outcomes, total_bytes, elapsed);
            bounded_trend(after.recent_rtt_trend) && bounded_trend(after.recent_success_trend)
        }),
        bounded_trend(no_past().recent_rtt_trend),
        bounded_trend(no_past().recent_success_trend),
{
    lemma_trends_bounded(rtts, outcomes);
}

/// The trends of samples lie between minus one and one, where no round trip took less
/// than a millisecond.
proof fn lemma_trends_bounded(rtts: Seq<Duration>, outcomes: Seq<bool>)
    requires
        bounded_spans(rtts),
        no_quick_trips(rtts),
    ensures
        rtts.len() >= 2 * TREND_WINDOW ==> bounded_trend(rtt_trend_of(rtts)),
        outcomes.len() >= 2 * TREND_WINDOW ==> bounded_trend(success_trend_of(outcomes)),
{
    if rtts.len() >= 2 * TREND_WINDOW {
        let older = window(rtts, TREND_WINDOW as int);
        let recent = window(rtts, 0);
        assert(bounded_spans(older) && bounded_spans(recent));
        lemma_mean_bound(older);
        lemma_mean_bound(recent);
        assert forall|i: int| 0 <= i < older.len() implies (#[trigger] older[i]).nanos
            >= 1_000_000 by {
            assert(older[i] == rtts[rtts.len() - 2 * TREND_WINDOW + i]);
        }
        lemma_total_floor(older);
        let t = total_nanos(older) as int;
        assert(t / 10 >= 1_000_000) by (nonlinear_arith)
            requires
                t >= 10 * 1_000_000,
        ;
    }
    if outcomes.len() >= 2 * TREND_WINDOW {
        lemma_count_true_bound(window(outcomes, 0));
        lemma_count_true_bound(window(outcomes, TREND_WINDOW as int));
    }
}

proof fn lemma_total_floor(s: Seq<Duration>)
    requires
        no_quick_trips(s),
    ensures
        total_nanos(s) >= s.len() * 1_000_000,
    decreases s.len(),
{
    if s.len() > 0 {
        assert forall|i: int| 0 <= i < s.drop_last().len() implies (
        #[trigger] s.drop_last()[i]).nanos >= 1_000_000 by {
            assert(s.drop_last()[i] == s[i]);
        }
        lemma_total_floor(s.drop_last());
        assert(s.last() == s[s.len() - 1]);
    }
}

/// A share of good outcomes lies between zero and one.
pub proof fn success_rate_is_a_share(
    before: PeerSummary,
    rtts: Seq<Duration>,
    outcomes: Seq<bool>,
    total_bytes: int,
    elapsed: Duration,
)
    requires
        0 < outcomes.len() <= MAX_PEER_SAMPLES,
    ensures
        ({
            let r = summary_after(before, rtts, outcomes, total_bytes, elapsed).success_rate;
            r.wf() && r.numer <= r.denom
        }),
{
    lemma_count_true_bound(outcomes);
}

// ---------------------------------------------------------------------------
// The network as a whole
// ---------------------------------------------------------------------------

/// What is known of the network as a whole.
#[derive(Debug)]
pub struct NetworkStatistics {
    /// Average round trip.
    pub avg_network_rtt: Duration,
    /// Near one where the network is loaded.
    pub network_load: Feature,
    pub active_peers: usize,
    pub rtt_samples: Vec<Duration>,
    pub success_samples: Vec<bool>,
}

impl Default for NetworkStatistics {
    fn default() -> (n: Self)
        ensures
            n.wf(),
            n.avg_network_rtt.nanos == 0,
            n.network_load == Feature::Single(F32Bits { bits: ZERO }),
            n.active_peers == 0,
            n.rtt_samples@.len() == 0,
            n.success_samples@.len() == 0,
    {
        NetworkStatistics {
            avg_network_rtt: Duration { nanos: 0 },
            network_load: Feature::Single(F32Bits { bits: ZERO }),
            active_peers: 0,
            rtt_samples: Vec::new(),
            success_samples: Vec::new(),
        }
    }
}

/// The load that some samples show: none that could be told from ten or fewer.
pub open spec fn load_after(before: Feature, rtts: Seq<Duration>, outcomes: Seq<bool>) -> Feature {
    if rtts.len() > 10 {
        let mean_ms = mean_nanos(rtts) as int / 1_000_000;
        Feature::Load {
            variance: Ratio {
                numer: squared_deviation(rtts, mean_ms) as u128,
                denom: rtts.len() as u128,
            },
            mean_ms: mean_ms as u128,
            success: Ratio {
                numer: count_true(outcomes) as u128,
                denom: outcomes.len() as u128,
            },
        }
    } else {
        before
    }
}

impl NetworkStatistics {
    /// As many outcomes as round trips, none of them beyond what is kept.
    pub open spec fn wf(&self) -> bool {
        &&& self.rtt_samples@.len() <= MAX_NETWORK_SAMPLES
        &&& self.success_samples@.len() == self.rtt_samples@.len()
        &&& bounded_spans(self.rtt_samples@)
    }

    /// Takes a sample.
    pub fn update(&mut self, rtt: Duration, success: bool)
        requires
            old(self).wf(),
        ensures
            final(self).wf(),
            final(self).active_peers == old(self).active_peers,
            final(self).rtt_samples@ == push_bounded(
                old(self).rtt_samples@,
                accounted_spec(rtt),
                MAX_NETWORK_SAMPLES as nat,
            ),
            final(self).success_samples@ == push_bounded(
                old(self).success_samples@,
                success,
                MAX_NETWORK_SAMPLES as nat,
            ),
            final(self).avg_network_rtt.nanos == mean_nanos(final(self).rtt_samples@),
            final(self).network_load == load_after(
                old(self).network_load,
                final(self).rtt_samples@,
                final(self).success_samples@,
            ),
    {
        push_sample(&mut self.rtt_samples, accounted(rtt), MAX_NETWORK_SAMPLES);
        push_sample(&mut self.success_samples, success, MAX_NETWORK_SAMPLES);
        let count: usize = self.rtt_samples.len();
        assert(self.rtt_samples@.subrange(0, count as int) =~= self.rtt_samples@);
        assert(self.success_samples@.subrange(0, count as int) =~= self.success_samples@);
        self.avg_network_rtt = mean_span(&self.rtt_samples, 0, count);
        if count > 10 {
            let mean_ms: u128 = self.avg_network_rtt.nanos / 1_000_000;
            let variance = variance_ms(&self.rtt_samples, mean_ms);
            let good: usize = count_good(&self.success_samples, 0, count);
            let success = Ratio { numer: good as u128, denom: count as u128 };
            self.network_load = Feature::Load { variance, mean_ms, success };
        }
    }
}

// ---------------------------------------------------------------------------
// Routing features
// ---------------------------------------------------------------------------

/// How features are taken.
#[derive(Clone, Copy, Debug, PartialEq, Eq, Structural)]
pub struct FeatureConfig {
    /// How long the past of a peer is kept.
    pub max_history_age: Duration,
    /// Samples per window when trends are taken.
    pub trend_window_size: usize,
    /// Whether features are to be normalised.
    pub normalize_features: bool,
}

impl Default for FeatureConfig {
    fn default() -> (c: Self)
        ensures
            c.max_history_age.nanos == 3_600_000_000_000,
            c.trend_window_size == 10,
            c.normalize_features,
    {
        FeatureConfig {
            max_history_age: Duration::from_secs(3600),
            trend_window_size: 10,
            normalize_features: true,
        }
    }
}

/// What the transport layer counted for a peer.
#[derive(Clone, Copy, Debug, PartialEq, Eq, Structural)]
pub struct PeerTransferStats {
    pub bytes_sent: u64,
    pub bytes_received: u64,
    pub transfers_completed: u64,
    pub transfers_failed: u64,
}

/// What the transport layer counted, by peer address.
#[derive(Debug)]
pub struct TransportMetricsSnapshot {
    pub per_peer_stats: LinearMap<String, PeerTransferStats>,
}

/// What the transport layer counted for an address, zero where it did not.
pub open spec fn transfers_of(
    metrics: Option<&TransportMetricsSnapshot>,
    addr: Seq<char>,
) -> PeerTransferStats {
    if metrics is Some && metrics->0.per_peer_stats@.dom().contains(addr) {
        metrics->0.per_peer_stats@[addr]
    } else {
        PeerTransferStats {
            bytes_sent: 0,
            bytes_received: 0,
            transfers_completed: 0,
            transfers_failed: 0,
        }
    }
}

/// The names of the routing features.
pub open spec fn routing_names() -> Seq<Seq<char>> {
    seq![
        "distance"@,
        "avg_rtt_ms"@,
        "success_rate"@,
        "avg_bandwidth_bps"@,
        "packet_loss_rate"@,
        "rtt_trend"@,
        "success_trend"@,
        "network_avg_rtt_ms"@,
        "network_load"@,
        "active_peers"@,
        "bytes_sent"@,
        "bytes_received"@,
        "transfers_completed"@,
        "transfers_failed"@,
        "hour_of_day"@,
        "day_of_week"@,
        "connection_stability"@,
        "uptime_hours"@,
    ]
}

/// The routing features of a peer, in the order of their names.
pub open spec fn routing_values(
    peer: PeerSummary,
    network: NetworkStatistics,
    from: Location,
    to: Location,
    transfers: PeerTransferStats,
    hour: u32,
    weekday: u32,
) -> Seq<Feature> {
    seq![
        Feature::Distance { from, to },
        Feature::Whole(peer.avg_rtt.nanos / 1_000_000),
        Feature::Quotient(peer.success_rate),
        Feature::Quotient(peer.avg_bandwidth),
        peer.packet_loss_rate,
        Feature::Trend(peer.recent_rtt_trend),
        Feature::Trend(peer.recent_success_trend),
        Feature::Whole(network.avg_network_rtt.nanos / 1_000_000),
        network.network_load,
        Feature::Whole(network.active_peers as u128),
        Feature::Whole(transfers.bytes_sent as u128),
        Feature::Whole(transfers.bytes_received as u128),
        Feature::Whole(transfers.transfers_completed as u128),
        Feature::Whole(transfers.transfers_failed as u128),
        Feature::Quotient(Ratio { numer: hour as u128, denom: 24 }),
        Feature::Quotient(Ratio { numer: weekday as u128, denom: 7 }),
        peer.connection_stability,
        Feature::Quotient(peer.uptime_hours),
    ]
}

/// `chrono::Utc::now().hour()`: the hour of the day, from 0 to 23. Which one it
/// is depends on the clock.
#[verifier::external_body]
fn utc_hour() -> (hour: u32)
    ensures
        hour < 24,
{
    chrono::Utc::now().hour()
}

/// `chrono::Utc::now().weekday().number_from_monday()`: the day of the week, from
/// 1 for Monday to 7. Which one it is depends on the clock.
#[verifier::external_body]
fn utc_weekday() -> (weekday: u32)
    ensures
        1 <= weekday <= 7,
{
    chrono::Utc::now().weekday().number_from_monday()
}

/// The past of peers and of the network, from which routing features are taken.
#[derive(Debug)]
pub struct RoutingFeatureExtractor {
    pub peer_history: LinearMap<PeerKeyLocation, PeerPerformanceHistory>,
    pub network_stats: NetworkStatistics,
    pub config: FeatureConfig,
}

/// The view of a peer.
pub type PeerView = (Seq<u8>, Location, Seq<char>);

impl RoutingFeatureExtractor {
    pub open spec fn wf(&self) -> bool {
        &&& self.peer_history.wf()
        &&& self.network_stats.wf()
        &&& forall|p: PeerView| #[trigger]
            self.peer_history@.dom().contains(p) ==> self.peer_history@[p].wf()
    }

    /// What the past of a peer amounts to, if it has one.
    pub open spec fn peer_summary(&self, peer: PeerView) -> PeerSummary {
        if self.peer_history@.dom().contains(peer) {
            self.peer_history@[peer].summary_spec()
        } else {
            no_past()
        }
    }

    /// No peer has a past.
    pub fn new(config: FeatureConfig) -> (x: Self)
        ensures
            x.wf(),
            x.config == config,
            x.peer_history@ == Map::<PeerView, PeerPerformanceHistory>::empty(),
            x.network_stats.avg_network_rtt.nanos == 0,
            x.network_stats.network_load == Feature::Single(F32Bits { bits: ZERO }),
            x.network_stats.active_peers == 0,
            x.network_stats.rtt_samples@.len() == 0,
    {
        RoutingFeatureExtractor {
            peer_history: LinearMap::new(),
            network_stats: NetworkStatistics::default(),
            config,
        }
    }

    /// The routing features of a peer with respect to a target, at the hour and
    /// on the weekday of now.
    pub fn extract_routing_features(
        &self,
        peer: &PeerKeyLocation,
        target_location: Location,
        transport_metrics: Option<&TransportMetricsSnapshot>,
        now: Instant,
    ) -> (v: FeatureVector)
        requires
            self.wf(),
            transport_metrics is Some ==> transport_metrics->0.per_peer_stats.wf(),
        ensures
            v.wf(),
            v.timestamp == now,
            texts(v.names@) == routing_names(),
            exists|hour: u32, weekday: u32|
                hour < 24 && 1 <= weekday <= 7 && v.features@ == #[trigger] routing_values(
                    self.peer_summary(peer@),
                    self.network_stats,
                    peer.location,
                    target_location,
                    transfers_of(transport_metrics, peer.addr@),
                    hour,
                    weekday,
                ),
    {
        let hour: u32 = utc_hour();
        let weekday: u32 = utc_weekday();
        self.routing_features_at(peer, target_location, transport_metrics, hour, weekday, now)
    }

    /// The routing features of a peer with respect to a target, at an hour and on
    /// a weekday.
    pub fn routing_features_at(
        &self,
        peer: &PeerKeyLocation,
        target_location: Location,
        transport_metrics: Option<&TransportMetricsSnapshot>,
        hour: u32,
        weekday: u32,
        now: Instant,
    ) -> (v: FeatureVector)
        requires
            self.wf(),
            transport_metrics is Some ==> transport_metrics->0.per_peer_stats.wf(),
        ensures
            v.wf(),
            v.timestamp == now,
            texts(v.names@) == routing_names(),
            v.features@ == routing_values(
                self.peer_summary(peer@),
                self.network_stats,
                peer.location,
                target_location,
                transfers_of(transport_metrics, peer.addr@),
                hour,
                weekday,
            ),
    {
        let past = match self.peer_history.get(peer) {
            Some(h) => h.summary(),
            None => empty_summary(),
        };
        let none = PeerTransferStats {
            bytes_sent: 0,
            bytes_received: 0,
            transfers_completed: 0,
            transfers_failed: 0,
        };
        let transfers: PeerTransferStats = match transport_metrics {
            Some(m) => match m.per_peer_stats.get(&peer.addr) {
                Some(t) => *t,
                None => none,
            },
            None => none,
        };
        let features: Vec<Feature> = vec![
            Feature::Distance { from: peer.location, to: target_location },
            Feature::Whole(past.avg_rtt.as_millis()),
            Feature::Quotient(past.success_rate),
            Feature::Quotient(past.avg_bandwidth),
            past.packet_loss_rate,
            Feature::Trend(past.recent_rtt_trend),
            Feature::Trend(past.recent_success_trend),
            Feature::Whole(self.network_stats.avg_network_rtt.as_millis()),
            self.network_stats.network_load,
            Feature::Whole(self.network_stats.active_peers as u128),
            Feature::Whole(transfers.bytes_sent as u128),
            Feature::Whole(transfers.bytes_received as u128),
            Feature::Whole(transfers.transfers_completed as u128),
            Feature::Whole(transfers.transfers_failed as u128),
            Feature::Quotient(Ratio { numer: hour as u128, denom: 24 }),
            Feature::Quotient(Ratio { numer: weekday as u128, denom: 7 }),
            past.connection_stability,
            Feature::Quotient(past.uptime_hours),
        ];
        let names: Vec<String> = vec![
            "distance".to_owned(),
            "avg_rtt_ms".to_owned(),
            "success_rate".to_owned(),
            "avg_bandwidth_bps".to_owned(),
            "packet_loss_rate".to_owned(),
            "rtt_trend".to_owned(),
            "success_trend".to_owned(),
            "network_avg_rtt_ms".to_owned(),
            "network_load".to_owned(),
            "active_peers".to_owned(),
            "bytes_sent".to_owned(),
            "bytes_received".to_owned(),
            "transfers_completed".to_owned(),
            "transfers_failed".to_owned(),
            "hour_of_day".to_owned(),
            "day_of_week".to_owned(),
            "connection_stability".to_owned(),
            "uptime_hours".to_owned(),
        ];
        assert(texts(names@) =~= routing_names());
        assert(features@ =~= routing_values(
            self.peer_summary(peer@),
            self.network_stats,
            peer.location,
            target_location,
            transfers_of(transport_metrics, peer.addr@),
            hour,
            weekday,
        ));
        FeatureVector::new(features, names, now)
    }

    /// The peer has room for a sample.
    pub open spec fn accepts(&self, peer: PeerView, bytes_transferred: u64) -> bool {
        self.peer_history@.dom().contains(peer) ==> self.peer_history@[peer].accepts(
            bytes_transferred,
        )
    }

    /// Takes the outcome of a request to a peer.
    pub fn update_peer_performance(
        &mut self,
        peer: &PeerKeyLocation,
        rtt: Duration,
        success: bool,
        bytes_transferred: u64,
        now: Instant,
        elapsed: Duration,
    )
        requires
            old(self).wf(),
            old(self).accepts(peer@, bytes_transferred),
        ensures
            final(self).wf(),
            final(self).config == old(self).config,
            final(self).peer_history@.dom() == old(self).peer_history@.dom().insert(peer@),
            forall|p: PeerView|
                p != peer@ && #[trigger] old(self).peer_history@.dom().contains(p) ==> final(self).peer_history@[p] == old(self).peer_history@[p],
            ({
                let after = final(self).peer_history@[peer@];
                let known = old(self).peer_history@.dom().contains(peer@);
                let before = old(self).peer_history@[peer@];
                let rtts = if known { before.rtt_samples@ } else { Seq::empty() };
                let outcomes = if known { before.success_samples@ } else { Seq::empty() };
                &&& after.last_updated == now
                &&& after.total_samples == (if known { before.total_samples as int } else { 0 }) + 1
                &&& after.total_bytes == (if known { before.total_bytes as int } else { 0 })
                    + bytes_transferred
                &&& after.rtt_samples@ == push_bounded(
                    rtts,
                    accounted_spec(rtt),
                    MAX_PEER_SAMPLES as nat,
                )
                &&& after.success_samples@ == push_bounded(
                    outcomes,
                    success,
                    MAX_PEER_SAMPLES as nat,
                )
                &&& after.summary_spec() == summary_after(
                    old(self).peer_summary(peer@),
                    after.rtt_samples@,
                    after.success_samples@,
                    after.total_bytes as int,
                    elapsed,
                )
            }),
            final(self).network_stats.rtt_samples@ == push_bounded(
                old(self).network_stats.rtt_samples@,
                accounted_spec(rtt),
                MAX_NETWORK_SAMPLES as nat,
            ),
            final(self).network_stats.success_samples@ == push_bounded(
                old(self).network_stats.success_samples@,
                success,
                MAX_NETWORK_SAMPLES as nat,
            ),
            final(self).network_stats.active_peers == old(self).network_stats.active_peers,
            final(self).network_stats.avg_network_rtt.nanos == mean_nanos(
                final(self).network_stats.rtt_samples@,
            ),
            final(self).network_stats.network_load == load_after(
                old(self).network_stats.network_load,
                final(self).network_stats.rtt_samples@,
                final(self).network_stats.success_samples@,
            ),
    {
        let mut history = match self.peer_history.remove(peer) {
            Some(h) => h,
            None => PeerPerformanceHistory::default(),
        };
        assert(history.rtt_samples@ =~= (if old(self).peer_history@.dom().contains(peer@) {
            old(self).peer_history@[peer@].rtt_samples@
        } else {
            Seq::empty()
        }));
        assert(history.success_samples@ =~= (if old(self).peer_history@.dom().contains(peer@) {
            old(self).peer_history@[peer@].success_samples@
        } else {
            Seq::empty()
        }));
        history.update(rtt, success, bytes_transferred, now, elapsed);
        self.peer_history.insert(peer.duplicate(), history);
        self.network_stats.update(rtt, success);
        assert(self.peer_history@.dom() =~= old(self).peer_history@.dom().insert(peer@));
    }

    /// Notes what is known of the network as a whole.
    pub fn update_network_stats(&mut self, active_peers: usize, network_load: F32Bits)
        requires
            old(self).wf(),
        ensures
            final(self).wf(),
            final(self).config == old(self).config,
            final(self).peer_history == old(self).peer_history,
            final(self).network_stats.active_peers == active_peers,
            final(self).network_stats.network_load == Feature::Single(network_load),
            final(self).network_stats.avg_network_rtt == old(self).network_stats.avg_network_rtt,
            final(self).network_stats.rtt_samples == old(self).network_stats.rtt_samples,
            final(self).network_stats.success_samples == old(self).network_stats.success_samples,
    {
        self.network_stats.active_peers = active_peers;
        self.network_stats.network_load = Feature::Single(network_load);
    }

    /// Forgets the peers whose past is older than is kept.
    pub fn cleanup_old_history(&mut self, now: Instant)
        requires
            old(self).wf(),
            now.nanos >= old(self).config.max_history_age.nanos,
        ensures
            final(self).wf(),
            final(self).config == old(self).config,
            final(self).network_stats == old(self).network_stats,
            forall|p: PeerView| #[trigger]
                final(self).peer_history@.dom().contains(p) <==> old(self).peer_history@.dom().contains(p) && old(self).peer_history@[p].last_updated.nanos
                    > now.nanos - old(self).config.max_history_age.nanos,
            forall|p: PeerView| #[trigger]
                final(self).peer_history@.dom().contains(p) ==> final(self).peer_history@[p]
                    == old(self).peer_history@[p],
            forall|p: PeerView| #[trigger]
                old(self).peer_history@.dom().contains(p) ==> (
                final(self).peer_history@.dom().contains(p) <==> remembered(
                    old(self).peer_history@[p],
                    old(self).config.max_history_age,
                    now,
                )),
    {
        let cutoff: u128 = now.nanos - self.config.max_history_age.nanos;
        let mut i: usize = 0;
        while i < self.peer_history.entries.len()
            invariant
                self.wf(),
                self.config == old(self).config,
                self.network_stats == old(self).network_stats,
                i <= self.peer_history.entries@.len(),
                forall|j: int|
                    0 <= j < i ==> (#[trigger] self.peer_history.entries@[j]).1.last_updated.nanos
                        > cutoff,
                forall|p: PeerView| #[trigger]
                    self.peer_history@.dom().contains(p) ==> old(self).peer_history@.dom().contains(p) && self.peer_history@[p] == old(self).peer_history@[p],
                forall|p: PeerView| #[trigger]
                    old(self).peer_history@.dom().contains(p) && old(self).peer_history@[p].last_updated.nanos > cutoff
                        ==> self.peer_history@.dom().contains(p),
            decreases self.peer_history.entries@.len() - i,
        {
            if self.peer_history.entries[i].1.last_updated.nanos > cutoff {
                i += 1;
            } else {
                let ghost before = self.peer_history.entries@;
                let ghost map_before = self.peer_history@;
                self.peer_history.remove_at(i);
                assert forall|j: int| 0 <= j < i implies (
                #[trigger] self.peer_history.entries@[j]).1.last_updated.nanos > cutoff by {
                    assert(self.peer_history.entries@[j] == before[j]);
                }
                assert forall|p: PeerView| #[trigger]
                    self.peer_history@.dom().contains(p) implies map_before.dom().contains(p)
                    && self.peer_history@[p] == map_before[p] by {}
            }
        }
        proof {
            let s = self.peer_history.entries@;
            assert forall|p: PeerView| #[trigger]
                self.peer_history@.dom().contains(p) implies self.peer_history@[p].last_updated.nanos
                > cutoff by {
                lemma_entries_contains(s, p);
                let j = choose|j: int| 0 <= j < s.len() && #[trigger] s[j].0@ == p;
                lemma_entries_value(s, j);
            }
        }
    }
}

// ---------------------------------------------------------------------------
// Congestion features
// ---------------------------------------------------------------------------

/// What was measured at one moment.
#[derive(Clone, Copy, Debug, PartialEq, Eq, Structural)]
pub struct CongestionMeasurement {
    pub rtt: Duration,
    pub bandwidth_estimate: F32Bits,
    pub packet_loss_rate: F32Bits,
    pub queue_delay: Duration,
    pub cwnd: u32,
    pub timestamp: Instant,
}

/// Measurements taken together for a trend.
pub const CONGESTION_WINDOW: usize = 5;

/// The names of the congestion features.
pub open spec fn congestion_names() -> Seq<Seq<char>> {
    seq![
        "current_rtt_ms"@,
        "bandwidth_estimate_bps"@,
        "packet_loss_rate"@,
        "queue_delay_ms"@,
        "congestion_window"@,
        "rtt_trend"@,
        "bandwidth_trend"@,
        "loss_trend"@,
    ]
}

/// The congestion features: five of the current measurement, and three trends
/// over the last five measurements, zero where there are fewer.
pub open spec fn congestion_values(
    history: Seq<CongestionMeasurement>,
    m: CongestionMeasurement,
) -> Seq<Feature> {
    let n = history.len();
    seq![
        Feature::Whole(m.rtt.nanos / 1_000_000),
        Feature::Single(m.bandwidth_estimate),
        Feature::Single(m.packet_loss_rate),
        Feature::Whole(m.queue_delay.nanos / 1_000_000),
        Feature::Whole(m.cwnd as u128),
        if n >= CONGESTION_WINDOW {
            Feature::WholeSlope {
                w0: history[n - 5].rtt.nanos / 1_000_000,
                w1: history[n - 4].rtt.nanos / 1_000_000,
                w2: history[n - 3].rtt.nanos / 1_000_000,
                w3: history[n - 2].rtt.nanos / 1_000_000,
                w4: history[n - 1].rtt.nanos / 1_000_000,
            }
        } else {
            Feature::Single(F32Bits { bits: ZERO })
        },
        if n >= CONGESTION_WINDOW {
            Feature::Slope {
                y0: history[n - 5].bandwidth_estimate,
                y1: history[n - 4].bandwidth_estimate,
                y2: history[n - 3].bandwidth_estimate,
                y3: history[n - 2].bandwidth_estimate,
                y4: history[n - 1].bandwidth_estimate,
            }
        } else {
            Feature::Single(F32Bits { bits: ZERO })
        },
        if n >= CONGESTION_WINDOW {
            Feature::Slope {
                y0: history[n - 5].packet_loss_rate,
                y1: history[n - 4].packet_loss_rate,
                y2: history[n - 3].packet_loss_rate,
                y3: history[n - 2].packet_loss_rate,
                y4: history[n - 1].packet_loss_rate,
            }
        } else {
            Feature::Single(F32Bits { bits: ZERO })
        },
    ]
}

/// The last measurements, from which congestion features are taken.
#[derive(Debug)]
pub struct CongestionFeatureExtractor {
    pub measurement_history: Vec<CongestionMeasurement>,
    pub max_history_size: usize,
}

impl CongestionFeatureExtractor {
    /// Nothing has been measured.
    pub fn new(max_history_size: usize) -> (x: Self)
        ensures
            x.measurement_history@.len() == 0,
            x.max_history_size == max_history_size,
    {
        CongestionFeatureExtractor { measurement_history: Vec::new(), max_history_size }
    }

    /// The congestion features at the current measurement.
    pub fn extract_congestion_features(&self, m: &CongestionMeasurement, now: Instant) -> (v:
        FeatureVector)
        ensures
            v.wf(),
            v.timestamp == now,
            texts(v.names@) == congestion_names(),
            v.features@ == congestion_values(self.measurement_history@, *m),
    {
        let h = &self.measurement_history;
        let n: usize = h.len();
        let zero = Feature::Single(F32Bits { bits: ZERO });
        let (rtt_trend, bandwidth_trend, loss_trend) = if n >= CONGESTION_WINDOW {
            (
                Feature::WholeSlope {
                    w0: h[n - 5].rtt.as_millis(),
                    w1: h[n - 4].rtt.as_millis(),
                    w2: h[n - 3].rtt.as_millis(),
                    w3: h[n - 2].rtt.as_millis(),
                    w4: h[n - 1].rtt.as_millis(),
                },
                Feature::Slope {
                    y0: h[n - 5].bandwidth_estimate,
                    y1: h[n - 4].bandwidth_estimate,
                    y2: h[n - 3].bandwidth_estimate,
                    y3: h[n - 2].bandwidth_estimate,
                    y4: h[n - 1].bandwidth_estimate,
                },
                Feature::Slope {
                    y0: h[n - 5].packet_loss_rate,
                    y1: h[n - 4].packet_loss_rate,
                    y2: h[n - 3].packet_loss_rate,
                    y3: h[n - 2].packet_loss_rate,
                    y4: h[n - 1].packet_loss_rate,
                },
            )
        } else {
            (zero, zero, zero)
        };
        let features: Vec<Feature> = vec![
            Feature::Whole(m.rtt.as_millis()),
            Feature::Single(m.bandwidth_estimate),
            Feature::Single(m.packet_loss_rate),
            Feature::Whole(m.queue_delay.as_millis()),
            Feature::Whole(m.cwnd as u128),
            rtt_trend,
            bandwidth_trend,
            loss_trend,
        ];
        let names: Vec<String> = vec![
            "current_rtt_ms".to_owned(),
            "bandwidth_estimate_bps".to_owned(),
            "packet_loss_rate".to_owned(),
            "queue_delay_ms".to_owned(),
            "congestion_window".to_owned(),
            "rtt_trend".to_owned(),
            "bandwidth_trend".to_owned(),
            "loss_trend".to_owned(),
        ];
        assert(texts(names@) =~= congestion_names());
        assert(features@ =~= congestion_values(self.measurement_history@, *m));
        FeatureVector::new(features, names, now)
    }

    /// Adds a measurement; where there is no room, the oldest one leaves.
    pub fn add_measurement(&mut self, measurement: CongestionMeasurement)
        ensures
            final(self).max_history_size == old(self).max_history_size,
            final(self).measurement_history@ == push_bounded(
                old(self).measurement_history@,
                measurement,
                old(self).max_history_size as nat,
            ),
    {
        push_sample(&mut self.measurement_history, measurement, self.max_history_size);
    }
}

/// A history that was within bounds stays within bounds, whatever is added.
pub proof fn bounded_stays_bounded<T>(s: Seq<T>, x: T, max: nat)
    requires
        s.len() <= max,
    ensures
        push_bounded(s, x, max).len() <= max,
        push_bounded(s, x, max).len() == (if s.len() < max {
            s.len() + 1
        } else {
            max
        }),
        max > 0 ==> push_bounded(s, x, max).last() == x,
{
}

// ---------------------------------------------------------------------------
// What the features mean
// ---------------------------------------------------------------------------

/// Each routing feature is the quantity that its name says: at the place of a name
/// stands the value of that quantity, and every name has a place.
#[verifier::rlimit(100)]
pub proof fn routing_features_are_what_they_are_called(
    peer: PeerSummary,
    network: NetworkStatistics,
    from: Location,
    to: Location,
    transfers: PeerTransferStats,
    hour: u32,
    weekday: u32,
    i: int,
)
    requires
        0 <= i < routing_names().len(),
    ensures
        routing_values(peer, network, from, to, transfers, hour, weekday).len() == routing_names().len(),
        routing_names().len() == 18,
        routing_names()[i] == "distance"@ ==> routing_values(peer, network, from, to, transfers, hour, weekday)[i] == (Feature::Distance { from, to }),
        routing_names()[i] == "avg_rtt_ms"@ ==> routing_values(peer, network, from, to, transfers, hour, weekday)[i] == (Feature::Whole(peer.avg_rtt.nanos / 1_000_000)),
        routing_names()[i] == "success_rate"@ ==> routing_values(peer, network, from, to, transfers, hour, weekday)[i] == (Feature::Quotient(peer.success_rate)),
        routing_names()[i] == "avg_bandwidth_bps"@ ==> routing_values(peer, network, from, to, transfers, hour, weekday)[i] == (Feature::Quotient(peer.avg_bandwidth)),
        routing_names()[i] == "packet_loss_rate"@ ==> routing_values(peer, network, from, to, transfers, hour, weekday)[i] == (peer.packet_loss_rate),
        routing_names()[i] == "rtt_trend"@ ==> routing_values(peer, network, from, to, transfers, hour, weekday)[i] == (Feature::Trend(peer.recent_rtt_trend)),
        routing_names()[i] == "success_trend"@ ==> routing_values(peer, network, from, to, transfers, hour, weekday)[i] == (Feature::Trend(peer.recent_success_trend)),
        routing_names()[i] == "network_avg_rtt_ms"@ ==> routing_values(peer, network, from, to, transfers, hour, weekday)[i] == (Feature::Whole(network.avg_network_rtt.nanos / 1_000_000)),
        routing_names()[i] == "network_load"@ ==> routing_values(peer, network, from, to, transfers, hour, weekday)[i] == (network.network_load),
        routing_names()[i] == "active_peers"@ ==> routing_values(peer, network, from, to, transfers, hour, weekday)[i] == (Feature::Whole(network.active_peers as u128)),
        routing_names()[i] == "bytes_sent"@ ==> routing_values(peer, network, from, to, transfers, hour, weekday)[i] == (Feature::Whole(transfers.bytes_sent as u128)),
        routing_names()[i] == "bytes_received"@ ==> routing_values(peer, network, from, to, transfers, hour, weekday)[i] == (Feature::Whole(transfers.bytes_received as u128)),
        routing_names()[i] == "transfers_completed"@ ==> routing_values(peer, network, from, to, transfers, hour, weekday)[i] == (Feature::Whole(transfers.transfers_completed as u128)),
        routing_names()[i] == "transfers_failed"@ ==> routing_values(peer, network, from, to, transfers, hour, weekday)[i] == (Feature::Whole(transfers.transfers_failed as u128)),
        routing_names()[i] == "hour_of_day"@ ==> routing_values(peer, network, from, to, transfers, hour, weekday)[i] == (Feature::Quotient(Ratio { numer: hour as u128, denom: 24 })),
        routing_names()[i] == "day_of_week"@ ==> routing_values(peer, network, from, to, transfers, hour, weekday)[i] == (Feature::Quotient(Ratio { numer: weekday as u128, denom: 7 })),
        routing_names()[i] == "connection_stability"@ ==> routing_values(peer, network, from, to, transfers, hour, weekday)[i] == (peer.connection_stability),
        routing_names()[i] == "uptime_hours"@ ==> routing_values(peer, network, from, to, transfers, hour, weekday)[i] == (Feature::Quotient(peer.uptime_hours)),
{
    lemma_routing_names_differ();
    let names = routing_names();
    let values = routing_values(peer, network, from, to, transfers, hour, weekday);
    assert(i == 0 || i == 1 || i == 2 || i == 3 || i == 4 || i == 5 || i == 6 || i == 7 || i == 8
        || i == 9 || i == 10 || i == 11 || i == 12 || i == 13 || i == 14 || i == 15 || i == 16
        || i == 17);
    assert(names[0] == "distance"@ && values[0] == (Feature::Distance { from, to }));
    assert(names[1] == "avg_rtt_ms"@ && values[1] == (Feature::Whole(peer.avg_rtt.nanos / 1_000_000)));
    assert(names[2] == "success_rate"@ && values[2] == (Feature::Quotient(peer.success_rate)));
    assert(names[3] == "avg_bandwidth_bps"@ && values[3] == (Feature::Quotient(peer.avg_bandwidth)));
    assert(names[4] == "packet_loss_rate"@ && values[4] == (peer.packet_loss_rate));
    assert(names[5] == "rtt_trend"@ && values[5] == (Feature::Trend(peer.recent_rtt_trend)));
    assert(names[6] == "success_trend"@ && values[6] == (Feature::Trend(peer.recent_success_trend)));
    assert(names[7] == "network_avg_rtt_ms"@ && values[7] == (Feature::Whole(network.avg_network_rtt.nanos / 1_000_000)));
    assert(names[8] == "network_load"@ && values[8] == (network.network_load));
    assert(names[9] == "active_peers"@ && values[9] == (Feature::Whole(network.active_peers as u128)));
    assert(names[10] == "bytes_sent"@ && values[10] == (Feature::Whole(transfers.bytes_sent as u128)));
    assert(names[11] == "bytes_received"@ && values[11] == (Feature::Whole(transfers.bytes_received as u128)));
    assert(names[12] == "transfers_completed"@ && values[12] == (Feature::Whole(transfers.transfers_completed as u128)));
    assert(names[13] == "transfers_failed"@ && values[13] == (Feature::Whole(transfers.transfers_failed as u128)));
    assert(names[14] == "hour_of_day"@ && values[14] == (Feature::Quotient(Ratio { numer: hour as u128, denom: 24 })));
    assert(names[15] == "day_of_week"@ && values[15] == (Feature::Quotient(Ratio { numer: weekday as u128, denom: 7 })));
    assert(names[16] == "connection_stability"@ && values[16] == (peer.connection_stability));
    assert(names[17] == "uptime_hours"@ && values[17] == (Feature::Quotient(peer.uptime_hours)));
}

/// No two routing features have the same name.
#[verifier::rlimit(100)]
pub proof fn lemma_routing_names_differ()
    ensures
        forall|i: int, j: int|
            0 <= i < j < 18 ==> #[trigger] routing_names()[i] != #[trigger] routing_names()[j],
        routing_names().len() == 18,
{
    reveal_strlit("distance");
    reveal_strlit("avg_rtt_ms");
    reveal_strlit("success_rate");
    reveal_strlit("avg_bandwidth_bps");
    reveal_strlit("packet_loss_rate");
    reveal_strlit("rtt_trend");
    reveal_strlit("success_trend");
    reveal_strlit("network_avg_rtt_ms");
    reveal_strlit("network_load");
    reveal_strlit("active_peers");
    reveal_strlit("bytes_sent");
    reveal_strlit("bytes_received");
    reveal_strlit("transfers_completed");
    reveal_strlit("transfers_failed");
    reveal_strlit("hour_of_day");
    reveal_strlit("day_of_week");
    reveal_strlit("connection_stability");
    reveal_strlit("uptime_hours");
    let names = routing_names();
    assert(names[0].len() == 8 && names[0][0] == 'd');
    assert(names[1].len() == 10 && names[1][0] == 'a');
    assert(names[2].len() == 12 && names[2][0] == 's');
    assert(names[3].len() == 17 && names[3][0] == 'a');
    assert(names[4].len() == 16 && names[4][0] == 'p');
    assert(names[5].len() == 9 && names[5][0] == 'r');
    assert(names[6].len() == 13 && names[6][0] == 's');
    assert(names[7].len() == 18 && names[7][0] == 'n');
    assert(names[8].len() == 12 && names[8][0] == 'n');
    assert(names[9].len() == 12 && names[9][0] == 'a');
    assert(names[10].len() == 10 && names[10][0] == 'b');
    assert(names[11].len() == 14 && names[11][0] == 'b');
    assert(names[12].len() == 19 && names[12][0] == 't');
    assert(names[13].len() == 16 && names[13][0] == 't');
    assert(names[14].len() == 11 && names[14][0] == 'h');
    assert(names[15].len() == 11 && names[15][0] == 'd');
    assert(names[16].len() == 20 && names[16][0] == 'c');
    assert(names[17].len() == 12 && names[17][0] == 'u');
    assert forall|i: int, j: int| 0 <= i < j < 18 implies #[trigger] names[i]
        != #[trigger] names[j] by {
        assert(names[i].len() != names[j].len() || names[i][0] != names[j][0]);
    }
}

/// Each congestion feature is the quantity that its name says: what was measured last,
/// and the slopes through the last five measurements in the order of their taking.
#[verifier::rlimit(100)]
pub proof fn congestion_features_are_what_they_are_called(
    history: Seq<CongestionMeasurement>,
    m: CongestionMeasurement,
    i: int,
)
    requires
        0 <= i < congestion_names().len(),
    ensures
        congestion_values(history, m).len() == congestion_names().len(),
        congestion_names().len() == 8,
        congestion_names()[i] == "current_rtt_ms"@ ==> congestion_values(history, m)[i] == (Feature::Whole(m.rtt.nanos / 1_000_000)),
        congestion_names()[i] == "bandwidth_estimate_bps"@ ==> congestion_values(history, m)[i] == (Feature::Single(m.bandwidth_estimate)),
        congestion_names()[i] == "packet_loss_rate"@ ==> congestion_values(history, m)[i] == (Feature::Single(m.packet_loss_rate)),
        congestion_names()[i] == "queue_delay_ms"@ ==> congestion_values(history, m)[i] == (Feature::Whole(m.queue_delay.nanos / 1_000_000)),
        congestion_names()[i] == "congestion_window"@ ==> congestion_values(history, m)[i] == (Feature::Whole(m.cwnd as u128)),
        congestion_names()[i] == "rtt_trend"@ && history.len() >= 5 ==> congestion_values(history, m)[i] == (Feature::WholeSlope {
            w0: history[history.len() - 5].rtt.nanos / 1_000_000,
            w1: history[history.len() - 4].rtt.nanos / 1_000_000,
            w2: history[history.len() - 3].rtt.nanos / 1_000_000,
            w3: history[history.len() - 2].rtt.nanos / 1_000_000,
            w4: history[history.len() - 1].rtt.nanos / 1_000_000,
        }),
        congestion_names()[i] == "rtt_trend"@ && history.len() < 5 ==> congestion_values(history, m)[i] == Feature::Single(
            F32Bits { bits: ZERO },
        ),
        congestion_names()[i] == "bandwidth_trend"@ && history.len() >= 5 ==> congestion_values(history, m)[i] == (Feature::Slope {
            y0: history[history.len() - 5].bandwidth_estimate,
            y1: history[history.len() - 4].bandwidth_estimate,
            y2: history[history.len() - 3].bandwidth_estimate,
            y3: history[history.len() - 2].bandwidth_estimate,
            y4: history[history.len() - 1].bandwidth_estimate,
        }),
        congestion_names()[i] == "bandwidth_trend"@ && history.len() < 5 ==> congestion_values(history, m)[i] == Feature::Single(
            F32Bits { bits: ZERO },
        ),
        congestion_names()[i] == "loss_trend"@ && history.len() >= 5 ==> congestion_values(history, m)[i] == (Feature::Slope {
            y0: history[history.len() - 5].packet_loss_rate,
            y1: history[history.len() - 4].packet_loss_rate,
            y2: history[history.len() - 3].packet_loss_rate,
            y3: history[history.len() - 2].packet_loss_rate,
            y4: history[history.len() - 1].packet_loss_rate,
        }),
        congestion_names()[i] == "loss_trend"@ && history.len() < 5 ==> congestion_values(history, m)[i] == Feature::Single(
            F32Bits { bits: ZERO },
        ),
{
    reveal_strlit("current_rtt_ms");
    reveal_strlit("bandwidth_estimate_bps");
    reveal_strlit("packet_loss_rate");
    reveal_strlit("queue_delay_ms");
    reveal_strlit("congestion_window");
    reveal_strlit("rtt_trend");
    reveal_strlit("bandwidth_trend");
    reveal_strlit("loss_trend");
    let names = congestion_names();
    assert(names[0] == "current_rtt_ms"@ && names[0].len() == 14 && names[0][0] == 'c');
    assert(names[1] == "bandwidth_estimate_bps"@ && names[1].len() == 22 && names[1][0] == 'b');
    assert(names[2] == "packet_loss_rate"@ && names[2].len() == 16 && names[2][0] == 'p');
    assert(names[3] == "queue_delay_ms"@ && names[3].len() == 14 && names[3][0] == 'q');
    assert(names[4] == "congestion_window"@ && names[4].len() == 17 && names[4][0] == 'c');
    assert(names[5] == "rtt_trend"@ && names[5].len() == 9 && names[5][0] == 'r');
    assert(names[6] == "bandwidth_trend"@ && names[6].len() == 15 && names[6][0] == 'b');
    assert(names[7] == "loss_trend"@ && names[7].len() == 10 && names[7][0] == 'l');
    assert(i == 0 || i == 1 || i == 2 || i == 3 || i == 4 || i == 5 || i == 6 || i == 7);
}

/// Sums of spans, counts of good outcomes and squared deviations grow with each sample
/// by what that sample is.
pub proof fn samples_add_up(s: Seq<Duration>, d: Duration, o: Seq<bool>, good: bool, mean_ms: int)
    ensures
        total_nanos(s.push(d)) == total_nanos(s) + d.nanos,
        count_true(o.push(good)) == count_true(o) + (if good { 1nat } else { 0nat }),
        squared_deviation(s.push(d), mean_ms) == squared_deviation(s, mean_ms) + (d.nanos
            / 1_000_000 - mean_ms) * (d.nanos / 1_000_000 - mean_ms),
        total_nanos(Seq::empty()) == 0,
        count_true(Seq::empty()) == 0,
        squared_deviation(Seq::empty(), mean_ms) == 0,
{
    assert(s.push(d).drop_last() =~= s);
    assert(o.push(good).drop_last() =~= o);
}

/// An average of spans is no less than the shortest and no more than the longest, and
/// its product with their number is their sum, less than one nanosecond per span short.
pub proof fn average_lies_between(s: Seq<Duration>, low: int, high: int)
    requires
        s.len() > 0,
        forall|i: int| 0 <= i < s.len() ==> low <= (#[trigger] s[i]).nanos <= high,
    ensures
        low <= mean_nanos(s) <= high,
        mean_nanos(s) * s.len() <= total_nanos(s) < (mean_nanos(s) + 1) * s.len(),
{
    lemma_total_between(s, low, high);
    let t = total_nanos(s) as int;
    let n = s.len() as int;
    let m = t / n;
    assert(mean_nanos(s) == m);
    vstd::arithmetic::div_mod::lemma_fundamental_div_mod(t, n);
    vstd::arithmetic::div_mod::lemma_mod_bound(t, n);
    assert(m * n <= t < (m + 1) * n) by (nonlinear_arith)
        requires
            t == n * m + t % n,
            0 <= t % n < n,
    ;
    assert(low <= m <= high) by (nonlinear_arith)
        requires
            low * n <= t <= high * n,
            m * n <= t < (m + 1) * n,
            n > 0,
    ;
}

proof fn lemma_total_between(s: Seq<Duration>, low: int, high: int)
    requires
        forall|i: int| 0 <= i < s.len() ==> low <= (#[trigger] s[i]).nanos <= high,
    ensures
        low * s.len() <= total_nanos(s) <= high * s.len(),
    decreases s.len(),
{
    if s.len() > 0 {
        let p = s.drop_last();
        assert forall|i: int| 0 <= i < p.len() implies low <= (#[trigger] p[i]).nanos <= high by {
            assert(p[i] == s[i]);
        }
        lemma_total_between(p, low, high);
        assert(low <= s[s.len() - 1].nanos <= high);
        assert(low * s.len() == low * (s.len() - 1) + low) by (nonlinear_arith);
        assert(high * s.len() == high * (s.len() - 1) + high) by (nonlinear_arith);
    }
}

proof fn lemma_count_all(s: Seq<bool>, b: bool)
    requires
        forall|i: int| 0 <= i < s.len() ==> #[trigger] s[i] == b,
    ensures
        count_true(s) == (if b { s.len() } else { 0 }),
    decreases s.len(),
{
    if s.len() > 0 {
        let p = s.drop_last();
        assert forall|i: int| 0 <= i < p.len() implies #[trigger] p[i] == b by {
            assert(p[i] == s[i]);
        }
        lemma_count_all(p, b);
        assert(s[s.len() - 1] == b);
    }
}

/// What is said of a peer after a sample: an average round trip between the shortest and
/// the longest one, a share of one where every outcome was good and of zero where none
/// was, the bytes per second and the hours of the time that passed, and the share of
/// bad outcomes as the loss.
pub proof fn summary_tells_what_was_seen(
    before: PeerSummary,
    rtts: Seq<Duration>,
    outcomes: Seq<bool>,
    total_bytes: u64,
    elapsed: Duration,
    low: int,
    high: int,
)
    requires
        rtts.len() > 0,
        0 < outcomes.len() <= MAX_PEER_SAMPLES,
        bounded_spans(rtts),
        0 <= low,
        high <= MAX_RTT_NANOS,
        forall|i: int| 0 <= i < rtts.len() ==> low <= (#[trigger] rtts[i]).nanos <= high,
    ensures
        ({
            let after = summary_after(before, rtts, outcomes, total_bytes as int, elapsed);
            &&& low <= after.avg_rtt.nanos <= high
            &&& after.success_rate.denom == outcomes.len()
            &&& (forall|i: int| 0 <= i < outcomes.len() ==> #[trigger] outcomes[i])
                ==> after.success_rate.numer == after.success_rate.denom
            &&& (forall|i: int| 0 <= i < outcomes.len() ==> !#[trigger] outcomes[i])
                ==> after.success_rate.numer == 0
            &&& after.packet_loss_rate == Feature::Complement(after.success_rate)
            &&& elapsed.nanos > 0 ==> after.avg_bandwidth.denom > 0
                && after.avg_bandwidth.numer * elapsed.nanos == total_bytes * 1_000_000_000
                * after.avg_bandwidth.denom
            &&& elapsed.nanos > 0 ==> after.uptime_hours.denom > 0
                && after.uptime_hours.numer * 3_600_000_000_000 == elapsed.nanos
                * after.uptime_hours.denom
            &&& elapsed.nanos == 0 ==> after.avg_bandwidth == before.avg_bandwidth
                && after.uptime_hours == before.uptime_hours
        }),
{
    average_lies_between(rtts, low, high);
    lemma_mean_bound(rtts);
    if forall|i: int| 0 <= i < outcomes.len() ==> #[trigger] outcomes[i] {
        lemma_count_all(outcomes, true);
    }
    if forall|i: int| 0 <= i < outcomes.len() ==> !#[trigger] outcomes[i] {
        lemma_count_all(outcomes, false);
    }
    assert(total_bytes * SECOND_NANOS <= u128::MAX) by (nonlinear_arith)
        requires
            total_bytes <= 0xffff_ffff_ffff_ffff,
    ;
}

/// A trend is positive where things got shorter, negative where they got longer and
/// zero where they stayed, and it is the change per what it was, up to a doubling.
pub proof fn trends_follow_the_change(earlier: int, later: int)
    requires
        0 < earlier <= MAX_RTT_NANOS,
        0 <= later <= MAX_RTT_NANOS,
    ensures
        relative_trend(earlier, later).numer > 0 <==> later < earlier,
        relative_trend(earlier, later).numer < 0 <==> later > earlier,
        later <= 2 * earlier ==> relative_trend(earlier, later).numer * earlier == (earlier - later)
            * relative_trend(earlier, later).denom,
        later > 2 * earlier ==> relative_trend(earlier, later).numer == -1 && relative_trend(
            earlier,
            later,
        ).denom == 1,
{
}

/// The window that trends look at is the last ten samples, and the one before is the
/// ten before these.
pub proof fn windows_are_the_last_samples<T>(s: Seq<T>, i: int)
    requires
        s.len() >= 20,
        0 <= i < 10,
    ensures
        window(s, 0).len() == 10,
        window(s, TREND_WINDOW as int).len() == 10,
        window(s, 0)[i] == s[s.len() - 10 + i],
        window(s, TREND_WINDOW as int)[i] == s[s.len() - 20 + i],
{
}

/// Better outcomes give a positive trend: ten good ones after ten bad ones the highest,
/// ten bad ones after ten good ones the lowest, and as many good ones none.
pub proof fn success_trend_follows_outcomes(s: Seq<bool>)
    requires
        s.len() >= 20,
    ensures
        success_trend_of(s).denom == 10,
        success_trend_of(s).numer == count_true(window(s, 0)) - count_true(
            window(s, TREND_WINDOW as int),
        ),
        (forall|i: int| s.len() - 10 <= i < s.len() ==> #[trigger] s[i]) && (forall|i: int|
            s.len() - 20 <= i < s.len() - 10 ==> !#[trigger] s[i])
            ==> success_trend_of(s).numer == 10,
        (forall|i: int| s.len() - 10 <= i < s.len() ==> !#[trigger] s[i]) && (forall|i: int|
            s.len() - 20 <= i < s.len() - 10 ==> #[trigger] s[i])
            ==> success_trend_of(s).numer == -10,
{
    let recent = window(s, 0);
    let older = window(s, TREND_WINDOW as int);
    lemma_count_true_bound(recent);
    lemma_count_true_bound(older);
    if forall|i: int| s.len() - 10 <= i < s.len() ==> #[trigger] s[i] {
        assert forall|i: int| 0 <= i < recent.len() implies #[trigger] recent[i] == true by {
            assert(recent[i] == s[s.len() - 10 + i]);
        }
        lemma_count_all(recent, true);
    }
    if forall|i: int| s.len() - 10 <= i < s.len() ==> !#[trigger] s[i] {
        assert forall|i: int| 0 <= i < recent.len() implies #[trigger] recent[i] == false by {
            assert(recent[i] == s[s.len() - 10 + i]);
        }
        lemma_count_all(recent, false);
    }
    if forall|i: int| s.len() - 20 <= i < s.len() - 10 ==> #[trigger] s[i] {
        assert forall|i: int| 0 <= i < older.len() implies #[trigger] older[i] == true by {
            assert(older[i] == s[s.len() - 20 + i]);
        }
        lemma_count_all(older, true);
    }
    if forall|i: int| s.len() - 20 <= i < s.len() - 10 ==> !#[trigger] s[i] {
        assert forall|i: int| 0 <= i < older.len() implies #[trigger] older[i] == false by {
            assert(older[i] == s[s.len() - 20 + i]);
        }
        lemma_count_all(older, false);
    }
}

/// Trends compare the last ten samples with the ten before: the round trips in whole
/// milliseconds, positive where they got shorter.
pub proof fn rtt_trend_follows_round_trips(s: Seq<Duration>, earlier: u128, later: u128)
    requires
        s.len() >= 20,
        0 < earlier <= MAX_RTT_NANOS / 1_000_000,
        later <= MAX_RTT_NANOS / 1_000_000,
        forall|i: int|
            s.len() - 10 <= i < s.len() ==> (#[trigger] s[i]).nanos == later * 1_000_000,
        forall|i: int|
            s.len() - 20 <= i < s.len() - 10 ==> (#[trigger] s[i]).nanos == earlier * 1_000_000,
    ensures
        rtt_trend_of(s).numer > 0 <==> later < earlier,
        rtt_trend_of(s).numer < 0 <==> later > earlier,
        later <= 2 * earlier ==> rtt_trend_of(s).numer * earlier == (earlier - later)
            * rtt_trend_of(s).denom,
{
    let recent = window(s, 0);
    let older = window(s, TREND_WINDOW as int);
    assert forall|i: int| 0 <= i < recent.len() implies later * 1_000_000 <= (
    #[trigger] recent[i]).nanos <= later * 1_000_000 by {
        assert(recent[i] == s[s.len() - 10 + i]);
    }
    assert forall|i: int| 0 <= i < older.len() implies earlier * 1_000_000 <= (
    #[trigger] older[i]).nanos <= earlier * 1_000_000 by {
        assert(older[i] == s[s.len() - 20 + i]);
    }
    average_lies_between(recent, later * 1_000_000, later * 1_000_000);
    average_lies_between(older, earlier * 1_000_000, earlier * 1_000_000);
    trends_follow_the_change(earlier as int, later as int);
}

/// A round trip counts as it is, up to the longest that is accounted for.
pub proof fn round_trips_count_as_they_are(rtt: Duration)
    ensures
        accounted_spec(rtt).nanos <= rtt.nanos,
        rtt.nanos <= MAX_RTT_NANOS ==> accounted_spec(rtt) == rtt,
        rtt.nanos > MAX_RTT_NANOS ==> accounted_spec(rtt).nanos == MAX_RTT_NANOS,
{
}

/// Where there is no room the oldest sample leaves, and the others keep their order.
pub proof fn oldest_sample_leaves<T>(s: Seq<T>, x: T, max: nat, i: int)
    requires
        s.len() <= max,
        max > 0,
        0 <= i < push_bounded(s, x, max).len() - 1,
    ensures
        s.len() < max ==> push_bounded(s, x, max)[i] == s[i],
        s.len() == max ==> push_bounded(s, x, max)[i] == s[i + 1],
        push_bounded(s, x, max).last() == x,
{
}

/// The load of the network and the stability of a peer are told from the spread of the
/// round trips around their mean in milliseconds and the share of good outcomes, once
/// there are enough of them.
pub proof fn spread_is_told_from_enough_samples(
    load: Feature,
    before: PeerSummary,
    rtts: Seq<Duration>,
    outcomes: Seq<bool>,
    total_bytes: int,
    elapsed: Duration,
)
    ensures
        ({
            let mean_ms = mean_nanos(rtts) as int / 1_000_000;
            let variance = Ratio {
                numer: squared_deviation(rtts, mean_ms) as u128,
                denom: rtts.len() as u128,
            };
            let after = summary_after(before, rtts, outcomes, total_bytes, elapsed);
            &&& rtts.len() <= 10 ==> load_after(load, rtts, outcomes) == load
            &&& rtts.len() > 10 ==> load_after(load, rtts, outcomes) == (Feature::Load {
                variance,
                mean_ms: mean_ms as u128,
                success: after.success_rate,
            })
            &&& rtts.len() <= 1 ==> after.connection_stability == before.connection_stability
            &&& rtts.len() > 1 ==> after.connection_stability == (Feature::Stability {
                variance,
                mean_ms: mean_ms as u128,
            })
        }),
{
}

/// What the transport layer counted for the peer's own address is taken, and nothing
/// where it counted nothing for it.
pub proof fn transfers_are_those_of_the_address(
    metrics: TransportMetricsSnapshot,
    addr: Seq<char>,
)
    ensures
        metrics.per_peer_stats@.dom().contains(addr) ==> transfers_of(Some(&metrics), addr)
            == metrics.per_peer_stats@[addr],
        !metrics.per_peer_stats@.dom().contains(addr) ==> transfers_of(Some(&metrics), addr)
            == transfers_of(None, addr),
        transfers_of(None, addr).bytes_sent == 0,
        transfers_of(None, addr).bytes_received == 0,
        transfers_of(None, addr).transfers_completed == 0,
        transfers_of(None, addr).transfers_failed == 0,
{
}

/// What is known of a peer is kept at a moment: it was learned less long ago than is
/// kept.
pub open spec fn remembered(
    history: PeerPerformanceHistory,
    max_age: Duration,
    now: Instant,
) -> bool {
    now.nanos - history.last_updated.nanos < max_age.nanos
}

/// Of two peers the one that was heard of later is kept where the other is; what is
/// kept is kept at every earlier moment, and what was learned just now is kept.
pub proof fn old_histories_are_forgotten(
    a: PeerPerformanceHistory,
    b: PeerPerformanceHistory,
    max_age: Duration,
    now: Instant,
    earlier: Instant,
)
    requires
        a.last_updated.nanos <= b.last_updated.nanos,
        earlier.nanos <= now.nanos,
    ensures
        remembered(a, max_age, now) ==> remembered(b, max_age, now),
        remembered(a, max_age, now) ==> remembered(a, max_age, earlier),
        max_age.nanos > 0 && a.last_updated == now ==> remembered(a, max_age, now),
        a.last_updated.nanos + max_age.nanos == now.nanos ==> !remembered(a, max_age, now),
        a.last_updated.nanos + max_age.nanos == now.nanos + 1 ==> remembered(a, max_age, now),
{
}

/// A peer's past holds a hundred samples at most and the network's a thousand, and a
/// sample that comes stays until as many have come after it.
pub proof fn samples_are_kept_in_number<T>(s: Seq<T>, x: T)
    ensures
        s.len() <= 100 ==> push_bounded(s, x, MAX_PEER_SAMPLES as nat).len() <= 100,
        s.len() < 100 ==> push_bounded(s, x, MAX_PEER_SAMPLES as nat) == s.push(x),
        s.len() == 100 ==> push_bounded(s, x, MAX_PEER_SAMPLES as nat) == s.subrange(1, 100).push(
            x,
        ),
        s.len() < 1000 ==> push_bounded(s, x, MAX_NETWORK_SAMPLES as nat) == s.push(x),
        s.len() == 1000 ==> push_bounded(s, x, MAX_NETWORK_SAMPLES as nat) == s.subrange(
            1,
            1000,
        ).push(x),
{
}

/// A trend is bounded where neither it nor its opposite is above one: no change and a
/// full change either way are, and anything beyond is not.
pub proof fn trends_are_bounded_by_one(r: SignedRatio, s: SignedRatio)
    requires
        r.denom > 0,
        s.denom == r.denom,
        s.numer == -r.numer,
    ensures
        bounded_trend(r) == bounded_trend(s),
        r.numer == 0 || r.numer == r.denom ==> bounded_trend(r),
        r.numer > r.denom ==> !bounded_trend(r) && !bounded_trend(s),
        bounded_trend(r) ==> r.numer <= r.denom && s.numer <= r.denom,
{
}

/// Two pasts amount to the same exactly where all that is told of a peer is the same in
/// both; each part of it is told under its own name.
pub proof fn summaries_tell_each_part(a: PeerPerformanceHistory, b: PeerPerformanceHistory)
    ensures
        a.summary_spec() == b.summary_spec() <==> a.avg_rtt == b.avg_rtt && a.success_rate
            == b.success_rate && a.avg_bandwidth == b.avg_bandwidth && a.packet_loss_rate
            == b.packet_loss_rate && a.recent_rtt_trend == b.recent_rtt_trend
            && a.recent_success_trend == b.recent_success_trend && a.connection_stability
            == b.connection_stability && a.uptime_hours == b.uptime_hours,
        a.summary_spec().avg_bandwidth == a.avg_bandwidth,
        a.summary_spec().uptime_hours == a.uptime_hours,
        a.summary_spec().success_rate == a.success_rate,
        a.summary_spec().recent_rtt_trend == a.recent_rtt_trend,
        a.summary_spec().recent_success_trend == a.recent_success_trend,
        a.summary_spec().packet_loss_rate == a.packet_loss_rate,
        a.summary_spec().connection_stability == a.connection_stability,
{
}

/// A peer is told by its own past and by no other; one without a past by nothing but
/// zeros.
pub proof fn peers_are_told_by_their_own_past(
    x: RoutingFeatureExtractor,
    y: RoutingFeatureExtractor,
    peer: PeerView,
)
    requires
        x.peer_history@.dom().contains(peer) == y.peer_history@.dom().contains(peer),
        x.peer_history@.dom().contains(peer) ==> x.peer_history@[peer] == y.peer_history@[peer],
    ensures
        x.peer_summary(peer) == y.peer_summary(peer),
        x.peer_history@.dom().contains(peer) ==> x.peer_summary(peer).avg_rtt
            == x.peer_history@[peer].avg_rtt,
        !x.peer_history@.dom().contains(peer) ==> {
            let s = x.peer_summary(peer);
            &&& s.avg_rtt.nanos == 0
            &&& s.success_rate.is(0, 1)
            &&& s.avg_bandwidth.is(0, 1)
            &&& s.uptime_hours.is(0, 1)
            &&& s.recent_rtt_trend.numer == 0
            &&& s.recent_success_trend.numer == 0
        },
{
}

} // verus!

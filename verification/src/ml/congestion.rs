//! Congestion control that learns: which action is taken, what is remembered of
//! states, actions and rewards, and when the classical controller serves
//! instead.
use crate::ml::backend::BackendManager;
use crate::ml::features::{push_bounded, CongestionFeatureExtractor};
use crate::ml::float_bits::{
    named_numbers_are_what_they_are_called, numbers_compare_by_value, units, F32Bits, HALF, HUNDRED,
    MINUS_HALF, ONE, TENTH, TWO, ZERO,
};
use crate::ml::{resolved, texts, Enhanced, EnhancedOutcome, Feature, FeatureVector, MLConfig, Prediction};
use crate::random::{random_byte, random_word};
use crate::time::{Duration, Instant};
use std::collections::VecDeque;
use vstd::prelude::*;

verus! {

/// States, actions and rewards remembered.
pub const MAX_HISTORY: usize = 1000;

/// Experiences remembered for training.
pub const MAX_EXPERIENCES: usize = 10_000;

/// States taken together for a recent mean.
pub const RECENT_STATES: usize = 10;

/// Measurements kept for features.
pub const MAX_MEASUREMENTS: usize = 1000;

/// The largest congestion window.
pub const MAX_CWND: u32 = 65_535;

// ---------------------------------------------------------------------------
// Actions
// ---------------------------------------------------------------------------

/// What to do about the bandwidth.
#[derive(Clone, Copy, Debug, PartialEq, Eq, Structural)]
pub enum BandwidthAdjustment {
    Increase,
    Decrease,
    Maintain,
}

/// What to do about the congestion window.
#[derive(Clone, Copy, Debug, PartialEq, Eq, Structural)]
pub enum CwndAdjustment {
    Increase,
    Decrease,
    Maintain,
}

/// What to do about the pacing.
#[derive(Clone, Copy, Debug, PartialEq, Eq, Structural)]
pub enum PacingAdjustment {
    Faster,
    Slower,
    Maintain,
}

impl BandwidthAdjustment {
    /// The adjustment that a byte stands for.
    pub open spec fn of_byte(b: u8) -> Self {
        if b % 3 == 0 {
            BandwidthAdjustment::Increase
        } else if b % 3 == 1 {
            BandwidthAdjustment::Decrease
        } else {
            BandwidthAdjustment::Maintain
        }
    }

    /// The adjustment that a byte stands for.
    pub fn from_byte(b: u8) -> (a: Self)
        ensures
            a == Self::of_byte(b),
    {
        match b % 3 {
            0 => BandwidthAdjustment::Increase,
            1 => BandwidthAdjustment::Decrease,
            _ => BandwidthAdjustment::Maintain,
        }
    }

    /// Any adjustment, by chance.
    pub fn random() -> (a: Self)
        ensures
            exists|b: u8| a == #[trigger] Self::of_byte(b),
    {
        Self::from_byte(random_byte())
    }
}

impl CwndAdjustment {
    /// The adjustment that a byte stands for.
    pub open spec fn of_byte(b: u8) -> Self {
        if b % 3 == 0 {
            CwndAdjustment::Increase
        } else if b % 3 == 1 {
            CwndAdjustment::Decrease
        } else {
            CwndAdjustment::Maintain
        }
    }

    /// The adjustment that a byte stands for.
    pub fn from_byte(b: u8) -> (a: Self)
        ensures
            a == Self::of_byte(b),
    {
        match b % 3 {
            0 => CwndAdjustment::Increase,
            1 => CwndAdjustment::Decrease,
            _ => CwndAdjustment::Maintain,
        }
    }

    /// Any adjustment, by chance.
    pub fn random() -> (a: Self)
        ensures
            exists|b: u8| a == #[trigger] Self::of_byte(b),
    {
        Self::from_byte(random_byte())
    }
}

impl PacingAdjustment {
    /// The adjustment that a byte stands for.
    pub open spec fn of_byte(b: u8) -> Self {
        if b % 3 == 0 {
            PacingAdjustment::Faster
        } else if b % 3 == 1 {
            PacingAdjustment::Slower
        } else {
            PacingAdjustment::Maintain
        }
    }

    /// The adjustment that a byte stands for.
    pub fn from_byte(b: u8) -> (a: Self)
        ensures
            a == Self::of_byte(b),
    {
        match b % 3 {
            0 => PacingAdjustment::Faster,
            1 => PacingAdjustment::Slower,
            _ => PacingAdjustment::Maintain,
        }
    }

    /// Any adjustment, by chance.
    pub fn random() -> (a: Self)
        ensures
            exists|b: u8| a == #[trigger] Self::of_byte(b),
    {
        Self::from_byte(random_byte())
    }
}

/// An action of the controller.
#[derive(Clone, Copy, Debug, PartialEq, Eq, Structural)]
pub struct CongestionAction {
    pub bandwidth_adjustment: BandwidthAdjustment,
    pub cwnd_adjustment: CwndAdjustment,
    pub pacing_adjustment: PacingAdjustment,
}

/// Which way a predicted value points.
#[derive(Clone, Copy, Debug, PartialEq, Eq, Structural)]
pub enum Direction {
    /// Above one half.
    Up,
    /// Below minus one half.
    Down,
    /// Neither, or not a number.
    Level,
}

/// The value at an index, zero where there is none.
pub open spec fn value_at(values: Seq<F32Bits>, i: int) -> F32Bits {
    if 0 <= i < values.len() {
        values[i]
    } else {
        F32Bits { bits: ZERO }
    }
}

/// Which way a value points.
pub open spec fn direction_of(v: F32Bits) -> Direction {
    if (F32Bits { bits: HALF }).lt_spec(v) {
        Direction::Up
    } else if v.lt_spec(F32Bits { bits: MINUS_HALF }) {
        Direction::Down
    } else {
        Direction::Level
    }
}

fn direction(values: &Vec<F32Bits>, i: usize) -> (d: Direction)
    ensures
        d == direction_of(value_at(values@, i as int)),
{
    let v = if i < values.len() {
        values[i]
    } else {
        F32Bits { bits: ZERO }
    };
    if (F32Bits { bits: HALF }).lt(v) {
        Direction::Up
    } else if v.lt(F32Bits { bits: MINUS_HALF }) {
        Direction::Down
    } else {
        Direction::Level
    }
}

impl CongestionAction {
    /// The action that a prediction's first three values point to.
    pub open spec fn pointed_to(values: Seq<F32Bits>) -> CongestionAction {
        CongestionAction {
            bandwidth_adjustment: match direction_of(value_at(values, 0)) {
                Direction::Up => BandwidthAdjustment::Increase,
                Direction::Down => BandwidthAdjustment::Decrease,
                Direction::Level => BandwidthAdjustment::Maintain,
            },
            cwnd_adjustment: match direction_of(value_at(values, 1)) {
                Direction::Up => CwndAdjustment::Increase,
                Direction::Down => CwndAdjustment::Decrease,
                Direction::Level => CwndAdjustment::Maintain,
            },
            pacing_adjustment: match direction_of(value_at(values, 2)) {
                Direction::Up => PacingAdjustment::Faster,
                Direction::Down => PacingAdjustment::Slower,
                Direction::Level => PacingAdjustment::Maintain,
            },
        }
    }

    /// Each part of the action is one that some byte stands for.
    pub open spec fn by_chance(self) -> bool {
        &&& exists|b: u8| self.bandwidth_adjustment == #[trigger] BandwidthAdjustment::of_byte(b)
        &&& exists|b: u8| self.cwnd_adjustment == #[trigger] CwndAdjustment::of_byte(b)
        &&& exists|b: u8| self.pacing_adjustment == #[trigger] PacingAdjustment::of_byte(b)
    }

    /// Any action, by chance.
    pub fn random() -> (a: Self)
        ensures
            a.by_chance(),
    {
        CongestionAction {
            bandwidth_adjustment: BandwidthAdjustment::random(),
            cwnd_adjustment: CwndAdjustment::random(),
            pacing_adjustment: PacingAdjustment::random(),
        }
    }

    /// The action that a prediction points to.
    pub fn from_prediction(prediction: &Prediction) -> (a: Self)
        ensures
            a == Self::pointed_to(prediction.values@),
    {
        CongestionAction {
            bandwidth_adjustment: match direction(&prediction.values, 0) {
                Direction::Up => BandwidthAdjustment::Increase,
                Direction::Down => BandwidthAdjustment::Decrease,
                Direction::Level => BandwidthAdjustment::Maintain,
            },
            cwnd_adjustment: match direction(&prediction.values, 1) {
                Direction::Up => CwndAdjustment::Increase,
                Direction::Down => CwndAdjustment::Decrease,
                Direction::Level => CwndAdjustment::Maintain,
            },
            pacing_adjustment: match direction(&prediction.values, 2) {
                Direction::Up => PacingAdjustment::Faster,
                Direction::Down => PacingAdjustment::Slower,
                Direction::Level => PacingAdjustment::Maintain,
            },
        }
    }
}

/// A prediction without values changes nothing.
pub proof fn empty_prediction_maintains()
    ensures
        CongestionAction::pointed_to(Seq::<F32Bits>::empty()) == (CongestionAction {
            bandwidth_adjustment: BandwidthAdjustment::Maintain,
            cwnd_adjustment: CwndAdjustment::Maintain,
            pacing_adjustment: PacingAdjustment::Maintain,
        }),
{
}

/// The window within the bounds that is nearest to a window.
pub open spec fn nearest_cwnd(cwnd: u32, r: u32) -> bool {
    &&& 1 <= r <= MAX_CWND
    &&& 1 <= cwnd <= MAX_CWND ==> r == cwnd
    &&& cwnd < 1 ==> r == 1
    &&& cwnd > MAX_CWND ==> r == MAX_CWND
}

/// A congestion window within its bounds.
pub fn clamp_cwnd(cwnd: u32) -> (r: u32)
    ensures
        nearest_cwnd(cwnd, r),
        r == (if cwnd < 1 {
            1
        } else if cwnd > MAX_CWND {
            MAX_CWND
        } else {
            cwnd
        }),
{
    if cwnd < 1 {
        1
    } else if cwnd > MAX_CWND {
        MAX_CWND
    } else {
        cwnd
    }
}

/// The factor of the pacing rate that a prediction gives: its value, held
/// between one half and two.
pub fn pacing_multiplier(prediction: &Prediction) -> (m: F32Bits)
    ensures
        m == prediction.primary().max_spec(F32Bits { bits: HALF }).min_spec(F32Bits { bits: TWO }),
        m.ge_spec(F32Bits { bits: HALF }) && (F32Bits { bits: TWO }).ge_spec(m),
{
    prediction.primary_value().max(F32Bits { bits: HALF }).min(F32Bits { bits: TWO })
}

// ---------------------------------------------------------------------------
// The enhancer
// ---------------------------------------------------------------------------

/// What the transport measured.
#[derive(Clone, Copy, Debug, PartialEq, Eq, Structural)]
pub struct TransportStats {
    pub congestion_window: u32,
    pub rtt: Duration,
    pub throughput_bps: F32Bits,
    pub packet_loss_rate: F32Bits,
}

/// The state that an action was taken in.
#[derive(Clone, Copy, Debug, PartialEq, Eq, Structural)]
pub struct CongestionState {
    pub cwnd: u32,
    /// Round trip in milliseconds.
    pub rtt: Feature,
    pub throughput: F32Bits,
    pub loss_rate: F32Bits,
    pub timestamp: Instant,
}

impl CongestionState {
    /// The state that the transport measured.
    pub fn from_stats(stats: &TransportStats, now: Instant) -> (s: Self)
        ensures
            s == (CongestionState {
                cwnd: stats.congestion_window,
                rtt: Feature::Whole(stats.rtt.nanos / 1_000_000),
                throughput: stats.throughput_bps,
                loss_rate: stats.packet_loss_rate,
                timestamp: now,
            }),
    {
        CongestionState {
            cwnd: stats.congestion_window,
            rtt: Feature::Whole(stats.rtt.as_millis()),
            throughput: stats.throughput_bps,
            loss_rate: stats.packet_loss_rate,
            timestamp: now,
        }
    }
}

/// A mean to be taken: the sum of some terms over a divisor.
#[derive(Debug)]
pub struct RecentMean {
    pub terms: Vec<Feature>,
    pub divisor: usize,
}

/// Which part of a state.
#[derive(Clone, Copy, Debug, PartialEq, Eq, Structural)]
pub enum StatePart {
    Throughput,
    Rtt,
    LossRate,
}

/// The part of a state as a feature.
pub open spec fn part_of(s: CongestionState, part: StatePart) -> Feature {
    match part {
        StatePart::Throughput => Feature::Single(s.throughput),
        StatePart::Rtt => s.rtt,
        StatePart::LossRate => Feature::Single(s.loss_rate),
    }
}

/// The parts of the last states, the last one first.
pub open spec fn recent_terms(states: Seq<CongestionState>, part: StatePart) -> Seq<Feature> {
    Seq::new(
        if states.len() < RECENT_STATES {
            states.len()
        } else {
            RECENT_STATES as nat
        },
        |i: int| part_of(states[states.len() - 1 - i], part),
    )
}

/// What enhances a congestion controller.
#[derive(Debug)]
pub struct RLCongestionEnhancer {
    pub backend_manager: BackendManager,
    pub feature_extractor: CongestionFeatureExtractor,
    pub state_history: VecDeque<CongestionState>,
    pub action_history: VecDeque<CongestionAction>,
    pub reward_history: VecDeque<F32Bits>,
    pub config: MLConfig,
    /// How often an action is taken by chance.
    pub exploration_rate: F32Bits,
}

impl RLCongestionEnhancer {
    /// Nothing is remembered beyond its bounds.
    pub open spec fn wf(&self) -> bool {
        &&& self.state_history@.len() <= MAX_HISTORY
        &&& self.action_history@.len() <= MAX_HISTORY
        &&& self.reward_history@.len() <= MAX_HISTORY
    }

    /// An enhancer that remembers nothing and explores one time in ten.
    pub fn new(config: MLConfig) -> (e: Self)
        ensures
            e.wf(),
            e.config == config,
            e.state_history@.len() == 0,
            e.action_history@.len() == 0,
            e.reward_history@.len() == 0,
            e.feature_extractor.measurement_history@.len() == 0,
            e.feature_extractor.max_history_size == MAX_MEASUREMENTS,
            e.exploration_rate.bits == TENTH,
            e.backend_manager.max_latency.nanos == config.max_inference_latency_ms * 1_000_000,
            e.backend_manager.fallback.default_prediction.bits == HUNDRED,
    {
        let max_latency = Duration::from_millis(config.max_inference_latency_ms);
        RLCongestionEnhancer {
            backend_manager: BackendManager::new(max_latency),
            feature_extractor: CongestionFeatureExtractor::new(MAX_MEASUREMENTS),
            state_history: VecDeque::new(),
            action_history: VecDeque::new(),
            reward_history: VecDeque::new(),
            config,
            exploration_rate: F32Bits { bits: TENTH },
        }
    }

    /// Whether a number drawn evenly between zero and one makes for an action by
    /// chance.
    pub fn explores(&self, draw: F32Bits) -> (b: bool)
        ensures
            b == draw.lt_spec(self.exploration_rate),
    {
        draw.lt(self.exploration_rate)
    }

    /// The action taken: by chance where no prediction was asked for, and what
    /// the prediction points to otherwise.
    pub fn select_action(&self, draw: F32Bits, prediction: Option<&Prediction>) -> (a:
        CongestionAction)
        requires
            !draw.lt_spec(self.exploration_rate) ==> prediction is Some,
        ensures
            draw.lt_spec(self.exploration_rate) ==> a.by_chance(),
            !draw.lt_spec(self.exploration_rate) ==> a == CongestionAction::pointed_to(
                prediction->0.values@,
            ),
    {
        if self.explores(draw) {
            return CongestionAction::random();
        }
        match prediction {
            Some(p) => CongestionAction::from_prediction(p),
            None => CongestionAction::random(),
        }
    }

    /// Remembers a state and the action taken in it.
    pub fn record_state_action(&mut self, state: CongestionState, action: CongestionAction)
        requires
            old(self).wf(),
        ensures
            final(self).wf(),
            final(self).state_history@ == push_bounded(
                old(self).state_history@,
                state,
                MAX_HISTORY as nat,
            ),
            final(self).action_history@ == push_bounded(
                old(self).action_history@,
                action,
                MAX_HISTORY as nat,
            ),
            final(self).reward_history == old(self).reward_history,
            final(self).backend_manager == old(self).backend_manager,
            final(self).feature_extractor == old(self).feature_extractor,
            final(self).config == old(self).config,
            final(self).exploration_rate == old(self).exploration_rate,
    {
        push_back_bounded(&mut self.state_history, state, MAX_HISTORY);
        push_back_bounded(&mut self.action_history, action, MAX_HISTORY);
    }

    /// Remembers the reward of the last action.
    pub fn record_reward(&mut self, reward: F32Bits)
        requires
            old(self).wf(),
        ensures
            final(self).wf(),
            final(self).reward_history@ == push_bounded(
                old(self).reward_history@,
                reward,
                MAX_HISTORY as nat,
            ),
            final(self).state_history == old(self).state_history,
            final(self).action_history == old(self).action_history,
            final(self).backend_manager == old(self).backend_manager,
            final(self).feature_extractor == old(self).feature_extractor,
            final(self).config == old(self).config,
            final(self).exploration_rate == old(self).exploration_rate,
    {
        push_back_bounded(&mut self.reward_history, reward, MAX_HISTORY);
    }

    /// The mean of a part of the last states: at most ten of them, over ten or
    /// over the number of states where that is larger.
    pub fn recent_mean(&self, part: StatePart) -> (m: RecentMean)
        ensures
            m.terms@ == recent_terms(self.state_history@, part),
            m.divisor == (if self.state_history@.len() > RECENT_STATES {
                self.state_history@.len() as int
            } else {
                RECENT_STATES as int
            }),
            m.divisor == divisor_for(self.state_history@.len()),
    {
        let n: usize = self.state_history.len();
        let mut terms: Vec<Feature> = Vec::new();
        let mut i: usize = 0;
        while i < n && i < RECENT_STATES
            invariant
                n == self.state_history@.len(),
                i <= n,
                i <= RECENT_STATES,
                terms@.len() == i,
                forall|j: int|
                    0 <= j < i ==> #[trigger] terms@[j] == part_of(
                        self.state_history@[n - 1 - j],
                        part,
                    ),
            decreases n - i,
        {
            let s: CongestionState = self.state_history[n - 1 - i];
            let f = match part {
                StatePart::Throughput => Feature::Single(s.throughput),
                StatePart::Rtt => s.rtt,
                StatePart::LossRate => Feature::Single(s.loss_rate),
            };
            terms.push(f);
            i += 1;
        }
        assert(terms@ =~= recent_terms(self.state_history@, part));
        RecentMean {
            terms,
            divisor: if n > RECENT_STATES {
                n
            } else {
                RECENT_STATES
            },
        }
    }

    /// Recent throughput.
    pub fn get_recent_throughput(&self) -> (m: RecentMean)
        ensures
            m.terms@ == recent_terms(self.state_history@, StatePart::Throughput),
            m.divisor == (if self.state_history@.len() > RECENT_STATES {
                self.state_history@.len() as int
            } else {
                RECENT_STATES as int
            }),
            m.divisor == divisor_for(self.state_history@.len()),
    {
        self.recent_mean(StatePart::Throughput)
    }

    /// Recent round trip.
    pub fn get_recent_rtt(&self) -> (m: RecentMean)
        ensures
            m.terms@ == recent_terms(self.state_history@, StatePart::Rtt),
            m.divisor == (if self.state_history@.len() > RECENT_STATES {
                self.state_history@.len() as int
            } else {
                RECENT_STATES as int
            }),
            m.divisor == divisor_for(self.state_history@.len()),
    {
        self.recent_mean(StatePart::Rtt)
    }

    /// Recent loss rate.
    pub fn get_recent_loss_rate(&self) -> (m: RecentMean)
        ensures
            m.terms@ == recent_terms(self.state_history@, StatePart::LossRate),
            m.divisor == (if self.state_history@.len() > RECENT_STATES {
                self.state_history@.len() as int
            } else {
                RECENT_STATES as int
            }),
            m.divisor == divisor_for(self.state_history@.len()),
    {
        self.recent_mean(StatePart::LossRate)
    }
}

/// The names of the pacing features.
pub open spec fn pacing_names() -> Seq<Seq<char>> {
    seq!["bandwidth_estimate"@, "recent_throughput"@, "recent_rtt"@, "recent_loss_rate"@]
}

/// The features for a pacing decision.
pub fn pacing_features(
    bandwidth_estimate: F32Bits,
    recent_throughput: F32Bits,
    recent_rtt: F32Bits,
    recent_loss_rate: F32Bits,
    now: Instant,
) -> (v: FeatureVector)
    ensures
        v.wf(),
        v.timestamp == now,
        texts(v.names@) == pacing_names(),
        v.features@ == seq![
            Feature::Single(bandwidth_estimate),
            Feature::Single(recent_throughput),
            Feature::Single(recent_rtt),
            Feature::Single(recent_loss_rate),
        ],
{
    let features: Vec<Feature> = vec![
        Feature::Single(bandwidth_estimate),
        Feature::Single(recent_throughput),
        Feature::Single(recent_rtt),
        Feature::Single(recent_loss_rate),
    ];
    let names: Vec<String> = vec![
        "bandwidth_estimate".to_owned(),
        "recent_throughput".to_owned(),
        "recent_rtt".to_owned(),
        "recent_loss_rate".to_owned(),
    ];
    assert(features@ =~= seq![
        Feature::Single(bandwidth_estimate),
        Feature::Single(recent_throughput),
        Feature::Single(recent_rtt),
        Feature::Single(recent_loss_rate),
    ]);
    assert(texts(names@) =~= pacing_names());
    FeatureVector::new(features, names, now)
}

fn push_back_bounded<T>(q: &mut VecDeque<T>, x: T, max: usize)
    requires
        old(q)@.len() <= max,
    ensures
        final(q)@ == push_bounded(old(q)@, x, max as nat),
        final(q)@.len() <= max,
{
    q.push_back(x);
    if q.len() > max {
        q.pop_front();
    }
    assert(q@ =~= push_bounded(old(q)@, x, max as nat));
}

/// A congestion controller that learns.
#[derive(Debug)]
pub struct RLCongestionController<C> {
    pub inner: Enhanced<C, RLCongestionEnhancer>,
}

impl<C> RLCongestionController<C> {
    /// A controller that is enhanced where the configuration enables it.
    pub fn new(base_controller: C, config: MLConfig) -> (r: Self)
        ensures
            r.inner.base == base_controller,
            r.inner.config == config,
            r.inner.enhancement is Some <==> config.enabled,
            r.inner.enhanced() == config.enabled,
            config.enabled ==> r.inner.enhancement->0.wf()
                && r.inner.enhancement->0.state_history@.len() == 0,
    {
        let enhancement = if config.enabled {
            Some(RLCongestionEnhancer::new(config.duplicate()))
        } else {
            None
        };
        RLCongestionController { inner: Enhanced::new(base_controller, enhancement, config) }
    }

    /// Whether learning is used.
    pub fn has_enhancement(&self) -> (b: bool)
        ensures
            b == self.inner.enhanced(),
    {
        self.inner.has_enhancement()
    }

    /// What becomes of a bandwidth estimate, given what learning came to.
    pub fn estimate_bandwidth<B, X>(&self, attempt: Option<Result<B, X>>) -> (out: EnhancedOutcome<
        B,
        X,
    >)
        requires
            self.inner.enhancement is Some <==> attempt is Some,
        ensures
            out == resolved(self.inner.config.fallback_on_error, attempt),
    {
        self.inner.resolve(attempt)
    }

    /// What becomes of a congestion window, given what learning came to.
    pub fn adapt_congestion_window<X>(&self, attempt: Option<Result<u32, X>>) -> (out:
        EnhancedOutcome<u32, X>)
        requires
            self.inner.enhancement is Some <==> attempt is Some,
        ensures
            out == resolved(self.inner.config.fallback_on_error, attempt),
    {
        self.inner.resolve(attempt)
    }

    /// The factor of the pacing rate, if the controller is enhanced.
    pub fn get_pacing_rate(&self, prediction: &Prediction) -> (m: Option<F32Bits>)
        ensures
            m == (if self.inner.enhancement is Some {
                Some(
                    prediction.primary().max_spec(F32Bits { bits: HALF }).min_spec(
                        F32Bits { bits: TWO },
                    ),
                )
            } else {
                None
            }),
    {
        if self.inner.enhancement.is_some() {
            Some(pacing_multiplier(prediction))
        } else {
            None
        }
    }
}

// ---------------------------------------------------------------------------
// Training
// ---------------------------------------------------------------------------

/// A state, what was done in it, what it brought, and the state after.
#[derive(Clone, Copy, Debug, PartialEq, Eq, Structural)]
pub struct Experience {
    pub state: CongestionState,
    pub action: CongestionAction,
    pub reward: F32Bits,
    pub next_state: CongestionState,
    pub timestamp: Instant,
}

/// Collects experiences for training.
#[derive(Debug)]
pub struct RLTrainer {
    pub experience_buffer: VecDeque<Experience>,
    pub target_throughput: F32Bits,
    pub target_rtt: F32Bits,
}

impl RLTrainer {
    pub open spec fn wf(&self) -> bool {
        self.experience_buffer@.len() <= MAX_EXPERIENCES
    }

    /// Nothing has been experienced.
    pub fn new(target_throughput: F32Bits, target_rtt: F32Bits) -> (t: Self)
        ensures
            t.wf(),
            t.experience_buffer@.len() == 0,
            t.target_throughput == target_throughput,
            t.target_rtt == target_rtt,
    {
        RLTrainer { experience_buffer: VecDeque::new(), target_throughput, target_rtt }
    }

    /// Remembers an experience.
    pub fn record_experience(
        &mut self,
        state: CongestionState,
        action: CongestionAction,
        reward: F32Bits,
        next_state: CongestionState,
        now: Instant,
    )
        requires
            old(self).wf(),
        ensures
            final(self).wf(),
            final(self).target_throughput == old(self).target_throughput,
            final(self).target_rtt == old(self).target_rtt,
            final(self).experience_buffer@ == push_bounded(
                old(self).experience_buffer@,
                Experience { state, action, reward, next_state, timestamp: now },
                MAX_EXPERIENCES as nat,
            ),
    {
        push_back_bounded(
            &mut self.experience_buffer,
            Experience { state, action, reward, next_state, timestamp: now },
            MAX_EXPERIENCES,
        );
    }

    /// The experience that a word picks.
    pub open spec fn picked(&self, word: usize) -> Experience {
        self.experience_buffer@[word as int % self.experience_buffer@.len() as int]
    }

    /// The experience that a word picks.
    pub fn pick(&self, word: usize) -> (e: Experience)
        requires
            self.experience_buffer@.len() > 0,
        ensures
            e == self.picked(word),
            self.experience_buffer@.contains(e),
    {
        let i: usize = word % self.experience_buffer.len();
        self.experience_buffer[i]
    }

    /// Experiences by chance, with repetition: as many as asked for, but no more
    /// than there are.
    pub fn sample_batch(&self, batch_size: usize) -> (batch: Vec<Experience>)
        ensures
            batch@.len() == (if batch_size < self.experience_buffer@.len() {
                batch_size as int
            } else {
                self.experience_buffer@.len() as int
            }),
            forall|i: int|
                0 <= i < batch@.len() ==> self.experience_buffer@.contains(#[trigger] batch@[i]),
    {
        let available: usize = self.experience_buffer.len();
        let count: usize = if batch_size < available {
            batch_size
        } else {
            available
        };
        let mut batch: Vec<Experience> = Vec::new();
        let mut i: usize = 0;
        while i < count
            invariant
                i <= count <= self.experience_buffer@.len(),
                batch@.len() == i,
                forall|j: int|
                    0 <= j < batch@.len() ==> self.experience_buffer@.contains(
                        #[trigger] batch@[j],
                    ),
            decreases count - i,
        {
            batch.push(self.pick(random_word()));
            i += 1;
        }
        batch
    }
}

// ---------------------------------------------------------------------------
// What actions mean
// ---------------------------------------------------------------------------

/// The first value of a prediction is about the bandwidth, the second about the window
/// and the third about the pacing: above one half it calls for more or faster, below
/// minus one half for less or slower, and between these, where it is missing or no
/// number, for no change.
pub proof fn predictions_point_the_way(values: Seq<F32Bits>)
    ensures
        values.len() > 0 && values[0].is_finite_spec() ==> {
            let a = CongestionAction::pointed_to(values).bandwidth_adjustment;
            &&& a is Increase <==> 2 * units(values[0]) > units(F32Bits { bits: ONE })
            &&& a is Decrease <==> 2 * units(values[0]) < -units(F32Bits { bits: ONE })
        },
        values.len() <= 0 || values[0].is_nan_spec() ==> CongestionAction::pointed_to(values).bandwidth_adjustment is Maintain,
        values.len() > 1 && values[1].is_finite_spec() ==> {
            let a = CongestionAction::pointed_to(values).cwnd_adjustment;
            &&& a is Increase <==> 2 * units(values[1]) > units(F32Bits { bits: ONE })
            &&& a is Decrease <==> 2 * units(values[1]) < -units(F32Bits { bits: ONE })
        },
        values.len() <= 1 || values[1].is_nan_spec() ==> CongestionAction::pointed_to(values).cwnd_adjustment is Maintain,
        values.len() > 2 && values[2].is_finite_spec() ==> {
            let a = CongestionAction::pointed_to(values).pacing_adjustment;
            &&& a is Faster <==> 2 * units(values[2]) > units(F32Bits { bits: ONE })
            &&& a is Slower <==> 2 * units(values[2]) < -units(F32Bits { bits: ONE })
        },
        values.len() <= 2 || values[2].is_nan_spec() ==> CongestionAction::pointed_to(values).pacing_adjustment is Maintain,
{
    named_numbers_are_what_they_are_called();
    let value = |bits: u32| units(F32Bits { bits });
    assert(2 * value(HALF) == value(ONE));
    assert(2 * value(MINUS_HALF) == -value(ONE));
    assert forall|i: int| 0 <= i < values.len() && values[i].is_finite_spec() implies {
        &&& direction_of(#[trigger] values[i]) is Up <==> 2 * units(values[i]) > value(ONE)
        &&& direction_of(values[i]) is Down <==> 2 * units(values[i]) < -value(ONE)
    } by {
        numbers_compare_by_value(F32Bits { bits: HALF }, values[i]);
        numbers_compare_by_value(values[i], F32Bits { bits: MINUS_HALF });
    }
}

/// A byte stands for one of three adjustments, each for every third byte, and the same
/// for the bandwidth, the window and the pacing.
pub proof fn bytes_stand_for_adjustments(b: u8)
    ensures
        BandwidthAdjustment::of_byte(b) is Increase <==> b % 3 == 0,
        BandwidthAdjustment::of_byte(b) is Decrease <==> b % 3 == 1,
        BandwidthAdjustment::of_byte(b) is Maintain <==> b % 3 == 2,
        CwndAdjustment::of_byte(b) is Increase <==> b % 3 == 0,
        CwndAdjustment::of_byte(b) is Decrease <==> b % 3 == 1,
        CwndAdjustment::of_byte(b) is Maintain <==> b % 3 == 2,
        PacingAdjustment::of_byte(b) is Faster <==> b % 3 == 0,
        PacingAdjustment::of_byte(b) is Slower <==> b % 3 == 1,
        PacingAdjustment::of_byte(b) is Maintain <==> b % 3 == 2,
{
}

/// The parts of the last ten states are taken, the last one first, each the quantity
/// that was asked for.
pub proof fn recent_terms_are_the_last(states: Seq<CongestionState>, i: int)
    requires
        0 <= i < states.len(),
        i < 10,
    ensures
        recent_terms(states, StatePart::Throughput)[i] == Feature::Single(
            states[states.len() - 1 - i].throughput,
        ),
        recent_terms(states, StatePart::LossRate)[i] == Feature::Single(
            states[states.len() - 1 - i].loss_rate,
        ),
        recent_terms(states, StatePart::Rtt)[i] == states[states.len() - 1 - i].rtt,
        forall|part: StatePart|
            (#[trigger] recent_terms(states, part)).len() == (if states.len() < 10 {
                states.len()
            } else {
                10
            }),
{
}

/// The features for a pacing decision are named in their order: the bandwidth, and what
/// was seen of throughput, round trip and loss.
pub proof fn pacing_features_are_named()
    ensures
        pacing_names().len() == 4,
        pacing_names()[0] == "bandwidth_estimate"@,
        pacing_names()[1] == "recent_throughput"@,
        pacing_names()[2] == "recent_rtt"@,
        pacing_names()[3] == "recent_loss_rate"@,
{
}

/// A word picks one of the experiences, and words in a row pick each of them in turn.
pub proof fn words_pick_every_experience(t: RLTrainer, i: int)
    requires
        0 <= i < t.experience_buffer@.len(),
        i <= usize::MAX,
    ensures
        t.picked(i as usize) == t.experience_buffer@[i],
{
    vstd::arithmetic::div_mod::lemma_small_mod(i as nat, t.experience_buffer@.len());
}

/// What a mean over the last of so many states is divided by.
pub open spec fn divisor_for(states: nat) -> nat {
    if states > RECENT_STATES {
        states
    } else {
        RECENT_STATES as nat
    }
}

/// No window within the bounds is nearer to a window than the one that it becomes,
/// which is between one and 65535 and the window itself where that is.
pub proof fn windows_are_kept_within_bounds(cwnd: u32, r: u32, other: u32)
    requires
        nearest_cwnd(cwnd, r),
        1 <= other <= 65_535,
    ensures
        1 <= r <= 65_535,
        cwnd < r ==> r <= other,
        cwnd > r ==> r >= other,
        1 <= cwnd <= 65_535 ==> r == cwnd,
        nearest_cwnd(r, r),
{
}

/// A mean is over ten at least, and over as many states as there are where there are
/// more than ten.
pub proof fn means_are_over_ten_or_more(states: nat)
    ensures
        divisor_for(states) >= 10,
        divisor_for(states) >= states,
        divisor_for(states) == 10 || divisor_for(states) == states,
{
}

/// A controller remembers a thousand states, actions, rewards and measurements, and
/// training ten thousand experiences; then the oldest leaves.
pub proof fn the_past_is_kept_in_number<T>(s: Seq<T>, x: T)
    ensures
        s.len() < 1000 ==> push_bounded(s, x, MAX_HISTORY as nat) == s.push(x),
        s.len() == 1000 ==> push_bounded(s, x, MAX_HISTORY as nat) == s.subrange(1, 1000).push(x),
        s.len() < 1000 ==> push_bounded(s, x, MAX_MEASUREMENTS as nat) == s.push(x),
        s.len() == 1000 ==> push_bounded(s, x, MAX_MEASUREMENTS as nat) == s.subrange(
            1,
            1000,
        ).push(x),
        s.len() < 10_000 ==> push_bounded(s, x, MAX_EXPERIENCES as nat) == s.push(x),
        s.len() == 10_000 ==> push_bounded(s, x, MAX_EXPERIENCES as nat) == s.subrange(
            1,
            10_000,
        ).push(x),
{
}

} // verus!

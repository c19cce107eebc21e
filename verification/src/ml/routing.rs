//! Routing that uses predictions: which peers are asked about, how they are
//! ranked and chosen, what is remembered of predictions, and when the classical
//! router serves instead.
use crate::linear_map::{bytes_eq, lemma_entries_contains, lemma_entries_value, KeyEq, LinearMap};
use crate::ml::backend::BackendManager;
use crate::ml::features::{
    FeatureConfig, PeerPerformanceHistory, PeerView, RoutingFeatureExtractor,
};
use crate::ml::float_bits::{F32Bits, HALF, HUNDRED, HUNDREDTH, ONE, SEVEN_TENTHS, SIX_TENTHS};
use crate::ml::ranking::{is_sorted, sorting_permutes, stable_sort, stable_sorted, Ranked};
use crate::ml::{
    resolved, texts, Enhanced, EnhancedOutcome, Feature, FeatureVector, MLConfig, Prediction,
};
use crate::ring::{Location, PeerKeyHash};
use crate::time::{Duration, Instant};
use vstd::prelude::*;

verus! {

/// Seconds for which a prediction is used again.
pub const PREDICTION_TTL_SECS: u64 = 30;

/// Predictions kept before old ones are dropped.
pub const MAX_CACHED_PREDICTIONS: usize = 10_000;

/// Seconds for which predictions are kept once there are many.
pub const PREDICTION_KEEP_SECS: u64 = 300;

/// Seconds for which training data is kept.
pub const TRAINING_KEEP_SECS: u64 = 86_400;

/// What a peer is needed for.
#[derive(Clone, Copy, Debug, PartialEq, Eq, Hash, Structural)]
pub enum OperationType {
    /// A GET: latency counts.
    Retrieval,
    /// A PUT: reliability counts.
    Storage,
    /// Forwarding a message.
    Forwarding,
}

impl OperationType {
    /// How sure a prediction has to be.
    pub open spec fn threshold_spec(self) -> F32Bits {
        match self {
            OperationType::Retrieval => F32Bits { bits: SEVEN_TENTHS },
            OperationType::Storage => F32Bits { bits: SIX_TENTHS },
            OperationType::Forwarding => F32Bits { bits: HALF },
        }
    }

    /// How many peers are chosen at most.
    pub open spec fn max_peers_spec(self) -> nat {
        match self {
            OperationType::Retrieval => 5,
            OperationType::Storage => 8,
            OperationType::Forwarding => 3,
        }
    }

    /// How sure a prediction has to be.
    pub fn confidence_threshold(self) -> (t: F32Bits)
        ensures
            t == self.threshold_spec(),
    {
        match self {
            OperationType::Retrieval => F32Bits { bits: SEVEN_TENTHS },
            OperationType::Storage => F32Bits { bits: SIX_TENTHS },
            OperationType::Forwarding => F32Bits { bits: HALF },
        }
    }

    /// How many peers are chosen at most.
    pub fn max_peers(self) -> (n: usize)
        ensures
            n == self.max_peers_spec(),
    {
        match self {
            OperationType::Retrieval => 5,
            OperationType::Storage => 8,
            OperationType::Forwarding => 3,
        }
    }
}

/// A peer with its predicted score; a lower score is better.
#[derive(Clone, Copy, Debug)]
pub struct ScoredPeer {
    pub peer: PeerKeyHash,
    pub score: F32Bits,
    pub confidence: F32Bits,
}

impl Ranked for ScoredPeer {
    open spec fn rank_spec(&self) -> int {
        self.score.rank()
    }

    fn rank_of(&self) -> (r: i64) {
        self.score.signed()
    }
}

/// The peers whose prediction is sure enough.
pub open spec fn confident(s: Seq<ScoredPeer>, threshold: F32Bits) -> Seq<ScoredPeer>
    decreases s.len(),
{
    if s.len() == 0 {
        s
    } else if s.last().confidence.ge_spec(threshold) {
        confident(s.drop_last(), threshold).push(s.last())
    } else {
        confident(s.drop_last(), threshold)
    }
}

/// At most so many of the first elements.
pub open spec fn first_of<T>(s: Seq<T>, n: nat) -> Seq<T> {
    if s.len() <= n {
        s
    } else {
        s.subrange(0, n as int)
    }
}

/// The peers chosen from some in the order of preference: those whose
/// prediction is sure enough, and of these at most as many as the operation
/// allows.
pub open spec fn chosen(s: Seq<ScoredPeer>, operation_type: OperationType) -> Seq<ScoredPeer> {
    first_of(confident(s, operation_type.threshold_spec()), operation_type.max_peers_spec())
}

/// The peers of some scores.
pub open spec fn peers_of(s: Seq<ScoredPeer>) -> Seq<PeerKeyHash> {
    s.map_values(|x: ScoredPeer| x.peer)
}

/// No score is NaN.
pub open spec fn comparable(s: Seq<ScoredPeer>) -> bool {
    forall|i: int| 0 <= i < s.len() ==> !(#[trigger] s[i]).score.is_nan_spec()
}

/// Keeps the peers whose prediction is sure enough, in their order, up to as
/// many as the operation allows.
pub fn select_by_confidence(scored_peers: Vec<ScoredPeer>, operation_type: OperationType) -> (r: Vec<
    ScoredPeer,
>)
    ensures
        r@ == chosen(scored_peers@, operation_type),
{
    let threshold = operation_type.confidence_threshold();
    let mut kept: Vec<ScoredPeer> = Vec::new();
    let mut i: usize = 0;
    assert(scored_peers@.subrange(0, 0) =~= Seq::<ScoredPeer>::empty());
    while i < scored_peers.len()
        invariant
            i <= scored_peers@.len(),
            threshold == operation_type.threshold_spec(),
            kept@ == confident(scored_peers@.subrange(0, i as int), threshold),
        decreases scored_peers@.len() - i,
    {
        let p: ScoredPeer = scored_peers[i];
        if p.confidence.ge(threshold) {
            kept.push(p);
        }
        i += 1;
        assert(scored_peers@.subrange(0, i as int).drop_last() =~= scored_peers@.subrange(
            0,
            i - 1,
        ));
    }
    assert(scored_peers@.subrange(0, i as int) =~= scored_peers@);
    kept.truncate(operation_type.max_peers());
    kept
}

/// Ranks peers by their scores and chooses among them.
pub fn rank_peers(scored_peers: Vec<ScoredPeer>, operation_type: OperationType) -> (r: Vec<
    PeerKeyHash,
>)
    requires
        comparable(scored_peers@),
    ensures
        r@ == peers_of(chosen(stable_sorted(scored_peers@), operation_type)),
{
    let sorted = stable_sort(scored_peers);
    let selected = select_by_confidence(sorted, operation_type);
    let mut r: Vec<PeerKeyHash> = Vec::new();
    let mut i: usize = 0;
    while i < selected.len()
        invariant
            i <= selected@.len(),
            r@ == peers_of(selected@.subrange(0, i as int)),
        decreases selected@.len() - i,
    {
        r.push(selected[i].peer);
        i += 1;
        assert(r@ =~= peers_of(selected@.subrange(0, i as int)));
    }
    assert(selected@.subrange(0, i as int) =~= selected@);
    r
}

proof fn lemma_confident(s: Seq<ScoredPeer>, threshold: F32Bits)
    ensures
        confident(s, threshold).len() <= s.len(),
        forall|i: int|
            0 <= i < confident(s, threshold).len() ==> {
                &&& (#[trigger] confident(s, threshold)[i]).confidence.ge_spec(threshold)
                &&& s.contains(confident(s, threshold)[i])
            },
    decreases s.len(),
{
    if s.len() > 0 {
        let p = s.drop_last();
        lemma_confident(p, threshold);
        let r = confident(s, threshold);
        assert forall|i: int| 0 <= i < r.len() implies (#[trigger] r[i]).confidence.ge_spec(
            threshold,
        ) && s.contains(r[i]) by {
            if i < confident(p, threshold).len() {
                assert(r[i] == confident(p, threshold)[i]);
                let k = choose|k: int| 0 <= k < p.len() && p[k] == r[i];
                assert(s[k] == r[i]);
            } else {
                assert(s[s.len() - 1] == r[i]);
            }
        }
    }
}

/// Only peers that were asked about are chosen, each with a prediction that is
/// sure enough, and no more than the operation allows.
pub proof fn chosen_are_confident(s: Seq<ScoredPeer>, operation_type: OperationType)
    ensures
        chosen(s, operation_type).len() <= operation_type.max_peers_spec(),
        forall|i: int|
            0 <= i < chosen(s, operation_type).len() ==> {
                &&& (#[trigger] chosen(s, operation_type)[i]).confidence.ge_spec(
                    operation_type.threshold_spec(),
                )
                &&& s.contains(chosen(s, operation_type)[i])
            },
{
    lemma_confident(s, operation_type.threshold_spec());
    let c = confident(s, operation_type.threshold_spec());
    assert forall|i: int| 0 <= i < chosen(s, operation_type).len() implies (#[trigger] chosen(
        s,
        operation_type,
    )[i]).confidence.ge_spec(operation_type.threshold_spec()) && s.contains(
        chosen(s, operation_type)[i],
    ) by {
        assert(chosen(s, operation_type)[i] == c[i]);
    }
}

/// The key of a remembered prediction.
#[derive(Clone, Copy, Debug, PartialEq, Eq)]
pub struct RouteKey {
    pub peer: PeerKeyHash,
    pub target: Location,
    pub operation_type: OperationType,
}

/// The view of a key.
pub type RouteView = (Seq<u8>, Location, OperationType);

impl View for RouteKey {
    type V = RouteView;

    open spec fn view(&self) -> RouteView {
        (self.peer@, self.target, self.operation_type)
    }
}

impl KeyEq for RouteKey {
    fn key_eq(&self, other: &Self) -> (same: bool) {
        bytes_eq(&self.peer.bytes, &other.peer.bytes) && self.target == other.target
            && self.operation_type == other.operation_type
    }
}

impl RouteKey {
    /// The key for a peer, a target and an operation.
    pub fn new(peer: PeerKeyHash, target: Location, operation_type: OperationType) -> (k: Self)
        ensures
            k.peer == peer,
            k.target == target,
            k.operation_type == operation_type,
            k@ == (peer@, target, operation_type),
    {
        RouteKey { peer, target, operation_type }
    }
}

/// A prediction and when it was made.
#[derive(Debug)]
pub struct CachedPrediction {
    pub prediction: Prediction,
    pub timestamp: Instant,
}

impl CachedPrediction {
    /// The prediction can still be used.
    pub open spec fn fresh(&self, now: Instant) -> bool {
        now.since_spec(self.timestamp).nanos < 30_000_000_000
    }

    /// The prediction is kept even where there are many.
    pub open spec fn young(&self, now: Instant) -> bool {
        now.since_spec(self.timestamp).nanos < 300_000_000_000
    }
}

/// Predictions by what they are about.
pub type PredictionMap = Map<RouteView, CachedPrediction>;

/// A prediction for the key is remembered and can still be used.
pub open spec fn has_fresh(cache: PredictionMap, key: RouteView, now: Instant) -> bool {
    cache.dom().contains(key) && cache[key].fresh(now)
}

/// Features of a hop, as far as they are known for a whole route.
pub open spec fn hop_values(hop: int, hops: int) -> Seq<Feature> {
    seq![
        Feature::Whole(hop as u128),
        Feature::Whole(hops as u128),
        Feature::Single(F32Bits { bits: HALF }),
        Feature::Single(F32Bits { bits: HUNDRED }),
        Feature::Single(F32Bits { bits: HUNDREDTH }),
    ]
}

/// The names of the features of a hop.
pub open spec fn hop_names() -> Seq<Seq<char>> {
    seq!["hop_index"@, "total_hops"@, "distance"@, "rtt"@, "packet_loss"@]
}

/// The features of a hop of a route.
pub fn hop_features(hop: usize, hops: usize, now: Instant) -> (v: FeatureVector)
    ensures
        v.wf(),
        v.timestamp == now,
        v.features@ == hop_values(hop as int, hops as int),
        texts(v.names@) == hop_names(),
{
    let features: Vec<Feature> = vec![
        Feature::Whole(hop as u128),
        Feature::Whole(hops as u128),
        Feature::Single(F32Bits { bits: HALF }),
        Feature::Single(F32Bits { bits: HUNDRED }),
        Feature::Single(F32Bits { bits: HUNDREDTH }),
    ];
    let names: Vec<String> = vec![
        "hop_index".to_owned(),
        "total_hops".to_owned(),
        "distance".to_owned(),
        "rtt".to_owned(),
        "packet_loss".to_owned(),
    ];
    assert(features@ =~= hop_values(hop as int, hops as int));
    assert(texts(names@) =~= hop_names());
    FeatureVector::new(features, names, now)
}

/// What is predicted for a route.
#[derive(Debug)]
pub struct RoutePrediction {
    /// The latencies of the hops, whose sum is the latency of the route.
    pub latency_terms: Vec<F32Bits>,
    /// The confidence of the least sure hop.
    pub confidence: F32Bits,
    pub hop_predictions: Vec<Prediction>,
    pub predicted_success_rate: F32Bits,
}

/// The least confidence of some predictions, starting from certainty.
pub open spec fn least_confidence(s: Seq<Prediction>) -> F32Bits
    decreases s.len(),
{
    if s.len() == 0 {
        F32Bits { bits: ONE }
    } else {
        least_confidence(s.drop_last()).min_spec(s.last().confidence)
    }
}

/// The prediction for a route, given those for its hops.
pub fn predict_route(hop_predictions: Vec<Prediction>) -> (r: RoutePrediction)
    ensures
        r.hop_predictions == hop_predictions,
        r.confidence == least_confidence(hop_predictions@),
        r.predicted_success_rate == r.confidence,
        r.latency_terms@ == hop_predictions@.map_values(|p: Prediction| p.primary()),
{
    let mut latency_terms: Vec<F32Bits> = Vec::new();
    let mut confidence = F32Bits { bits: ONE };
    let mut i: usize = 0;
    assert(hop_predictions@.subrange(0, 0) =~= Seq::<Prediction>::empty());
    while i < hop_predictions.len()
        invariant
            i <= hop_predictions@.len(),
            confidence == least_confidence(hop_predictions@.subrange(0, i as int)),
            latency_terms@ == hop_predictions@.subrange(0, i as int).map_values(
                |p: Prediction| p.primary(),
            ),
        decreases hop_predictions@.len() - i,
    {
        let p = &hop_predictions[i];
        latency_terms.push(p.primary_value());
        confidence = confidence.min(p.confidence);
        i += 1;
        assert(hop_predictions@.subrange(0, i as int).drop_last() =~= hop_predictions@.subrange(
            0,
            i - 1,
        ));
        assert(latency_terms@ =~= hop_predictions@.subrange(0, i as int).map_values(
            |p: Prediction| p.primary(),
        ));
    }
    assert(hop_predictions@.subrange(0, i as int) =~= hop_predictions@);
    RoutePrediction {
        latency_terms,
        confidence,
        hop_predictions,
        predicted_success_rate: confidence,
    }
}

/// No hop is less sure than the route is said to be.
pub proof fn route_is_as_sure_as_its_least_hop(s: Seq<Prediction>, i: int)
    requires
        0 <= i < s.len(),
        forall|j: int| 0 <= j < s.len() ==> !(#[trigger] s[j]).confidence.is_nan_spec(),
    ensures
        s[i].confidence.ge_spec(least_confidence(s)),
        !least_confidence(s).is_nan_spec(),
        (F32Bits { bits: ONE }).ge_spec(least_confidence(s)),
    decreases s.len(),
{
    let p = s.drop_last();
    assert forall|j: int| 0 <= j < p.len() implies !(#[trigger] p[j]).confidence.is_nan_spec() by {
        assert(p[j] == s[j]);
    }
    assert(!s[s.len() - 1].confidence.is_nan_spec());
    if p.len() > 0 {
        if i < p.len() {
            route_is_as_sure_as_its_least_hop(p, i);
            assert(p[i] == s[i]);
        } else {
            route_is_as_sure_as_its_least_hop(p, 0);
        }
    }
}

/// The prediction for a route in progress: its first hops have a prediction.
#[derive(Debug)]
pub struct RouteForecast {
    /// How many hops the route has.
    pub hops: usize,
    /// What was predicted for the first of them, in order.
    pub predictions: Vec<Prediction>,
}

impl RouteForecast {
    /// No more hops have a prediction than there are.
    pub open spec fn wf(&self) -> bool {
        self.predictions@.len() <= self.hops
    }

    /// Every hop has a prediction.
    pub open spec fn complete(&self) -> bool {
        self.predictions@.len() == self.hops
    }

    /// No hop of a route has a prediction yet.
    pub fn new(hops: usize) -> (f: Self)
        ensures
            f.wf(),
            f.hops == hops,
            f.predictions@.len() == 0,
    {
        RouteForecast { hops, predictions: Vec::new() }
    }

    /// The features from which the next hop is predicted, those of its place in the
    /// route; none once every hop has a prediction.
    pub fn next_features(&self, now: Instant) -> (r: Option<FeatureVector>)
        requires
            self.wf(),
        ensures
            r is None <==> self.complete(),
            r is Some ==> {
                &&& r->0.wf()
                &&& r->0.timestamp == now
                &&& r->0.features@ == hop_values(
                    self.predictions@.len() as int,
                    self.hops as int,
                )
                &&& texts(r->0.names@) == hop_names()
            },
    {
        if self.predictions.len() < self.hops {
            Some(hop_features(self.predictions.len(), self.hops, now))
        } else {
            None
        }
    }

    /// Takes the prediction for the next hop.
    pub fn accept(&mut self, prediction: Prediction)
        requires
            old(self).wf(),
            !old(self).complete(),
        ensures
            final(self).wf(),
            final(self).hops == old(self).hops,
            final(self).predictions@ == old(self).predictions@.push(prediction),
    {
        self.predictions.push(prediction);
    }

    /// The prediction for the route, once every hop has one.
    pub fn finish(self) -> (r: RoutePrediction)
        requires
            self.complete(),
        ensures
            r.hop_predictions == self.predictions,
            r.hop_predictions@.len() == self.hops,
            r.confidence == least_confidence(self.predictions@),
            r.predicted_success_rate == r.confidence,
            r.latency_terms@ == self.predictions@.map_values(|p: Prediction| p.primary()),
    {
        predict_route(self.predictions)
    }
}

/// The choice of peers for a target in progress: the candidates before `next`
/// have a score.
#[derive(Debug)]
pub struct PeerSelection {
    pub candidates: Vec<PeerKeyHash>,
    pub target: Location,
    pub operation_type: OperationType,
    pub next: usize,
    pub scored: Vec<ScoredPeer>,
}

/// What is needed to go on with a choice of peers.
#[derive(Clone, Copy, Debug)]
pub enum SelectionStep {
    /// Predict the performance of the peer.
    Predict(PeerKeyHash),
    /// Every candidate has a score.
    Done,
}

impl PeerSelection {
    /// Each candidate dealt with has a score.
    pub open spec fn wf(&self) -> bool {
        &&& self.next <= self.candidates@.len()
        &&& self.scored@.len() == self.next
        &&& forall|i: int|
            0 <= i < self.next ==> (#[trigger] self.scored@[i]).peer == self.candidates@[i]
    }

    /// The key of a candidate.
    pub open spec fn key_of(&self, i: int) -> RouteView {
        (self.candidates@[i]@, self.target, self.operation_type)
    }

    /// No candidate has a score yet.
    pub fn new(candidates: Vec<PeerKeyHash>, target: Location, operation_type: OperationType) -> (s:
        Self)
        ensures
            s.wf(),
            s.candidates == candidates,
            s.target == target,
            s.operation_type == operation_type,
            s.next == 0,
    {
        PeerSelection { candidates, target, operation_type, next: 0, scored: Vec::new() }
    }
}

/// The score that a prediction gives a peer.
pub open spec fn score_of(peer: PeerKeyHash, p: Prediction) -> ScoredPeer {
    ScoredPeer { peer, score: p.primary(), confidence: p.confidence }
}

/// A score comes from a remembered prediction that can still be used.
pub open spec fn scored_by_memory(
    cache: PredictionMap,
    key: RouteView,
    scored: ScoredPeer,
    now: Instant,
) -> bool {
    &&& has_fresh(cache, key, now)
    &&& scored.score == cache[key].prediction.primary()
    &&& scored.confidence == cache[key].prediction.confidence
}

/// What enhances a router.
#[derive(Debug)]
pub struct MLRoutingEnhancer {
    pub backend_manager: BackendManager,
    pub feature_extractor: RoutingFeatureExtractor,
    pub prediction_cache: LinearMap<RouteKey, CachedPrediction>,
    pub config: MLConfig,
}

impl MLRoutingEnhancer {
    pub open spec fn wf(&self) -> bool {
        self.prediction_cache.wf() && self.feature_extractor.wf()
    }

    /// An enhancer that remembers nothing.
    pub fn new(config: MLConfig) -> (e: Self)
        ensures
            e.wf(),
            e.config == config,
            e.prediction_cache@ == PredictionMap::empty(),
            e.feature_extractor.peer_history@ == Map::<PeerView, PeerPerformanceHistory>::empty(),
            e.feature_extractor.config.max_history_age.nanos == 3_600_000_000_000,
            e.backend_manager.max_latency.nanos == config.max_inference_latency_ms * 1_000_000,
            e.backend_manager.fallback.default_prediction.bits == HUNDRED,
    {
        let max_latency = Duration::from_millis(config.max_inference_latency_ms);
        MLRoutingEnhancer {
            backend_manager: BackendManager::new(max_latency),
            feature_extractor: RoutingFeatureExtractor::new(FeatureConfig::default()),
            prediction_cache: LinearMap::new(),
            config,
        }
    }

    /// The remembered prediction for a key, if it can still be used.
    pub fn get_cached_prediction(&self, key: &RouteKey, now: Instant) -> (r: Option<&Prediction>)
        requires
            self.wf(),
        ensures
            r is Some <==> has_fresh(self.prediction_cache@, key@, now),
            r is Some ==> *r->0 == self.prediction_cache@[key@].prediction,
    {
        match self.prediction_cache.get(key) {
            Some(cached) => if now.since(cached.timestamp).nanos < Duration::from_secs(
                PREDICTION_TTL_SECS,
            ).nanos {
                Some(&cached.prediction)
            } else {
                None
            },
            None => None,
        }
    }

    /// Remembers a prediction. Where there are many, those that are not young
    /// are dropped.
    pub fn cache_prediction(&mut self, key: RouteKey, prediction: Prediction, now: Instant)
        requires
            old(self).wf(),
        ensures
            final(self).wf(),
            final(self).config == old(self).config,
            final(self).backend_manager == old(self).backend_manager,
            final(self).feature_extractor == old(self).feature_extractor,
            ({
                let all = old(self).prediction_cache@.insert(
                    key@,
                    CachedPrediction { prediction, timestamp: now },
                );
                let kept = final(self).prediction_cache@;
                if all.dom().len() <= MAX_CACHED_PREDICTIONS {
                    kept == all
                } else {
                    &&& forall|k: RouteView| #[trigger]
                        kept.dom().contains(k) <==> all.dom().contains(k) && all[k].young(now)
                    &&& forall|k: RouteView| #[trigger] kept.dom().contains(k) ==> kept[k] == all[k]
                }
            }),
            cached_anew(
                old(self).prediction_cache@,
                final(self).prediction_cache@,
                key@,
                CachedPrediction { prediction, timestamp: now },
                now,
            ),
    {
        self.prediction_cache.insert(key, CachedPrediction { prediction, timestamp: now });
        if self.prediction_cache.len() > MAX_CACHED_PREDICTIONS {
            self.drop_old_predictions(now);
        }
    }

    fn drop_old_predictions(&mut self, now: Instant)
        requires
            old(self).wf(),
        ensures
            final(self).wf(),
            final(self).config == old(self).config,
            final(self).backend_manager == old(self).backend_manager,
            final(self).feature_extractor == old(self).feature_extractor,
            forall|k: RouteView| #[trigger]
                final(self).prediction_cache@.dom().contains(k) <==> old(self).prediction_cache@.dom().contains(k) && old(self).prediction_cache@[k].young(now),
            forall|k: RouteView| #[trigger]
                final(self).prediction_cache@.dom().contains(k) ==> final(self).prediction_cache@[k]
                    == old(self).prediction_cache@[k],
    {
        let keep: u128 = Duration::from_secs(PREDICTION_KEEP_SECS).nanos;
        let mut i: usize = 0;
        while i < self.prediction_cache.entries.len()
            invariant
                self.wf(),
                keep == 300_000_000_000,
                self.config == old(self).config,
                self.backend_manager == old(self).backend_manager,
                self.feature_extractor == old(self).feature_extractor,
                i <= self.prediction_cache.entries@.len(),
                forall|j: int|
                    0 <= j < i ==> (#[trigger] self.prediction_cache.entries@[j]).1.young(now),
                forall|k: RouteView| #[trigger]
                    self.prediction_cache@.dom().contains(k) ==> old(self).prediction_cache@.dom().contains(k) && self.prediction_cache@[k] == old(self).prediction_cache@[k],
                forall|k: RouteView| #[trigger]
                    old(self).prediction_cache@.dom().contains(k) && old(self).prediction_cache@[k].young(now) ==> self.prediction_cache@.dom().contains(k),
            decreases self.prediction_cache.entries@.len() - i,
        {
            if now.since(self.prediction_cache.entries[i].1.timestamp).nanos < keep {
                i += 1;
            } else {
                let ghost before = self.prediction_cache.entries@;
                let ghost map_before = self.prediction_cache@;
                self.prediction_cache.remove_at(i);
                assert forall|j: int| 0 <= j < i implies (
                #[trigger] self.prediction_cache.entries@[j]).1.young(now) by {
                    assert(self.prediction_cache.entries@[j] == before[j]);
                }
                assert forall|k: RouteView| #[trigger]
                    self.prediction_cache@.dom().contains(k) implies map_before.dom().contains(k)
                    && self.prediction_cache@[k] == map_before[k] by {}
            }
        }
        proof {
            let s = self.prediction_cache.entries@;
            assert forall|k: RouteView| #[trigger]
                self.prediction_cache@.dom().contains(k) implies self.prediction_cache@[k].young(
                now,
            ) by {
                lemma_entries_contains(s, k);
                let j = choose|j: int| 0 <= j < s.len() && #[trigger] s[j].0@ == k;
                lemma_entries_value(s, j);
            }
        }
    }

    /// Scores candidates by remembered predictions, up to the first that has
    /// none.
    pub fn advance_selection(&self, sel: &mut PeerSelection, now: Instant) -> (step: SelectionStep)
        requires
            self.wf(),
            old(sel).wf(),
        ensures
            final(sel).wf(),
            final(sel).candidates == old(sel).candidates,
            final(sel).target == old(sel).target,
            final(sel).operation_type == old(sel).operation_type,
            old(sel).next <= final(sel).next,
            forall|j: int|
                0 <= j < old(sel).next ==> #[trigger] final(sel).scored@[j] == old(sel).scored@[j],
            forall|j: int|
                #![trigger final(sel).scored@[j]]
                old(sel).next <= j < final(sel).next ==> scored_by_memory(
                    self.prediction_cache@,
                    old(sel).key_of(j),
                    final(sel).scored@[j],
                    now,
                ),
            final(sel).next < old(sel).candidates@.len() ==> {
                &&& !has_fresh(self.prediction_cache@, old(sel).key_of(final(sel).next as int), now)
                &&& step == SelectionStep::Predict(old(sel).candidates@[final(sel).next as int])
            },
            final(sel).next == old(sel).candidates@.len() ==> step is Done,
    {
        let ghost s0 = *sel;
        while sel.next < sel.candidates.len()
            invariant
                self.wf(),
                sel.wf(),
                s0 == *old(sel),
                sel.candidates == s0.candidates,
                sel.target == s0.target,
                sel.operation_type == s0.operation_type,
                s0.next <= sel.next,
                s0.scored@.len() == s0.next,
                forall|j: int| 0 <= j < s0.next ==> #[trigger] sel.scored@[j] == s0.scored@[j],
                forall|j: int|
                    #![trigger sel.scored@[j]]
                    s0.next <= j < sel.next ==> scored_by_memory(
                        self.prediction_cache@,
                        s0.key_of(j),
                        sel.scored@[j],
                        now,
                    ),
            decreases sel.candidates@.len() - sel.next,
        {
            let peer: PeerKeyHash = sel.candidates[sel.next];
            let key = RouteKey::new(peer, sel.target, sel.operation_type);
            match self.get_cached_prediction(&key, now) {
                Some(p) => {
                    sel.scored.push(
                        ScoredPeer { peer, score: p.primary_value(), confidence: p.confidence },
                    );
                    sel.next = sel.next + 1;
                },
                None => {
                    return SelectionStep::Predict(peer);
                },
            }
        }
        SelectionStep::Done
    }

    /// Takes the prediction for the candidate at hand: remembers it and scores
    /// the candidate by it.
    pub fn accept_prediction(
        &mut self,
        sel: &mut PeerSelection,
        prediction: Prediction,
        now: Instant,
    )
        requires
            old(self).wf(),
            old(sel).wf(),
            old(sel).next < old(sel).candidates@.len(),
        ensures
            final(self).wf(),
            final(self).config == old(self).config,
            final(self).backend_manager == old(self).backend_manager,
            final(self).feature_extractor == old(self).feature_extractor,
            final(sel).wf(),
            final(sel).candidates == old(sel).candidates,
            final(sel).target == old(sel).target,
            final(sel).operation_type == old(sel).operation_type,
            final(sel).next == old(sel).next + 1,
            final(sel).scored@ == old(sel).scored@.push(
                score_of(old(sel).candidates@[old(sel).next as int], prediction),
            ),
            ({
                let all = old(self).prediction_cache@.insert(
                    old(sel).key_of(old(sel).next as int),
                    CachedPrediction { prediction, timestamp: now },
                );
                let kept = final(self).prediction_cache@;
                if all.dom().len() <= MAX_CACHED_PREDICTIONS {
                    kept == all
                } else {
                    &&& forall|k: RouteView| #[trigger]
                        kept.dom().contains(k) <==> all.dom().contains(k) && all[k].young(now)
                    &&& forall|k: RouteView| #[trigger] kept.dom().contains(k) ==> kept[k] == all[k]
                }
            }),
    {
        assert(sel.next < sel.candidates.len());
        let peer: PeerKeyHash = sel.candidates[sel.next];
        let key = RouteKey::new(peer, sel.target, sel.operation_type);
        let score = prediction.primary_value();
        let confidence = prediction.confidence;
        self.cache_prediction(key, prediction, now);
        sel.scored.push(ScoredPeer { peer, score, confidence });
        sel.next = sel.next + 1;
    }

    /// The chosen peers, once every candidate has a score.
    pub fn finish_selection(sel: PeerSelection) -> (r: Vec<PeerKeyHash>)
        requires
            sel.wf(),
            sel.next == sel.candidates@.len(),
            comparable(sel.scored@),
        ensures
            r@ == peers_of(chosen(stable_sorted(sel.scored@), sel.operation_type)),
    {
        rank_peers(sel.scored, sel.operation_type)
    }
}

/// A prediction that has just been remembered can be used again.
pub proof fn cached_prediction_is_found(
    before: PredictionMap,
    key: RouteView,
    prediction: Prediction,
    made: Instant,
    asked: Instant,
)
    requires
        made.nanos <= asked.nanos < made.nanos + 30_000_000_000,
    ensures
        ({
            let all = before.insert(key, CachedPrediction { prediction, timestamp: made });
            has_fresh(all, key, asked) && all[key].prediction == prediction && all[key].young(made)
        }),
{
}

/// The search for a route, hop by hop.
#[derive(Debug)]
pub struct RouteSearch {
    pub route: Vec<PeerKeyHash>,
    pub current_location: Location,
    pub hops: u8,
    pub max_hops: u8,
    pub finished: bool,
}

impl RouteSearch {
    /// No more hops than allowed, and no more peers than hops.
    pub open spec fn wf(&self) -> bool {
        self.hops <= self.max_hops && self.route@.len() <= self.hops
    }

    /// Another hop is to be looked for.
    pub open spec fn open_spec(&self) -> bool {
        !self.finished && self.hops < self.max_hops
    }

    /// A search that starts at a position.
    pub fn new(my_location: Location, max_hops: u8) -> (s: Self)
        ensures
            s.wf(),
            s.route@.len() == 0,
            s.current_location == my_location,
            s.hops == 0,
            s.max_hops == max_hops,
            !s.finished,
    {
        RouteSearch {
            route: Vec::new(),
            current_location: my_location,
            hops: 0,
            max_hops,
            finished: false,
        }
    }

    /// Whether another hop is to be looked for.
    pub fn wants_hop(&self) -> (b: bool)
        ensures
            b == self.open_spec(),
    {
        !self.finished && self.hops < self.max_hops
    }

    /// Ends the search: no candidate leads closer to the target.
    pub fn no_candidates(&mut self)
        requires
            old(self).wf(),
        ensures
            final(self).wf(),
            final(self).finished,
            final(self).route == old(self).route,
            final(self).current_location == old(self).current_location,
            final(self).hops == old(self).hops,
            final(self).max_hops == old(self).max_hops,
    {
        self.finished = true;
    }

    /// Takes the hop that was chosen, if one was, and the position of that peer,
    /// if it is known.
    pub fn take_hop(&mut self, selected: &Vec<PeerKeyHash>, location: Option<Location>)
        requires
            old(self).wf(),
            old(self).open_spec(),
        ensures
            final(self).wf(),
            final(self).hops == old(self).hops + 1,
            final(self).max_hops == old(self).max_hops,
            !final(self).finished,
            selected@.len() > 0 ==> final(self).route@ == old(self).route@.push(selected@[0]),
            selected@.len() == 0 ==> final(self).route == old(self).route,
            final(self).current_location == (if selected@.len() > 0 && location is Some {
                location->0
            } else {
                old(self).current_location
            }),
    {
        if selected.len() > 0 {
            self.route.push(selected[0]);
            match location {
                Some(l) => {
                    self.current_location = l;
                },
                None => {},
            }
        }
        self.hops = self.hops + 1;
    }

    /// Ends the search where the current position is close enough to the target.
    pub fn check_arrival(&mut self, close_enough: bool)
        requires
            old(self).wf(),
        ensures
            final(self).wf(),
            final(self).finished == (old(self).finished || close_enough),
            final(self).route == old(self).route,
            final(self).current_location == old(self).current_location,
            final(self).hops == old(self).hops,
            final(self).max_hops == old(self).max_hops,
    {
        if close_enough {
            self.finished = true;
        }
    }
}

/// A router with predictions.
#[derive(Debug)]
pub struct MLRouter<R> {
    pub inner: Enhanced<R, MLRoutingEnhancer>,
}

impl<R> MLRouter<R> {
    /// A router that is enhanced where the configuration enables it.
    pub fn new(base_router: R, config: MLConfig) -> (r: Self)
        ensures
            r.inner.base == base_router,
            r.inner.config == config,
            r.inner.enhancement is Some <==> config.enabled,
            r.inner.enhanced() == config.enabled,
            config.enabled ==> r.inner.enhancement->0.wf() && r.inner.enhancement->0.prediction_cache@
                == PredictionMap::empty(),
    {
        let enhancement = if config.enabled {
            Some(MLRoutingEnhancer::new(config.duplicate()))
        } else {
            None
        };
        MLRouter { inner: Enhanced::new(base_router, enhancement, config) }
    }

    /// Whether predictions are used.
    pub fn has_enhancement(&self) -> (b: bool)
        ensures
            b == self.inner.enhanced(),
    {
        self.inner.has_enhancement()
    }

    /// What becomes of a request for peers, given what predictions came to.
    pub fn select_optimal_peers<X>(&self, attempt: Option<Result<Vec<PeerKeyHash>, X>>) -> (out:
        EnhancedOutcome<Vec<PeerKeyHash>, X>)
        requires
            self.inner.enhancement is Some <==> attempt is Some,
        ensures
            out == resolved(self.inner.config.fallback_on_error, attempt),
    {
        self.inner.resolve(attempt)
    }

    /// What becomes of a request for a route, given what predictions came to.
    pub fn calculate_route<X>(&self, attempt: Option<Result<Vec<PeerKeyHash>, X>>) -> (out:
        EnhancedOutcome<Vec<PeerKeyHash>, X>)
        requires
            self.inner.enhancement is Some <==> attempt is Some,
        ensures
            out == resolved(self.inner.config.fallback_on_error, attempt),
    {
        self.inner.resolve(attempt)
    }

    /// The prediction for a route whose hops have theirs, if the router is enhanced.
    pub fn predict_route_performance(&self, forecast: RouteForecast) -> (r: Option<
        RoutePrediction,
    >)
        requires
            forecast.complete(),
        ensures
            r is Some <==> self.inner.enhancement is Some,
            r is Some ==> {
                &&& r->0.hop_predictions == forecast.predictions
                &&& r->0.confidence == least_confidence(forecast.predictions@)
                &&& r->0.predicted_success_rate == r->0.confidence
                &&& r->0.latency_terms@ == forecast.predictions@.map_values(
                    |p: Prediction| p.primary(),
                )
            },
    {
        if self.inner.enhancement.is_some() {
            Some(forecast.finish())
        } else {
            None
        }
    }
}

// ---------------------------------------------------------------------------
// Training data
// ---------------------------------------------------------------------------

/// What routing came to, for training.
#[derive(Debug)]
pub struct TrainingExample {
    pub features: FeatureVector,
    pub target_latency: F32Bits,
    pub success: bool,
    pub timestamp: Instant,
}

impl TrainingExample {
    /// The example is not older than a day.
    pub open spec fn recent(&self, now: Instant) -> bool {
        now.since_spec(self.timestamp).nanos < 86_400_000_000_000
    }
}

/// The examples that are not older than a day.
pub open spec fn recent_examples(s: Seq<TrainingExample>, now: Instant) -> Seq<TrainingExample>
    decreases s.len(),
{
    if s.len() == 0 {
        s
    } else if s.last().recent(now) {
        recent_examples(s.drop_last(), now).push(s.last())
    } else {
        recent_examples(s.drop_last(), now)
    }
}

/// Collects what routing came to over the last day.
#[derive(Debug)]
pub struct RoutingTrainer {
    pub training_data: Vec<TrainingExample>,
}

proof fn lemma_recent_concat(a: Seq<TrainingExample>, x: TrainingExample, rest: Seq<TrainingExample>, now: Instant)
    ensures
        recent_examples(a.push(x) + rest, now) == recent_examples(
            (if x.recent(now) {
                a.push(x)
            } else {
                a
            }) + rest,
            now,
        ),
    decreases rest.len(),
{
    if rest.len() == 0 {
        assert(a.push(x) + rest =~= a.push(x));
        assert(a + rest =~= a);
        assert(a.push(x).drop_last() =~= a);
    } else {
        let r = rest.drop_last();
        lemma_recent_concat(a, x, r, now);
        let b = if x.recent(now) {
            a.push(x)
        } else {
            a
        };
        assert((a.push(x) + rest).drop_last() =~= a.push(x) + r);
        assert((b + rest).drop_last() =~= b + r);
        assert((a.push(x) + rest).last() == rest.last());
        assert((b + rest).last() == rest.last());
    }
}

impl RoutingTrainer {
    /// Nothing has been collected.
    pub fn new() -> (t: Self)
        ensures
            t.training_data@.len() == 0,
    {
        RoutingTrainer { training_data: Vec::new() }
    }

    /// Takes what routing came to, and drops what is older than a day.
    pub fn record_outcome(
        &mut self,
        features: FeatureVector,
        actual_latency: F32Bits,
        success: bool,
        now: Instant,
    )
        ensures
            final(self).training_data@ == recent_examples(
                old(self).training_data@.push(
                    TrainingExample {
                        features,
                        target_latency: actual_latency,
                        success,
                        timestamp: now,
                    },
                ),
                now,
            ),
    {
        self.training_data.push(
            TrainingExample { features, target_latency: actual_latency, success, timestamp: now },
        );
        let keep: u128 = Duration::from_secs(TRAINING_KEEP_SECS).nanos;
        let ghost all = self.training_data@;
        let mut i: usize = 0;
        assert(self.training_data@.subrange(0, 0) =~= Seq::<TrainingExample>::empty());
        while i < self.training_data.len()
            invariant
                keep == 86_400_000_000_000,
                i <= self.training_data@.len(),
                recent_examples(self.training_data@, now) == recent_examples(all, now),
                forall|j: int| 0 <= j < i ==> (#[trigger] self.training_data@[j]).recent(now),
            decreases self.training_data@.len() - i,
        {
            if now.since(self.training_data[i].timestamp).nanos < keep {
                i += 1;
            } else {
                let ghost before = self.training_data@;
                self.training_data.remove(i);
                proof {
                    let a = before.subrange(0, i as int);
                    let rest = before.subrange(i + 1, before.len() as int);
                    lemma_recent_concat(a, before[i as int], rest, now);
                    assert(a.push(before[i as int]) + rest =~= before);
                    assert(a + rest =~= self.training_data@);
                }
            }
        }
        proof {
            lemma_all_recent(self.training_data@, now);
        }
    }

    /// What was collected.
    pub fn export_training_data(&self) -> (data: &Vec<TrainingExample>)
        ensures
            data@ == self.training_data@,
    {
        &self.training_data
    }
}

proof fn lemma_all_recent(s: Seq<TrainingExample>, now: Instant)
    requires
        forall|j: int| 0 <= j < s.len() ==> (#[trigger] s[j]).recent(now),
    ensures
        recent_examples(s, now) == s,
    decreases s.len(),
{
    if s.len() > 0 {
        assert forall|j: int| 0 <= j < s.drop_last().len() implies (#[trigger] s.drop_last()[j]).recent(
            now,
        ) by {
            assert(s.drop_last()[j] == s[j]);
        }
        lemma_all_recent(s.drop_last(), now);
        assert(s[s.len() - 1].recent(now));
        assert(s.drop_last().push(s.last()) =~= s);
    }
}

// ---------------------------------------------------------------------------
// What selection means
// ---------------------------------------------------------------------------

/// A retrieval wants predictions that are seven tenths sure, a storage six tenths, a
/// forwarding a half; a storage goes to at most eight peers, a retrieval to five and a
/// forwarding to three.
pub proof fn operations_ask_for_confidence(op: OperationType)
    ensures
        op is Retrieval ==> op.threshold_spec().bits == SEVEN_TENTHS && op.max_peers_spec() == 5,
        op is Storage ==> op.threshold_spec().bits == SIX_TENTHS && op.max_peers_spec() == 8,
        op is Forwarding ==> op.threshold_spec().bits == HALF && op.max_peers_spec() == 3,
        OperationType::Storage.threshold_spec().lt_spec(OperationType::Retrieval.threshold_spec()),
        OperationType::Forwarding.threshold_spec().lt_spec(OperationType::Storage.threshold_spec()),
{
}

/// The peers whose prediction is sure enough are all of them, in their order.
pub proof fn sure_peers_are_kept(s: Seq<ScoredPeer>, threshold: F32Bits)
    ensures
        confident(s, threshold) == s.filter(|p: ScoredPeer| p.confidence.ge_spec(threshold)),
    decreases s.len(),
{
    broadcast use Seq::<_>::lemma_filter_push;

    let f = |p: ScoredPeer| p.confidence.ge_spec(threshold);
    if s.len() > 0 {
        sure_peers_are_kept(s.drop_last(), threshold);
        assert(s =~= s.drop_last().push(s.last()));
    } else {
        assert(s.filter(f) =~= s);
    }
}

proof fn lemma_filter_sorted(s: Seq<ScoredPeer>, f: spec_fn(ScoredPeer) -> bool)
    requires
        is_sorted(s),
    ensures
        is_sorted(s.filter(f)),
        forall|i: int|
            0 <= i < s.filter(f).len() ==> f(#[trigger] s.filter(f)[i]) && s.contains(s.filter(f)[i]),
    decreases s.len(),
{
    broadcast use Seq::<_>::lemma_filter_push;

    let r = s.filter(f);
    if s.len() > 0 {
        let p = s.drop_last();
        assert forall|i: int, j: int| 0 <= i <= j < p.len() implies (#[trigger] p[i]).rank_spec()
            <= (#[trigger] p[j]).rank_spec() by {
            assert(s[i] == p[i] && s[j] == p[j]);
        }
        lemma_filter_sorted(p, f);
        assert(s =~= p.push(s.last()));
        let q = p.filter(f);
        assert forall|i: int| 0 <= i < r.len() implies f(#[trigger] r[i]) && s.contains(r[i]) by {
            if i < q.len() {
                assert(r[i] == q[i]);
                let k = choose|k: int| 0 <= k < p.len() && p[k] == q[i];
                assert(s[k] == r[i]);
            } else {
                assert(r[i] == s[s.len() - 1]);
            }
        }
        assert forall|i: int, j: int| 0 <= i <= j < r.len() implies (#[trigger] r[i]).rank_spec()
            <= (#[trigger] r[j]).rank_spec() by {
            if i < q.len() {
                assert(r[i] == q[i]);
                if j == q.len() {
                    let k = choose|k: int| 0 <= k < p.len() && p[k] == q[i];
                    assert(s[k].rank_spec() <= s[s.len() - 1].rank_spec());
                    assert(r[j] == s[s.len() - 1]);
                } else {
                    assert(r[j] == q[j]);
                }
            }
        }
    } else {
        assert(r =~= s);
    }
}

/// Of some peers the best are chosen: every chosen one has a prediction that is sure
/// enough, a lower predicted latency comes first, no more are chosen than the operation
/// allows, and fewer only where no other prediction is sure enough. Whoever is left out
/// with a prediction that is sure enough has no lower latency than any that is chosen.
pub proof fn best_peers_are_chosen(s: Seq<ScoredPeer>, op: OperationType, a: int, b: int)
    requires
        comparable(s),
        0 <= a <= b < chosen(stable_sorted(s), op).len(),
    ensures
        ({
            let r = chosen(stable_sorted(s), op);
            &&& r[b].score.ge_spec(r[a].score)
            &&& r[a].confidence.ge_spec(op.threshold_spec())
            &&& s.to_multiset().contains(r[a])
            &&& r.len() <= op.max_peers_spec()
            &&& forall|x: ScoredPeer|
                s.to_multiset().contains(x) && x.confidence.ge_spec(op.threshold_spec())
                    && !#[trigger] r.contains(x) ==> r.len() == op.max_peers_spec()
                    && x.score.ge_spec(r[a].score)
        }),
{
    broadcast use vstd::seq_lib::group_to_multiset_ensures;

    let t = stable_sorted(s);
    let threshold = op.threshold_spec();
    let f = |p: ScoredPeer| p.confidence.ge_spec(threshold);
    sorting_permutes(s);
    sure_peers_are_kept(t, threshold);
    lemma_filter_sorted(t, f);
    let c = t.filter(f);
    assert(confident(t, threshold) == c);
    let r = chosen(t, op);
    assert forall|i: int| 0 <= i < t.len() implies !(#[trigger] t[i]).score.is_nan_spec() by {
        assert(t.contains(t[i]));
        assert(t.to_multiset().contains(t[i]));
        assert(s.contains(t[i]));
    }
    assert forall|i: int| 0 <= i < c.len() implies !(#[trigger] c[i]).score.is_nan_spec() by {
        assert(t.contains(c[i]));
    }
    assert(r[a] == c[a] && r[b] == c[b]);
    assert(c[a].rank_spec() <= c[b].rank_spec());
    assert(t.contains(c[a]));
    assert(t.to_multiset().contains(c[a]));
    assert forall|x: ScoredPeer|
        s.to_multiset().contains(x) && x.confidence.ge_spec(op.threshold_spec())
            && !#[trigger] r.contains(x) implies r.len() == op.max_peers_spec()
        && x.score.ge_spec(r[a].score) by {
        assert(t.to_multiset().contains(x));
        assert(t.contains(x));
        let k = choose|k: int| 0 <= k < t.len() && t[k] == x;
        assert(c.contains(t[k])) by {
            broadcast use vstd::seq_lib::group_filter_ensures;

            assert(f(t[k]));
        }
        let j = choose|j: int| 0 <= j < c.len() && c[j] == x;
        if j < r.len() {
            assert(r[j] == c[j]);
            assert(r.contains(x));
        }
        assert(c[a].rank_spec() <= c[j].rank_spec());
    }
}

/// A remembered prediction is used again for half a minute, and kept for five minutes
/// where there are many; an example is kept for a day.
pub proof fn predictions_age(c: CachedPrediction, e: TrainingExample, now: Instant)
    ensures
        c.timestamp.nanos <= now.nanos ==> (c.fresh(now) <==> now.nanos < c.timestamp.nanos + 30
            * 1_000_000_000),
        c.timestamp.nanos <= now.nanos ==> (c.young(now) <==> now.nanos < c.timestamp.nanos + 5
            * 60 * 1_000_000_000),
        e.timestamp.nanos <= now.nanos ==> (e.recent(now) <==> now.nanos < e.timestamp.nanos + 24
            * 3600 * 1_000_000_000),
{
}

/// A prediction is found only under the peer, the target and the operation that it was
/// made for.
pub proof fn predictions_are_about_their_key(
    cache: PredictionMap,
    key: RouteView,
    other: RouteView,
    c: CachedPrediction,
    now: Instant,
)
    requires
        key != other,
    ensures
        has_fresh(cache.insert(key, c), other, now) == has_fresh(cache, other, now),
        has_fresh(cache.insert(key, c), key, now) == c.fresh(now),
        !has_fresh(PredictionMap::empty(), key, now),
{
}

/// The examples that are kept are those of the last day, all of them and in their order.
pub proof fn recent_examples_are_kept(s: Seq<TrainingExample>, now: Instant)
    ensures
        recent_examples(s, now) == s.filter(|e: TrainingExample| e.recent(now)),
    decreases s.len(),
{
    broadcast use Seq::<_>::lemma_filter_push;

    if s.len() > 0 {
        recent_examples_are_kept(s.drop_last(), now);
        assert(s =~= s.drop_last().push(s.last()));
    } else {
        assert(s.filter(|e: TrainingExample| e.recent(now)) =~= s);
    }
}

/// A peer is scored by the first value of its prediction and its confidence, under its
/// own name, remembered or not.
pub proof fn scores_are_predictions(
    peer: PeerKeyHash,
    p: Prediction,
    cache: PredictionMap,
    key: RouteView,
    scored: ScoredPeer,
    now: Instant,
)
    ensures
        score_of(peer, p).peer == peer,
        score_of(peer, p).confidence == p.confidence,
        p.values@.len() > 0 ==> score_of(peer, p).score == p.values@[0],
        p.values@.len() == 0 ==> score_of(peer, p).score.bits == 0,
        scored_by_memory(cache, key, scored, now) && cache[key].prediction == p ==> scored.score
            == score_of(peer, p).score && scored.confidence == p.confidence && has_fresh(
            cache,
            key,
            now,
        ),
{
}

/// Each feature of a hop is what its name says: its place, the length of the route, and
/// what is taken for the distance, the round trip and the loss.
pub proof fn hop_features_are_what_they_are_called(hop: int, hops: int, i: int)
    requires
        0 <= i < hop_names().len(),
    ensures
        hop_values(hop, hops).len() == hop_names().len(),
        hop_names()[i] == "hop_index"@ ==> hop_values(hop, hops)[i] == Feature::Whole(hop as u128),
        hop_names()[i] == "total_hops"@ ==> hop_values(hop, hops)[i] == Feature::Whole(
            hops as u128,
        ),
        hop_names()[i] == "distance"@ ==> hop_values(hop, hops)[i] == Feature::Single(
            F32Bits { bits: HALF },
        ),
        hop_names()[i] == "rtt"@ ==> hop_values(hop, hops)[i] == Feature::Single(
            F32Bits { bits: HUNDRED },
        ),
        hop_names()[i] == "packet_loss"@ ==> hop_values(hop, hops)[i] == Feature::Single(
            F32Bits { bits: HUNDREDTH },
        ),
{
    reveal_strlit("hop_index");
    reveal_strlit("total_hops");
    reveal_strlit("distance");
    reveal_strlit("rtt");
    reveal_strlit("packet_loss");
    let names = hop_names();
    assert(names[0].len() == 9 && names[1].len() == 10 && names[2].len() == 8);
    assert(names[3].len() == 3 && names[4].len() == 11);
    assert(i == 0 || i == 1 || i == 2 || i == 3 || i == 4);
}

/// A search goes on while it is not finished and hops are left.
pub proof fn searches_end(s: RouteSearch)
    ensures
        s.finished ==> !s.open_spec(),
        s.hops >= s.max_hops ==> !s.open_spec(),
        !s.finished && s.hops < s.max_hops ==> s.open_spec(),
{
}

/// A prediction was remembered: it is there with what was, all of it where there is
/// room, and otherwise what is young.
pub open spec fn cached_anew(
    before: PredictionMap,
    after: PredictionMap,
    key: RouteView,
    c: CachedPrediction,
    now: Instant,
) -> bool {
    &&& forall|k: RouteView| #[trigger]
        after.dom().contains(k) <==> before.insert(key, c).dom().contains(k) && (
        before.insert(key, c).dom().len() <= MAX_CACHED_PREDICTIONS || before.insert(
            key,
            c,
        )[k].young(now))
    &&& forall|k: RouteView| #[trigger]
        after.dom().contains(k) ==> after[k] == before.insert(key, c)[k]
}

/// What was just predicted is remembered, and found again; other predictions stay as
/// they are for five minutes at least, and with up to ten thousand in all for ever.
pub proof fn predictions_are_remembered(
    before: PredictionMap,
    after: PredictionMap,
    key: RouteView,
    c: CachedPrediction,
    now: Instant,
    other: RouteView,
)
    requires
        cached_anew(before, after, key, c, now),
        c.timestamp == now,
        before.dom().finite(),
        other != key,
        before.dom().contains(other),
    ensures
        after.dom().contains(key),
        after[key] == c,
        has_fresh(after, key, now),
        after.dom().contains(other) ==> after[other] == before[other],
        now.nanos < before[other].timestamp.nanos + 5 * 60 * 1_000_000_000
            ==> after.dom().contains(other),
        before.dom().len() < 10_000 ==> after.dom().contains(other),
        before.dom().len() > 10_000 && now.nanos >= before[other].timestamp.nanos + 5 * 60
            * 1_000_000_000 ==> !after.dom().contains(other),
{
    let all = before.insert(key, c);
    assert(all.dom() =~= before.dom().insert(key));
    assert(all.dom().contains(key) && all[key].young(now));
    assert(after.dom().contains(key));
    assert(all.dom().contains(other) && all[other] == before[other]);
}

/// What is predicted of a candidate is remembered under its own peer, the target and the
/// operation: another peer, target or operation has another key.
pub proof fn candidates_have_their_own_keys(s: PeerSelection, t: PeerSelection, i: int, j: int)
    ensures
        s.key_of(i) == t.key_of(j) <==> s.candidates@[i]@ == t.candidates@[j]@ && s.target
            == t.target && s.operation_type == t.operation_type,
{
}

} // verus!

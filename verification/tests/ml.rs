use chrono::{Datelike, Timelike};
use freenet_core::linear_map::LinearMap;
use freenet_core::ml::backend::{
    candle_prediction, onnx_prediction, BackendManager, FallbackBackend, PrimaryOutcome,
};
use freenet_core::ml::congestion::{
    clamp_cwnd, pacing_features, pacing_multiplier, BandwidthAdjustment, CongestionAction,
    CongestionState, CwndAdjustment, PacingAdjustment, RLCongestionController,
    RLCongestionEnhancer, RLTrainer, TransportStats,
};
use freenet_core::ml::features::{
    accounted, CongestionFeatureExtractor, CongestionMeasurement, FeatureConfig,
    NetworkStatistics, PeerPerformanceHistory, PeerTransferStats, RoutingFeatureExtractor,
    TransportMetricsSnapshot, MAX_RTT_NANOS,
};
use freenet_core::ml::float_bits::F32Bits;
use freenet_core::ml::models::{
    best_action, select_action, AnomalyThreshold, ModelConfig, ModelType,
};
use freenet_core::ml::ranking::stable_sort;
use freenet_core::ml::routing::{
    hop_features, predict_route, rank_peers, select_by_confidence, MLRouter, MLRoutingEnhancer,
    OperationType, PeerSelection, RouteForecast, RouteKey, RouteSearch, RoutingTrainer, ScoredPeer,
    SelectionStep,
};
use freenet_core::ml::{
    Enhanced, EnhancedOutcome, Feature, FeatureVector, MLConfig, Prediction, SignedRatio,
};
use freenet_core::ratio::Ratio;
use freenet_core::ring::{Location, PeerKeyHash, PeerKeyLocation};
use freenet_core::time::{Duration, Instant};

fn f(x: f32) -> F32Bits {
    F32Bits { bits: x.to_bits() }
}

fn single(x: f32) -> Feature {
    Feature::Single(f(x))
}

fn value(r: Ratio) -> f64 {
    r.numer as f64 / r.denom as f64
}

fn at(secs: u64) -> Instant {
    Instant { nanos: secs as u128 * 1_000_000_000 }
}

fn place(x: f64) -> Location {
    Location { bits: x.to_bits() }
}

fn hash(b: u8) -> PeerKeyHash {
    PeerKeyHash { bytes: [b; 32] }
}

fn prediction(values: Vec<f32>, confidence: f32) -> Prediction {
    Prediction::new(
        values.into_iter().map(f).collect(),
        f(confidence),
        "test".to_string(),
        Duration::from_millis(10),
    )
}

// ---------------------------------------------------------------------------
// Numbers
// ---------------------------------------------------------------------------

#[test]
fn numbers_compare_like_floats() {
    let xs = [
        0.0f32,
        -0.0,
        1.0,
        -1.0,
        0.5,
        -0.5,
        f32::MIN_POSITIVE,
        -f32::MIN_POSITIVE,
        f32::from_bits(1),
        f32::MAX,
        f32::MIN,
        f32::INFINITY,
        f32::NEG_INFINITY,
        f32::NAN,
        100.0,
        0.1,
    ];
    for a in xs {
        assert_eq!(f(a).is_nan(), a.is_nan());
        assert_eq!(f(a).is_finite(), a.is_finite());
        for b in xs {
            assert_eq!(f(a).lt(f(b)), a < b, "{} {}", a, b);
            assert_eq!(f(a).ge(f(b)), a >= b, "{} {}", a, b);
            let min = f32::from_bits(f(a).min(f(b)).bits);
            let max = f32::from_bits(f(a).max(f(b)).bits);
            assert!(min == a.min(b) || (min.is_nan() && a.min(b).is_nan()));
            assert!(max == a.max(b) || (max.is_nan() && a.max(b).is_nan()));
        }
    }
}

#[test]
fn sorting_is_stable() {
    let v = vec![f(2.0), f(0.0), f(-0.0), f(-1.0), f(0.0)];
    let sorted: Vec<u32> = stable_sort(v).iter().map(|x| x.bits).collect();
    let expected: Vec<u32> =
        [-1.0f32, 0.0, -0.0, 0.0, 2.0].iter().map(|x| x.to_bits()).collect();
    assert_eq!(sorted, expected);
}

// ---------------------------------------------------------------------------
// Components
// ---------------------------------------------------------------------------

#[test]
fn failures_fall_back_only_where_configured() {
    let e: Enhanced<u8, u8> = Enhanced::new(1, Some(2), MLConfig::default());
    assert!(e.has_enhancement());
    let r: EnhancedOutcome<u8, &str> = e.resolve(Some(Ok(7)));
    assert!(matches!(r, EnhancedOutcome::Use(7)));
    let r: EnhancedOutcome<u8, &str> = e.resolve(Some(Err("x")));
    assert!(matches!(r, EnhancedOutcome::Fallback));
    let config = MLConfig { fallback_on_error: false, ..Default::default() };
    let e: Enhanced<u8, u8> = Enhanced::new(1, Some(2), config);
    let r: EnhancedOutcome<u8, &str> = e.resolve(Some(Err("x")));
    assert!(matches!(r, EnhancedOutcome::Fail("x")));
    let e: Enhanced<u8, u8> = Enhanced::fallback_only(1);
    assert!(!e.has_enhancement());
    let r: EnhancedOutcome<u8, &str> = e.resolve(None);
    assert!(matches!(r, EnhancedOutcome::Fallback));
    assert_eq!(e.config.max_inference_latency_ms, 100);
}

#[test]
fn feature_vectors_grow_stale() {
    let v = FeatureVector::new(vec![single(1.0)], vec!["a".to_string()], at(10));
    assert_eq!(v.dim(), 1);
    assert!(!v.is_stale(Duration::from_secs(5), at(15)));
    assert!(v.is_stale(Duration::from_secs(5), at(16)));
    assert!(!v.is_stale(Duration::from_secs(0), at(9)));
}

#[test]
fn predictions_have_a_primary_value() {
    let p = prediction(vec![3.0, 4.0], 0.7);
    assert_eq!(p.primary_value(), f(3.0));
    assert!(p.is_high_confidence(f(0.7)));
    assert!(!p.is_high_confidence(f(0.71)));
    assert_eq!(prediction(vec![], 1.0).primary_value(), f(0.0));
    let q = p.duplicate();
    assert_eq!(q.values, p.values);
    assert_eq!(q.model_version, "test");
}

// ---------------------------------------------------------------------------
// Backends
// ---------------------------------------------------------------------------

#[test]
fn test_fallback_backend() {
    let backend = FallbackBackend::new(f(42.0));
    assert_eq!(backend.backend_info(), "fallback");
}

#[test]
fn test_backend_manager_fallback() {
    let manager = BackendManager::new(Duration::from_millis(50));

    let prediction = manager.predict(PrimaryOutcome::Absent);
    assert_eq!(prediction.primary_value(), f(100.0));
    assert_eq!(prediction.confidence, f(0.1));
}

#[test]
fn only_answers_replace_the_fallback() {
    let manager = BackendManager::new(Duration::from_millis(50));
    for outcome in [PrimaryOutcome::Failed, PrimaryOutcome::TimedOut] {
        let p = manager.predict(outcome);
        assert_eq!(p.model_version, "fallback-v1");
        assert_eq!(p.latency, Duration::from_micros(1));
    }
    let p = manager.predict(PrimaryOutcome::Answered(prediction(vec![5.0], 0.9)));
    assert_eq!(p.primary_value(), f(5.0));
    assert_eq!(FallbackBackend::new(f(42.0)).predict().values, vec![f(42.0)]);
}

#[test]
fn candle_answers_are_trusted_if_finite() {
    let d = Duration::from_millis(1);
    let p = candle_prediction(vec![f(1.0), f(-2.0)], "v".to_string(), d);
    assert_eq!(p.confidence, f(0.8));
    let p = candle_prediction(vec![f(1.0), f(f32::NAN)], "v".to_string(), d);
    assert_eq!(p.confidence, f(0.0));
    let p = candle_prediction(vec![f(f32::INFINITY)], "v".to_string(), d);
    assert_eq!(p.confidence, f(0.0));
    assert_eq!(onnx_prediction(vec![], "v".to_string(), d).confidence, f(0.9));
}

// ---------------------------------------------------------------------------
// Congestion
// ---------------------------------------------------------------------------

#[test]
fn test_congestion_action_from_prediction() {
    let prediction = Prediction::new(
        vec![f(0.8), f(-0.6), f(0.2)], // bandwidth+, cwnd-, pacing maintain
        f(0.9),
        "test".to_string(),
        Duration::from_millis(10),
    );

    let action = CongestionAction::from_prediction(&prediction);

    match action.bandwidth_adjustment {
        BandwidthAdjustment::Increase => {}
        _ => panic!("Expected bandwidth increase"),
    }

    match action.cwnd_adjustment {
        CwndAdjustment::Decrease => {}
        _ => panic!("Expected cwnd decrease"),
    }
}

#[test]
fn test_rl_congestion_controller_fallback() {
    let config = MLConfig { enabled: false, ..Default::default() };

    let rl_controller = RLCongestionController::new(1000000u64, config);
    assert!(!rl_controller.has_enhancement());

    // Should work without RL enhancement
    let result: EnhancedOutcome<u64, &str> = rl_controller.estimate_bandwidth(None);
    assert!(matches!(result, EnhancedOutcome::Fallback));
}

#[test]
fn actions_point_where_values_point() {
    let a = CongestionAction::from_prediction(&prediction(vec![0.5, -0.5, f32::NAN], 1.0));
    assert_eq!(a.bandwidth_adjustment, BandwidthAdjustment::Maintain);
    assert_eq!(a.cwnd_adjustment, CwndAdjustment::Maintain);
    assert_eq!(a.pacing_adjustment, PacingAdjustment::Maintain);
    let a = CongestionAction::from_prediction(&prediction(vec![-1.0, 1.0, 2.0], 1.0));
    assert_eq!(a.bandwidth_adjustment, BandwidthAdjustment::Decrease);
    assert_eq!(a.cwnd_adjustment, CwndAdjustment::Increase);
    assert_eq!(a.pacing_adjustment, PacingAdjustment::Faster);
    let a = CongestionAction::from_prediction(&prediction(vec![0.0, 0.0, -0.6], 1.0));
    assert_eq!(a.pacing_adjustment, PacingAdjustment::Slower);
    let a = CongestionAction::from_prediction(&prediction(vec![], 1.0));
    assert_eq!(a.bandwidth_adjustment, BandwidthAdjustment::Maintain);
}

#[test]
fn bytes_stand_for_adjustments() {
    assert_eq!(BandwidthAdjustment::from_byte(3), BandwidthAdjustment::Increase);
    assert_eq!(BandwidthAdjustment::from_byte(4), BandwidthAdjustment::Decrease);
    assert_eq!(BandwidthAdjustment::from_byte(255), BandwidthAdjustment::Increase);
    assert_eq!(CwndAdjustment::from_byte(2), CwndAdjustment::Maintain);
    assert_eq!(PacingAdjustment::from_byte(0), PacingAdjustment::Faster);
    assert_eq!(PacingAdjustment::from_byte(1), PacingAdjustment::Slower);
    let mut seen = [false; 3];
    for _ in 0..500 {
        match CongestionAction::random().bandwidth_adjustment {
            BandwidthAdjustment::Increase => seen[0] = true,
            BandwidthAdjustment::Decrease => seen[1] = true,
            BandwidthAdjustment::Maintain => seen[2] = true,
        }
    }
    assert_eq!(seen, [true; 3]);
}

#[test]
fn congestion_windows_are_clamped() {
    assert_eq!(clamp_cwnd(0), 1);
    assert_eq!(clamp_cwnd(1), 1);
    assert_eq!(clamp_cwnd(65535), 65535);
    assert_eq!(clamp_cwnd(65536), 65535);
}

#[test]
fn pacing_is_held_within_bounds() {
    assert_eq!(pacing_multiplier(&prediction(vec![0.1], 1.0)), f(0.5));
    assert_eq!(pacing_multiplier(&prediction(vec![1.25], 1.0)), f(1.25));
    assert_eq!(pacing_multiplier(&prediction(vec![9.0], 1.0)), f(2.0));
    assert_eq!(pacing_multiplier(&prediction(vec![f32::NAN], 1.0)), f(0.5));
    let c = RLCongestionController::new((), MLConfig::default());
    assert_eq!(c.get_pacing_rate(&prediction(vec![9.0], 1.0)), Some(f(2.0)));
    let c = RLCongestionController::new((), MLConfig { enabled: false, ..Default::default() });
    assert_eq!(c.get_pacing_rate(&prediction(vec![9.0], 1.0)), None);
    let v = pacing_features(f(1.0), f(2.0), f(3.0), f(4.0), at(0));
    assert_eq!(v.names, vec!["bandwidth_estimate", "recent_throughput", "recent_rtt", "recent_loss_rate"]);
    assert_eq!(v.features[3], single(4.0));
}

fn congestion_state(cwnd: u32) -> CongestionState {
    CongestionState::from_stats(
        &TransportStats {
            congestion_window: cwnd,
            rtt: Duration::from_millis(20),
            throughput_bps: f(cwnd as f32),
            packet_loss_rate: f(0.5),
        },
        at(1),
    )
}

#[test]
fn histories_are_bounded() {
    let mut e = RLCongestionEnhancer::new(MLConfig::default());
    let action = CongestionAction::random();
    for i in 0..1005 {
        e.record_state_action(congestion_state(i), action);
        e.record_reward(f(i as f32));
    }
    assert_eq!(e.state_history.len(), 1000);
    assert_eq!(e.state_history[0].cwnd, 5);
    assert_eq!(e.action_history.len(), 1000);
    assert_eq!(e.reward_history.len(), 1000);
    assert_eq!(e.reward_history[999], f(1004.0));
    let m = e.get_recent_throughput();
    assert_eq!(m.terms.len(), 10);
    assert_eq!(m.terms[0], single(1004.0));
    assert_eq!(m.terms[9], single(995.0));
    assert_eq!(m.divisor, 1000);
    assert_eq!(e.get_recent_rtt().terms[0], Feature::Whole(20));
    assert_eq!(e.get_recent_loss_rate().terms[0], single(0.5));
}

#[test]
fn few_states_are_still_divided_by_ten() {
    let mut e = RLCongestionEnhancer::new(MLConfig::default());
    assert_eq!(e.get_recent_rtt().divisor, 10);
    e.record_state_action(congestion_state(3), CongestionAction::random());
    let m = e.get_recent_throughput();
    assert_eq!((m.terms.len(), m.divisor), (1, 10));
}

#[test]
fn exploration_goes_by_the_draw() {
    let e = RLCongestionEnhancer::new(MLConfig::default());
    assert!(e.explores(f(0.05)));
    assert!(!e.explores(f(0.1)));
    let a = e.select_action(f(0.9), Some(&prediction(vec![1.0, 1.0, 1.0], 1.0)));
    assert_eq!(a.cwnd_adjustment, CwndAdjustment::Increase);
    e.select_action(f(0.0), None);
}

#[test]
fn experience_is_sampled_with_repetition() {
    let mut t = RLTrainer::new(f(1.0), f(2.0));
    assert!(t.sample_batch(5).is_empty());
    for i in 0..3 {
        t.record_experience(
            congestion_state(i),
            CongestionAction::random(),
            f(i as f32),
            congestion_state(i + 1),
            at(2),
        );
    }
    assert_eq!(t.sample_batch(2).len(), 2);
    assert_eq!(t.sample_batch(100).len(), 3);
    assert_eq!(t.pick(7).state.cwnd, 1);
    let mut seen = [false; 3];
    for _ in 0..200 {
        for e in t.sample_batch(3) {
            seen[e.state.cwnd as usize] = true;
        }
    }
    assert_eq!(seen, [true; 3]);
}

// ---------------------------------------------------------------------------
// Features
// ---------------------------------------------------------------------------

fn peer() -> PeerKeyLocation {
    PeerKeyLocation::new([0u8; 32], place(0.5), "127.0.0.1:8000".to_string())
}

#[test]
fn test_routing_feature_extraction() {
    let extractor = RoutingFeatureExtractor::new(FeatureConfig::default());

    let peer = peer();
    let target = place(0.7);

    let features = extractor.extract_routing_features(&peer, target, None, at(0));

    assert!(!features.features.is_empty());
    assert_eq!(features.features.len(), features.names.len());
    match features.features[0] {
        Feature::Distance { from, to } => {
            let distance = (f64::from_bits(from.bits) - f64::from_bits(to.bits)).abs();
            assert!(distance > 0.0); // Distance should be > 0
        }
        _ => panic!("expected a distance"),
    }
}

#[test]
fn test_peer_performance_history() {
    let mut history = PeerPerformanceHistory::default();
    let elapsed = Duration::from_nanos(50);

    // Add some performance data
    history.update(Duration::from_millis(50), true, 1000, at(1), elapsed);
    history.update(Duration::from_millis(60), true, 2000, at(2), elapsed);
    history.update(Duration::from_millis(55), false, 1500, at(3), elapsed);

    assert!(history.avg_rtt.as_millis() > 0);
    assert!(value(history.success_rate) > 0.0);
    assert!(value(history.success_rate) < 1.0); // One failure
}

#[test]
fn test_congestion_feature_extraction() {
    let extractor = CongestionFeatureExtractor::new(100);

    let measurement = CongestionMeasurement {
        rtt: Duration::from_millis(50),
        bandwidth_estimate: f(1_000_000.0),
        packet_loss_rate: f(0.01),
        queue_delay: Duration::from_millis(10),
        cwnd: 100,
        timestamp: at(0),
    };

    let features = extractor.extract_congestion_features(&measurement, at(0));

    assert_eq!(features.features.len(), 8); // 5 current + 3 trends
    assert_eq!(features.features.len(), features.names.len());
}

#[test]
fn history_averages_exactly() {
    let mut h = PeerPerformanceHistory::default();
    h.update(Duration::from_millis(50), true, 1000, at(1), Duration::from_secs(2));
    h.update(Duration::from_millis(61), false, 2000, at(2), Duration::from_secs(4));
    assert_eq!(h.avg_rtt, Duration::from_micros(55_500));
    assert_eq!(value(h.success_rate), 0.5);
    assert_eq!(value(h.avg_bandwidth), 750.0);
    assert_eq!(value(h.uptime_hours), 4.0 / 3600.0);
    assert_eq!(h.packet_loss_rate, Feature::Complement(Ratio { numer: 1, denom: 2 }));
    assert_eq!(
        h.connection_stability,
        Feature::Stability { variance: Ratio { numer: 25 + 36, denom: 2 }, mean_ms: 55 }
    );
    assert_eq!((h.total_bytes, h.total_samples), (3000, 2));
    assert_eq!(h.last_updated, at(2));
}

#[test]
fn trends_compare_two_windows() {
    let mut h = PeerPerformanceHistory::default();
    h.rtt_samples = vec![Duration::from_millis(100); 19];
    h.success_samples = vec![false; 19];
    for i in 10..19 {
        h.rtt_samples[i] = Duration::from_millis(50);
        h.success_samples[i] = true;
    }
    h.update(Duration::from_millis(50), true, 0, at(1), Duration::from_secs(0));
    assert_eq!(h.recent_rtt_trend, SignedRatio { numer: 50, denom: 100 });
    assert_eq!(h.recent_success_trend, SignedRatio { numer: 10, denom: 10 });
    let mut h = PeerPerformanceHistory::default();
    h.rtt_samples = vec![Duration::from_millis(1); 19];
    h.success_samples = vec![true; 19];
    for i in 10..19 {
        h.rtt_samples[i] = Duration::from_millis(500);
    }
    h.update(Duration::from_millis(500), true, 0, at(1), Duration::from_secs(0));
    assert_eq!(h.recent_rtt_trend, SignedRatio { numer: -1, denom: 1 });
    assert_eq!(h.recent_success_trend, SignedRatio { numer: 0, denom: 10 });
}

#[test]
fn histories_grow_from_the_first_sample_to_trends() {
    let mut h = PeerPerformanceHistory::default();
    for n in 1..=25 {
        let ms = if n <= 15 { 100 } else { 50 };
        h.update(Duration::from_millis(ms), true, 1, at(n), Duration::from_nanos(5));
        assert_eq!(h.rtt_samples.len(), n as usize);
        let t = h.recent_rtt_trend;
        assert!(t.denom > 0 && t.numer.abs() <= t.denom as i128);
        if n < 20 {
            assert_eq!(t, SignedRatio { numer: 0, denom: 1 });
        }
    }
    assert_eq!(h.recent_rtt_trend, SignedRatio { numer: 50, denom: 100 });
}

#[test]
fn trends_are_taken_anew() {
    let mut h = PeerPerformanceHistory::default();
    for n in 1..=10 {
        h.update(Duration::from_millis(100), true, 1, at(n), Duration::from_nanos(5));
    }
    h.update_trends();
    assert_eq!(h.recent_rtt_trend, SignedRatio { numer: 0, denom: 1 });
    assert_eq!(h.recent_success_trend, SignedRatio { numer: 0, denom: 1 });
    assert_eq!(h.avg_rtt, Duration::from_millis(100));
    assert_eq!((h.rtt_samples.len(), h.success_samples.len()), (10, 10));
    h.rtt_samples.extend(vec![Duration::from_millis(75); 10]);
    h.success_samples.extend(vec![false; 10]);
    h.update_trends();
    assert_eq!(h.recent_rtt_trend, SignedRatio { numer: 25, denom: 100 });
    assert_eq!(h.recent_success_trend, SignedRatio { numer: -10, denom: 10 });
    assert_eq!(h.avg_rtt, Duration::from_millis(100));
}

#[test]
fn overlong_round_trips_count_as_the_longest() {
    let mut h = PeerPerformanceHistory::default();
    let endless = Duration { nanos: u128::MAX };
    h.update(endless, true, 1, at(1), Duration::from_nanos(5));
    h.update(endless, true, 1, at(2), Duration::from_nanos(5));
    assert_eq!(h.avg_rtt, Duration { nanos: MAX_RTT_NANOS });
    let mut n = NetworkStatistics::default();
    n.update(endless, false);
    assert_eq!(n.avg_network_rtt, Duration { nanos: MAX_RTT_NANOS });
    assert_eq!(accounted(Duration::from_secs(1)), Duration::from_secs(1));
}

#[test]
fn routing_features_in_order() {
    let mut x = RoutingFeatureExtractor::new(FeatureConfig::default());
    let p = peer();
    x.update_peer_performance(&p, Duration::from_millis(40), true, 10, at(5), Duration::from_secs(1));
    x.update_network_stats(7, f(0.25));
    let mut per_peer_stats = LinearMap::new();
    per_peer_stats.insert(
        "127.0.0.1:8000".to_string(),
        PeerTransferStats {
            bytes_sent: 1,
            bytes_received: 2,
            transfers_completed: 3,
            transfers_failed: 4,
        },
    );
    let metrics = TransportMetricsSnapshot { per_peer_stats };
    let v = x.routing_features_at(&p, place(0.7), Some(&metrics), 6, 7, at(9));
    assert_eq!(v.names.len(), 18);
    assert_eq!(v.names[1], "avg_rtt_ms");
    assert_eq!(v.names[17], "uptime_hours");
    assert_eq!(v.features[1], Feature::Whole(40));
    assert_eq!(v.features[2], Feature::Quotient(Ratio { numer: 1, denom: 1 }));
    assert_eq!(v.features[7], Feature::Whole(40));
    assert_eq!(v.features[8], single(0.25));
    assert_eq!(v.features[9], Feature::Whole(7));
    assert_eq!(v.features[10], Feature::Whole(1));
    assert_eq!(v.features[13], Feature::Whole(4));
    assert_eq!(v.features[14], Feature::Quotient(Ratio { numer: 6, denom: 24 }));
    assert_eq!(v.features[15], Feature::Quotient(Ratio { numer: 7, denom: 7 }));
    assert_eq!(v.timestamp, at(9));
    let other = PeerKeyLocation::new([1u8; 32], place(0.1), "127.0.0.1:9".to_string());
    let v = x.routing_features_at(&other, place(0.7), Some(&metrics), 0, 1, at(9));
    assert_eq!(v.features[1], Feature::Whole(0));
    assert_eq!(v.features[10], Feature::Whole(0));
}

#[test]
fn features_are_taken_at_the_hour_of_the_clock() {
    let x = RoutingFeatureExtractor::new(FeatureConfig::default());
    let before = chrono::Utc::now();
    let v = x.extract_routing_features(&peer(), place(0.7), None, at(0));
    let after = chrono::Utc::now();
    let hours = [before.hour() as u128, after.hour() as u128];
    let days = [
        before.weekday().number_from_monday() as u128,
        after.weekday().number_from_monday() as u128,
    ];
    match (v.features[14], v.features[15]) {
        (Feature::Quotient(h), Feature::Quotient(d)) => {
            assert!(hours.contains(&h.numer) && h.denom == 24);
            assert!(days.contains(&d.numer) && d.denom == 7);
        }
        _ => panic!("expected quotients"),
    }
}

#[test]
fn old_history_is_forgotten() {
    let mut x = RoutingFeatureExtractor::new(FeatureConfig::default());
    let p = peer();
    let q = PeerKeyLocation::new([1u8; 32], place(0.1), "127.0.0.1:9".to_string());
    let d = Duration::from_secs(1);
    x.update_peer_performance(&p, Duration::from_millis(40), true, 10, at(100), d);
    x.update_peer_performance(&q, Duration::from_millis(40), true, 10, at(200), d);
    x.cleanup_old_history(at(3700));
    assert_eq!(x.peer_history.len(), 1);
    assert!(x.peer_history.contains_key(&q));
    x.cleanup_old_history(at(3800));
    assert_eq!(x.peer_history.len(), 0);
}

#[test]
fn load_shows_after_ten_samples() {
    let mut n = NetworkStatistics::default();
    for i in 0..10 {
        n.update(Duration::from_millis(10 * (i + 1)), i % 2 == 0);
    }
    assert_eq!(n.network_load, single(0.0));
    n.update(Duration::from_millis(110), true);
    assert_eq!(n.avg_network_rtt, Duration::from_millis(60));
    match n.network_load {
        Feature::Load { variance, mean_ms, success } => {
            assert_eq!(value(variance), 1000.0);
            assert_eq!(mean_ms, 60);
            assert_eq!((success.numer, success.denom), (6, 11));
        }
        _ => panic!("expected a load"),
    }
    for _ in 0..1200 {
        n.update(Duration::from_millis(1), true);
    }
    assert_eq!(n.rtt_samples.len(), 1000);
}

#[test]
fn congestion_trends_need_five_measurements() {
    let mut x = CongestionFeatureExtractor::new(6);
    let m = |i: u32| CongestionMeasurement {
        rtt: Duration::from_millis(i as u64),
        bandwidth_estimate: f(i as f32),
        packet_loss_rate: f(0.0),
        queue_delay: Duration::from_millis(2),
        cwnd: i,
        timestamp: at(0),
    };
    for i in 0..4 {
        x.add_measurement(m(i));
    }
    let v = x.extract_congestion_features(&m(9), at(0));
    assert_eq!(v.features[5], single(0.0));
    for i in 4..10 {
        x.add_measurement(m(i));
    }
    assert_eq!(x.measurement_history.len(), 6);
    let v = x.extract_congestion_features(&m(9), at(0));
    assert_eq!(v.features[0], Feature::Whole(9));
    assert_eq!(v.features[4], Feature::Whole(9));
    assert_eq!(v.features[5], Feature::WholeSlope { w0: 5, w1: 6, w2: 7, w3: 8, w4: 9 });
    assert_eq!(
        v.features[6],
        Feature::Slope { y0: f(5.0), y1: f(6.0), y2: f(7.0), y3: f(8.0), y4: f(9.0) }
    );
    assert_eq!(v.names[7], "loss_trend");
}

// ---------------------------------------------------------------------------
// Models
// ---------------------------------------------------------------------------

#[test]
fn test_model_config_defaults() {
    let config = ModelConfig::default();
    assert_eq!(config.model_type, ModelType::RouterOptimization);
    assert_eq!(config.input_dim, 16);
    assert_eq!(config.output_dim, 1);
    assert_eq!(config.hidden_dims, vec![64, 32, 16]);
    let dropout_rate = value(config.dropout_rate) as f32;
    assert!((dropout_rate - 0.2).abs() < f32::EPSILON);
}

#[test]
fn test_model_type_equality() {
    assert_eq!(ModelType::RouterOptimization, ModelType::RouterOptimization);
    assert_ne!(ModelType::RouterOptimization, ModelType::CongestionControl);
}

#[test]
fn test_anomaly_threshold_update() {
    let mut model = AnomalyThreshold::new();
    let original_threshold = model.threshold;

    let errors: Vec<F32Bits> = [0.05, 0.1, 0.15, 0.2, 0.25].into_iter().map(f).collect();
    let index = (errors.len() as f32 * 0.9) as usize; // 90th percentile
    model.update_threshold(errors, index);

    assert_ne!(model.threshold, original_threshold);
    assert!(f(0.0).lt(model.threshold));
}

#[test]
fn thresholds_tell_anomalies() {
    let mut t = AnomalyThreshold::new();
    assert!(t.detect_anomaly(f(0.2)));
    assert!(!t.detect_anomaly(f(0.1)));
    t.update_threshold(vec![f(0.9), f(0.3), f(0.6)], 1);
    assert_eq!(t.threshold, f(0.6));
    t.update_threshold(vec![f(0.9)], 1);
    assert_eq!(t.threshold, f(0.6));
    t.update_threshold(vec![], 0);
    assert_eq!(t.threshold, f(0.6));
}

#[test]
fn the_last_best_action_wins() {
    assert_eq!(best_action(&vec![]), 0);
    assert_eq!(best_action(&vec![f(1.0), f(3.0), f(3.0), f(-4.0)]), 2);
    assert_eq!(best_action(&vec![f(-1.0), f(-3.0)]), 0);
    let q = vec![f(1.0), f(3.0), f(2.0)];
    assert_eq!(select_action(f(0.1), f(0.1), 17, &q), 1);
    assert_eq!(select_action(f(0.05), f(0.1), 17, &q), 8);
}

#[test]
fn learning_rate_of_models() {
    assert_eq!(value(ModelConfig::default().learning_rate), 0.001);
}

// ---------------------------------------------------------------------------
// Routing
// ---------------------------------------------------------------------------

#[test]
fn test_route_key_hash() {
    let peer1 = hash(1);
    let peer2 = hash(2);
    let target = place(0.3);

    let key1 = RouteKey::new(peer1, target, OperationType::Retrieval);
    let key2 = RouteKey::new(peer1, target, OperationType::Retrieval);
    let key3 = RouteKey::new(peer2, target, OperationType::Retrieval);

    assert_eq!(key1, key2);
    assert_ne!(key1, key3);
}

#[test]
fn test_ml_router_fallback() {
    let config = MLConfig { enabled: false, ..Default::default() };

    let ml_router = MLRouter::new((), config);
    assert!(!ml_router.has_enhancement());

    // Should work without ML enhancement
    let result: EnhancedOutcome<Vec<PeerKeyHash>, &str> = ml_router.select_optimal_peers(None);
    assert!(matches!(result, EnhancedOutcome::Fallback));
}

fn scored(b: u8, score: f32, confidence: f32) -> ScoredPeer {
    ScoredPeer { peer: hash(b), score: f(score), confidence: f(confidence) }
}

#[test]
fn test_operation_type_confidence_thresholds() {
    let peers = vec![scored(1, 50.0, 0.8), scored(2, 60.0, 0.6), scored(3, 70.0, 0.4)];

    let retrieval_selected = select_by_confidence(peers.clone(), OperationType::Retrieval);
    assert_eq!(retrieval_selected.len(), 1); // Only high confidence

    let storage_selected = select_by_confidence(peers.clone(), OperationType::Storage);
    assert_eq!(storage_selected.len(), 2); // Medium and high confidence
}

#[test]
fn test_training_data_retention() {
    let mut trainer = RoutingTrainer::new();

    let features = FeatureVector::new(
        vec![single(1.0), single(2.0), single(3.0)],
        vec!["a".to_string(), "b".to_string(), "c".to_string()],
        at(0),
    );
    trainer.record_outcome(features, f(100.0), true, at(0));

    let data = trainer.export_training_data();
    assert_eq!(data.len(), 1);
    assert_eq!(data[0].target_latency, f(100.0));
    assert!(data[0].success);
}

#[test]
fn training_data_is_dropped_after_a_day() {
    let mut trainer = RoutingTrainer::new();
    let v = || FeatureVector::new(vec![], vec![], at(0));
    trainer.record_outcome(v(), f(1.0), true, at(0));
    trainer.record_outcome(v(), f(2.0), false, at(86_399));
    assert_eq!(trainer.export_training_data().len(), 2);
    trainer.record_outcome(v(), f(3.0), false, at(86_400));
    let left: Vec<F32Bits> =
        trainer.export_training_data().iter().map(|e| e.target_latency).collect();
    assert_eq!(left, vec![f(2.0), f(3.0)]);
}

#[test]
fn peers_are_ranked_by_score_among_the_confident() {
    let peers = vec![
        scored(1, 30.0, 0.9),
        scored(2, 10.0, 0.5),
        scored(3, 20.0, 0.9),
        scored(4, 10.0, 0.95),
        scored(5, 20.0, 0.8),
    ];
    let order: Vec<u8> =
        rank_peers(peers, OperationType::Retrieval).iter().map(|p| p.bytes[0]).collect();
    assert_eq!(order, vec![4, 3, 5, 1]);
}

#[test]
fn selection_is_limited_by_operation() {
    let many = |n: u8| (0..n).map(|i| scored(i, i as f32, 1.0)).collect::<Vec<_>>();
    assert_eq!(select_by_confidence(many(10), OperationType::Retrieval).len(), 5);
    assert_eq!(select_by_confidence(many(10), OperationType::Storage).len(), 8);
    assert_eq!(select_by_confidence(many(10), OperationType::Forwarding).len(), 3);
    let at_threshold = vec![scored(1, 0.0, 0.5), scored(2, 0.0, 0.49)];
    assert_eq!(select_by_confidence(at_threshold, OperationType::Forwarding).len(), 1);
}

#[test]
fn selection_asks_only_about_unknown_peers() {
    let mut e = MLRoutingEnhancer::new(MLConfig::default());
    let target = place(0.5);
    let op = OperationType::Forwarding;
    e.cache_prediction(RouteKey::new(hash(2), target, op), prediction(vec![5.0], 0.9), at(0));
    let mut sel = PeerSelection::new(vec![hash(1), hash(2), hash(3)], target, op);
    assert!(matches!(e.advance_selection(&mut sel, at(1)), SelectionStep::Predict(p) if p == hash(1)));
    e.accept_prediction(&mut sel, prediction(vec![9.0], 0.9), at(1));
    assert!(matches!(e.advance_selection(&mut sel, at(1)), SelectionStep::Predict(p) if p == hash(3)));
    e.accept_prediction(&mut sel, prediction(vec![1.0], 0.2), at(1));
    assert!(matches!(e.advance_selection(&mut sel, at(1)), SelectionStep::Done));
    let chosen = MLRoutingEnhancer::finish_selection(sel);
    assert_eq!(chosen, vec![hash(2), hash(1)]);
    assert_eq!(e.prediction_cache.len(), 3);
}

#[test]
fn predictions_expire() {
    let mut e = MLRoutingEnhancer::new(MLConfig::default());
    let key = RouteKey::new(hash(1), place(0.5), OperationType::Storage);
    e.cache_prediction(key, prediction(vec![5.0], 0.9), at(10));
    assert!(e.get_cached_prediction(&key, at(39)).is_some());
    assert!(e.get_cached_prediction(&key, at(40)).is_none());
    let other = RouteKey::new(hash(1), place(0.5), OperationType::Retrieval);
    assert!(e.get_cached_prediction(&other, at(10)).is_none());
    assert_eq!(e.backend_manager.max_latency, Duration::from_millis(100));
}

#[test]
fn routes_are_as_sure_as_their_least_hop() {
    let r = predict_route(vec![prediction(vec![10.0], 0.9), prediction(vec![5.0], 0.4)]);
    assert_eq!(r.latency_terms, vec![f(10.0), f(5.0)]);
    assert_eq!(r.confidence, f(0.4));
    assert_eq!(r.predicted_success_rate, f(0.4));
    assert_eq!(predict_route(vec![]).confidence, f(1.0));
    let v = hop_features(2, 5, at(1));
    assert_eq!(v.features[0], Feature::Whole(2));
    assert_eq!(v.features[1], Feature::Whole(5));
    assert_eq!(v.features[2], single(0.5));
    assert_eq!(v.features[3], single(100.0));
    assert_eq!(v.features[4], single(0.01));
    assert_eq!(v.names, vec!["hop_index", "total_hops", "distance", "rtt", "packet_loss"]);
    let router = MLRouter::new((), MLConfig::default());
    assert!(router.predict_route_performance(RouteForecast::new(0)).is_some());
    let r: EnhancedOutcome<Vec<PeerKeyHash>, &str> =
        router.calculate_route(Some(Ok(vec![hash(1)])));
    assert!(matches!(r, EnhancedOutcome::Use(_)));
}

#[test]
fn hops_are_predicted_from_their_place() {
    let mut forecast = RouteForecast::new(3);
    for hop in 0..3 {
        let v = forecast.next_features(at(hop)).unwrap();
        let expected = hop_features(hop as usize, 3, at(hop));
        assert_eq!((v.features, v.names), (expected.features, expected.names));
        assert_eq!(v.timestamp, at(hop));
        forecast.accept(prediction(vec![hop as f32], 1.0 - hop as f32 * 0.25));
    }
    assert!(forecast.next_features(at(3)).is_none());
    let r = MLRouter::new((), MLConfig::default()).predict_route_performance(forecast).unwrap();
    assert_eq!(r.latency_terms, vec![f(0.0), f(1.0), f(2.0)]);
    assert_eq!(r.confidence, f(0.5));
    let off = MLRouter::new((), MLConfig { enabled: false, ..Default::default() });
    assert!(off.predict_route_performance(RouteForecast::new(0)).is_none());
}

#[test]
fn searches_end_in_time() {
    let mut s = RouteSearch::new(place(0.1), 2);
    assert!(s.wants_hop());
    s.take_hop(&vec![hash(1), hash(2)], Some(place(0.2)));
    assert_eq!(s.current_location, place(0.2));
    s.check_arrival(false);
    assert!(s.wants_hop());
    s.take_hop(&vec![], Some(place(0.9)));
    assert_eq!(s.current_location, place(0.2));
    assert!(!s.wants_hop());
    assert_eq!(s.route, vec![hash(1)]);
    let mut s = RouteSearch::new(place(0.1), 9);
    s.no_candidates();
    assert!(!s.wants_hop());
    let mut s = RouteSearch::new(place(0.1), 9);
    s.take_hop(&vec![hash(1)], None);
    s.check_arrival(true);
    assert!(!s.wants_hop());
}

use freenet_core::consensus::bft::{
    BFTConfig, BFTConsensus, BFTEnhancer, BFTError, BFTNodeId, BFTOperation, BFTOperationPriority,
    BFTOperationType, BFTStats, BFTStep, BFTSubmission,
};
use freenet_core::consensus::threshold::{
    decide, ConsensusPlan, ConsensusProtocol, FrostKeyPair, OperationCounter, OperationId,
    ParticipantVote, SecretShare, ThresholdConfig, ThresholdConsensus, ThresholdEnhancer,
    ThresholdError, ThresholdOperation, ThresholdSignature, ThresholdStats, VoteDecision,
};
use freenet_core::linear_map::LinearMap;
use freenet_core::ratio::Ratio;
use freenet_core::time::{Duration, Instant};

fn value(r: Ratio) -> f64 {
    r.numer as f64 / r.denom as f64
}

fn at(nanos: u128) -> Instant {
    Instant { nanos }
}

// ---------------------------------------------------------------------------
// Byzantine fault tolerance
// ---------------------------------------------------------------------------

#[test]
fn test_bft_config_default() {
    let config = BFTConfig::default();
    assert!(!config.enabled);
    assert!(config.fallback_on_error);
    assert_eq!(config.max_byzantine_nodes, 1);
    assert_eq!(config.min_network_size, 4);
}

#[test]
fn test_bft_node_id() {
    let node_id = BFTNodeId::from("test_node");
    assert_eq!(node_id.as_str(), "test_node");
    assert_eq!(node_id.display(), "test_node");
}

#[test]
fn test_operation_priority_ordering() {
    assert!(BFTOperationPriority::Critical > BFTOperationPriority::High);
    assert!(BFTOperationPriority::High > BFTOperationPriority::Normal);
    assert!(BFTOperationPriority::Normal > BFTOperationPriority::Low);
}

#[test]
fn test_bft_stats() {
    let mut stats = BFTStats::default();
    stats.total_operations = 100;
    stats.successful_operations = 80;
    stats.fallback_operations = 15;
    stats.failed_operations = 5;
    stats.total_consensus_time_ms = 8000;
    stats.byzantine_faults_detected = 2;

    assert_eq!(value(stats.success_rate()), 0.8);
    assert_eq!(value(stats.fallback_rate()), 0.15);
    assert_eq!(value(stats.average_consensus_time_ms()), 100.0);
    assert_eq!(value(stats.byzantine_fault_rate()), 0.02);
}

#[test]
fn test_bft_enhancer_creation() {
    let config = BFTConfig {
        enabled: true,
        node_id: BFTNodeId::from("test_node"),
        ..Default::default()
    };

    let enhancer = BFTEnhancer::new(config);
    let membership = enhancer.network_membership();
    assert_eq!(membership.len(), 1);
    assert!(membership.contains(&BFTNodeId::from("test_node")));
}

#[test]
fn test_membership_management() {
    let config = BFTConfig {
        enabled: true,
        node_id: BFTNodeId::from("node1"),
        ..Default::default()
    };

    let mut enhancer = BFTEnhancer::new(config);

    // Add nodes
    enhancer.add_node(BFTNodeId::from("node2"));
    enhancer.add_node(BFTNodeId::from("node3"));

    let membership = enhancer.network_membership();
    assert_eq!(membership.len(), 3);

    // Remove node
    enhancer.remove_node(&BFTNodeId::from("node2"));
    let membership = enhancer.network_membership();
    assert_eq!(membership.len(), 2);
    assert!(!membership.contains(&BFTNodeId::from("node2")));
}

fn operation(id: &str) -> BFTOperation {
    BFTOperation {
        id: id.to_string(),
        op_type: BFTOperationType::ContractUpdate,
        payload: b"p".to_vec(),
        submitter: BFTNodeId::from("s"),
        priority: BFTOperationPriority::Normal,
        timestamp: 1,
    }
}

fn network(size: usize, fallback_on_error: bool) -> BFTEnhancer {
    let mut e = BFTEnhancer::new(BFTConfig {
        enabled: true,
        fallback_on_error,
        ..Default::default()
    });
    for i in 1..size {
        e.add_node(BFTNodeId::new(format!("n{}", i)));
    }
    e
}

#[test]
fn small_networks_fall_back_or_refuse() {
    let mut e = network(3, true);
    assert_eq!(e.submit_operation(operation("a")), Ok(BFTStep::Fallback));
    assert_eq!(e.pending_operations.len(), 1);
    let r = e.finish_fallback("a".to_string(), 10, 25);
    assert_eq!(r.execution_result, b"fallback_result".to_vec());
    assert_eq!(r.consensus_time_ms, 15);
    assert!(r.used_fallback && !r.consensus_reached);
    assert_eq!(r.participating_nodes, vec![BFTNodeId::from("default_node")]);
    assert_eq!(e.stats().fallback_operations, 1);

    let mut e = network(3, false);
    let err = e.submit_operation(operation("a")).unwrap_err();
    assert_eq!(err, BFTError::InsufficientNetwork { size: 3, required: 4 });
    assert_eq!(err.message(), "Insufficient network size for BFT consensus: 3 < 4");
    let sizes = BFTStats {
        current_network_size: 3,
        max_network_size: 3,
        ..Default::default()
    };
    assert_eq!(e.stats(), sizes);
}

#[test]
fn sizes_of_the_network_are_recorded() {
    let mut e = network(3, true);
    assert_eq!((e.stats().current_network_size, e.stats().max_network_size), (3, 3));
    e.remove_node(&BFTNodeId::from("n1"));
    assert_eq!((e.stats().current_network_size, e.stats().max_network_size), (2, 3));
    e.remove_node(&BFTNodeId::from("n1"));
    e.add_node(BFTNodeId::from("n2"));
    assert_eq!((e.stats().current_network_size, e.stats().max_network_size), (2, 3));
    e.add_node(BFTNodeId::from("n3"));
    e.add_node(BFTNodeId::from("n4"));
    assert_eq!((e.stats().current_network_size, e.stats().max_network_size), (4, 4));
}

#[test]
fn large_networks_run_consensus() {
    let mut e = network(4, true);
    assert_eq!(
        e.submit_operation(operation("a")),
        Ok(BFTStep::RunConsensus { delay_ms: 250 })
    );
    let r = e.finish_consensus("a".to_string(), 1, 2, 7, 9);
    assert!(r.consensus_reached && !r.used_fallback);
    assert_eq!(r.execution_result, b"bft_consensus_result".to_vec());
    assert_eq!(r.consensus_time_ms, 5);
    assert_eq!(r.participating_nodes.len(), 4);
    assert_eq!(e.stats().total_consensus_time_ms, 8);
    assert_eq!(e.stats().successful_operations, 1);
}

#[test]
fn failed_consensus_falls_back_or_is_counted() {
    let mut e = network(4, true);
    assert_eq!(e.consensus_failed(), Ok(BFTStep::Fallback));
    assert_eq!(e.stats().total_operations, 0);
    let mut e = network(4, false);
    assert_eq!(e.consensus_failed(), Err(BFTError::ConsensusFailed));
    assert_eq!(e.stats().failed_operations, 1);
    assert_eq!(e.stats().total_operations, 1);
    assert_eq!(BFTError::ConsensusFailed.message(), "BFT consensus failed");
}

#[test]
fn a_node_joins_once() {
    let mut e = network(1, true);
    e.add_node(BFTNodeId::from("x"));
    e.add_node(BFTNodeId::from("x"));
    assert_eq!(e.network_membership().len(), 2);
    e.remove_node(&BFTNodeId::from("x"));
    e.remove_node(&BFTNodeId::from("x"));
    assert_eq!(e.network_membership().len(), 1);
}

#[test]
fn without_enhancement_operations_run_directly() {
    let mut c = BFTConsensus::new((), BFTConfig::default());
    match c.submit_for_consensus(operation("op")) {
        Ok(BFTSubmission::Direct(d)) => {
            assert_eq!(d.operation_id, "op");
            assert_eq!(d.execution_result, b"direct_execution".to_vec());
            assert!(d.consensus_reached && d.used_fallback);
            assert!(d.participating_nodes.is_empty());
        }
        _ => panic!("expected direct execution"),
    }
    assert_eq!(c.bft_stats(), BFTStats::default());
    assert!(c.network_membership().is_empty());
    assert_eq!(c.config.max_inference_latency_ms, 1000);
    let mut c = BFTConsensus::new((), BFTConfig { enabled: true, ..Default::default() });
    assert!(matches!(
        c.submit_for_consensus(operation("op")),
        Ok(BFTSubmission::Step(BFTStep::Fallback))
    ));
}

#[test]
fn priority_levels() {
    assert_eq!(BFTOperationPriority::Low.level(), 0);
    assert_eq!(BFTOperationPriority::Normal.level(), 1);
    assert_eq!(BFTOperationPriority::High.level(), 2);
    assert_eq!(BFTOperationPriority::Critical.level(), 3);
}

#[test]
fn rates_of_nothing_are_zero() {
    let s = BFTStats::default();
    assert_eq!(value(s.success_rate()), 0.0);
    assert_eq!(value(s.fallback_rate()), 0.0);
    assert_eq!(value(s.average_consensus_time_ms()), 0.0);
    assert_eq!(value(s.byzantine_fault_rate()), 0.0);
}

// ---------------------------------------------------------------------------
// Threshold consensus
// ---------------------------------------------------------------------------

#[test]
fn test_threshold_config_default() {
    let config = ThresholdConfig::default();
    assert!(config.enabled);
    assert_eq!(config.threshold, 3);
    assert_eq!(config.total_participants, 5);
    assert!(config.enable_threshold_signatures);
}

#[test]
fn test_operation_id_generation() {
    let mut counter = OperationCounter::new();
    let id1 = OperationId::new(&mut counter);
    let id2 = OperationId::new(&mut counter);
    assert_ne!(id1, id2);
}

#[test]
fn test_vote_decision_equality() {
    assert_eq!(VoteDecision::Accept, VoteDecision::Accept);
    assert_ne!(VoteDecision::Accept, VoteDecision::Reject);
}

#[test]
fn threshold_test_stats_calculations() {
    let mut stats = ThresholdStats::default();
    stats.consensus_operations = 10;
    stats.consensus_time_ns = 1_000_000_000;

    let avg_latency = value(stats.avg_consensus_latency_ns());
    assert_eq!(avg_latency, 100_000_000.0);
}

#[test]
fn test_threshold_signature_structure() {
    let signature = ThresholdSignature {
        signature: vec![1, 2, 3, 4],
        signers: vec![1, 2, 3],
        threshold: 3,
    };

    assert_eq!(signature.signers.len(), 3);
    assert_eq!(signature.threshold, 3);
    assert!(!signature.signature.is_empty());
}

struct Put;

impl ThresholdOperation for Put {
    fn operation_type(&self) -> String {
        "put".to_string()
    }

    fn serialize(&self) -> Result<Vec<u8>, ThresholdError> {
        Ok(vec![])
    }

    fn deserialize(_data: &[u8]) -> Result<Self, ThresholdError> {
        Ok(Put)
    }
}

fn enhancer() -> ThresholdEnhancer {
    ThresholdEnhancer::new(ThresholdConfig::default())
}

fn pick(shares: &[SecretShare], places: &[usize]) -> Vec<SecretShare> {
    places
        .iter()
        .map(|&i| SecretShare {
            participant_id: shares[i].participant_id,
            share_data: shares[i].share_data.clone(),
            threshold: shares[i].threshold,
            total_shares: shares[i].total_shares,
        })
        .collect()
}

#[test]
fn any_threshold_of_shares_gives_the_secret_back() {
    let mut e = enhancer();
    let secrets: Vec<Vec<u8>> = vec![
        b"a secret".to_vec(),
        vec![],
        vec![0],
        vec![0, 0, 0, 5, 0, 0],
        (0..31).collect(),
        (0..32).collect(),
        (0..100).collect(),
        vec![255; 62],
    ];
    for secret in &secrets {
        let shares = e.share_secret(secret, 3, 5).unwrap();
        assert_eq!(shares.len(), 5);
        for (i, s) in shares.iter().enumerate() {
            assert_eq!(s.participant_id as usize, i + 1);
            assert_eq!((s.threshold, s.total_shares), (3, 5));
        }
        for places in [[0, 1, 2], [4, 2, 0], [1, 3, 4]] {
            let given = pick(&shares, &places);
            assert_eq!(&e.reconstruct_secret(&given).unwrap(), secret);
        }
        let all = pick(&shares, &[4, 3, 2, 1, 0]);
        assert_eq!(&e.reconstruct_secret(&all).unwrap(), secret);
    }
    assert_eq!(e.get_stats().secret_shares, 8);
    assert_eq!(e.get_stats().secret_reconstructions, 32);
    assert_eq!(value(e.get_stats().sharing_efficiency()), 4.0);
}

#[test]
fn shares_are_not_the_secret() {
    let mut e = enhancer();
    let secret = b"0123456789".to_vec();
    let shares = e.share_secret(&secret, 2, 3).unwrap();
    for s in &shares {
        assert_eq!(s.share_data.len(), 32);
        assert!(!s.share_data.ends_with(&secret));
    }
}

#[test]
fn one_of_two_sharing_works_too() {
    let mut e = enhancer();
    let shares = e.share_secret(b"x", 1, 2).unwrap();
    for i in 0..2 {
        assert_eq!(e.reconstruct_secret(&pick(&shares, &[i])).unwrap(), b"x".to_vec());
    }
}

#[test]
fn impossible_schemes_are_refused() {
    let mut e = enhancer();
    for (t, n) in [(0, 5), (5, 5), (6, 5)] {
        let err = e.share_secret(b"x", t, n).unwrap_err();
        assert_eq!(err, ThresholdError::InvalidScheme { threshold: t, total_shares: n });
    }
    assert_eq!(e.get_stats().secret_shares, 0);
    let err = ThresholdError::InvalidScheme { threshold: 5, total_shares: 5 };
    assert_eq!(err.message(), "Invalid sharing scheme: 5 of 5");
}

#[test]
fn too_few_or_mixed_shares_are_refused() {
    let mut e = enhancer();
    let shares = e.share_secret(b"a secret", 3, 5).unwrap();
    let err = e.reconstruct_secret(&pick(&shares, &[0, 1])).unwrap_err();
    assert_eq!(err, ThresholdError::InsufficientShares { have: 2 });
    assert_eq!(err.message(), "Not enough shares: 2");
    assert_eq!(
        e.reconstruct_secret(&[]).unwrap_err(),
        ThresholdError::InsufficientShares { have: 0 }
    );
    let err = e.reconstruct_secret(&pick(&shares, &[0, 0, 1])).unwrap_err();
    assert_eq!(err, ThresholdError::InvalidShares);
    assert_eq!(err.message(), "Shares do not belong together");
    let mut broken = pick(&shares, &[0, 1, 2]);
    broken[1].share_data.pop();
    assert_eq!(e.reconstruct_secret(&broken).unwrap_err(), ThresholdError::InvalidShares);
    let mut zero = pick(&shares, &[0, 1, 2]);
    zero[0].threshold = 0;
    assert_eq!(
        e.reconstruct_secret(&zero).unwrap_err(),
        ThresholdError::InsufficientShares { have: 3 }
    );
    assert_eq!(e.get_stats().secret_reconstructions, 0);
}

#[test]
fn consensus_needs_enough_different_participants() {
    let mut e = enhancer();
    let mut ids = OperationCounter::new();
    let id = e.execute_threshold_consensus(&mut ids, &Put, &[1, 2, 3, 4], at(0)).unwrap();
    assert_eq!(id.id, 1);
    assert_eq!(e.pending_operations.len(), 1);
    let r = e.complete_consensus(id, &[1, 2, 3, 4], 7u8, 55);
    assert_eq!(r.result, 7);
    assert!(r.threshold_reached);
    assert_eq!(r.protocol_type, ConsensusProtocol::Threshold);
    assert_eq!(r.participants, vec![1, 2, 3, 4]);
    assert_eq!(e.pending_operations.len(), 0);
    assert_eq!(e.get_stats().consensus_operations, 1);
    assert_eq!(e.get_stats().consensus_time_ns, 55);

    let err = e.execute_threshold_consensus(&mut ids, &Put, &[1, 2], at(0)).unwrap_err();
    assert_eq!(err, ThresholdError::InsufficientParticipants { have: 2, need: 3 });
    assert_eq!(err.message(), "Insufficient participants for threshold consensus: 2 < 3");
    assert_eq!(e.pending_operations.len(), 0);

    let err = e.execute_threshold_consensus(&mut ids, &Put, &[1, 1, 2], at(0)).unwrap_err();
    assert_eq!(err, ThresholdError::ThresholdNotReached { votes: 2, required: 3 });
    assert_eq!(err.message(), "Threshold not reached: 2 votes < 3 required");
    assert_eq!(e.pending_operations.len(), 1);
    assert_eq!(e.pending_operations.entries[0].1.operation_type, "put");
}

#[test]
fn votes_stop_at_the_threshold() {
    let e = enhancer();
    let votes = e.collect_participant_votes(&[5, 5, 6, 7, 8], OperationId { id: 9 }, at(1));
    let ids: Vec<u32> = votes.entries.iter().map(|v| v.0).collect();
    assert_eq!(ids, vec![5, 6, 7]);
    assert!(votes.entries.iter().all(|v| v.1.operation_id == OperationId { id: 9 }));
}

#[test]
fn one_vote_against_stops_an_operation() {
    let mut votes = LinearMap::new();
    for (p, d) in [(1, VoteDecision::Accept), (2, VoteDecision::Accept)] {
        votes.insert(p, vote(p, d));
    }
    assert_eq!(decide(&votes, 2), Ok(()));
    assert_eq!(
        decide(&votes, 3),
        Err(ThresholdError::ThresholdNotReached { votes: 2, required: 3 })
    );
    votes.insert(3, vote(3, VoteDecision::Abstain));
    assert_eq!(decide(&votes, 3), Err(ThresholdError::ConflictingVotes));
    assert_eq!(
        ThresholdError::ConflictingVotes.message(),
        "Consensus not achieved: conflicting votes"
    );
}

fn vote(participant_id: u32, decision: VoteDecision) -> ParticipantVote {
    ParticipantVote {
        participant_id,
        operation_id: OperationId { id: 1 },
        decision,
        timestamp: at(0),
        signature: None,
    }
}

#[test]
fn threshold_signatures_name_their_signers() {
    let mut e = enhancer();
    let s = e.threshold_sign(b"m", &[1, 2, 3]).unwrap();
    assert_eq!(s.signature, vec![0u8; 64]);
    assert_eq!(s.signers, vec![1, 2, 3]);
    assert!(e.verify_threshold_signature(&s, b"m"));
    let few = e.threshold_sign(b"m", &[1, 2]).unwrap();
    assert!(!e.verify_threshold_signature(&few, b"m"));
    assert_eq!(e.get_stats().threshold_signatures, 2);
    assert_eq!(value(e.get_stats().signature_rate(Duration::from_secs(4))), 0.5);

    let config = ThresholdConfig { enable_threshold_signatures: false, ..Default::default() };
    let mut e = ThresholdEnhancer::new(config);
    let err = e.threshold_sign(b"m", &[1]).unwrap_err();
    assert_eq!(err, ThresholdError::SignaturesNotConfigured);
    assert_eq!(err.message(), "Threshold signatures not configured");
    assert!(!e.verify_threshold_signature(&s, b"m"));
}

#[test]
fn signing_keys_have_the_verifying_keys_of_the_frost_crate() {
    let pair = FrostKeyPair::generate(2, 3).unwrap();
    let sk = frost_secp256k1::SigningKey::deserialize(&pair.signing_key).unwrap();
    let vk = frost_secp256k1::VerifyingKey::from(&sk);
    assert_eq!(pair.verifying_key, vk.serialize().unwrap());
    assert_ne!(pair.signing_key, pair.verifying_key);
    assert_eq!((pair.threshold, pair.total_participants), (2, 3));
    assert!(FrostKeyPair::from_signing_key(vec![0; 32], 2, 3).is_none());
    assert!(FrostKeyPair::from_signing_key(vec![1; 31], 2, 3).is_none());
    let again = FrostKeyPair::generate(2, 3).unwrap();
    assert_ne!(again.signing_key, pair.signing_key);
}

#[test]
fn a_node_without_threshold_consensus() {
    let config = ThresholdConfig { enabled: false, ..Default::default() };
    let mut c = ThresholdConsensus::new((), config);
    let mut ids = OperationCounter::new();
    let plan = c.threshold_consensus(&mut ids, &Put, &[1], at(0)).unwrap();
    assert_eq!(plan, ConsensusPlan::SingleNode);
    let r = c.complete(plan, &[1], "done", 3);
    assert!(!r.threshold_reached);
    assert_eq!(r.protocol_type, ConsensusProtocol::SingleNode);
    let err = c.threshold_sign(b"m", &[1]).unwrap_err();
    assert_eq!(err, ThresholdError::SignaturesUnavailable);
    assert_eq!(
        err.message(),
        "Threshold signatures not available without threshold-consensus feature"
    );
    let err = c.share_secret(b"x", 2, 3).unwrap_err();
    assert_eq!(err, ThresholdError::SharingUnavailable);
    assert_eq!(
        err.message(),
        "Secret sharing not available without threshold-consensus feature"
    );
    let err = c.reconstruct_secret(&[]).unwrap_err();
    assert_eq!(err, ThresholdError::ReconstructionUnavailable);
    assert_eq!(
        err.message(),
        "Secret reconstruction not available without threshold-consensus feature"
    );
}

#[test]
fn a_node_with_threshold_consensus() {
    let mut c = ThresholdConsensus::new((), ThresholdConfig::default());
    assert_eq!(c.config.max_inference_latency_ms, 200);
    let mut ids = OperationCounter::new();
    let plan = c.threshold_consensus(&mut ids, &Put, &[1, 2, 3], at(0)).unwrap();
    assert_eq!(plan, ConsensusPlan::Agreed(OperationId { id: 1 }));
    let r = c.complete(plan, &[1, 2, 3], 1u8, 9);
    assert!(r.threshold_reached);
    let shares = c.share_secret(b"s", 2, 3).unwrap();
    assert_eq!(c.reconstruct_secret(&pick(&shares, &[2, 0])).unwrap(), b"s".to_vec());
    let s = c.threshold_sign(b"m", &[1, 2, 3]).unwrap();
    assert!(c.verify_threshold_signature(&s, b"m"));
}

#[test]
fn a_failed_vote_falls_back_to_the_node() {
    let mut ids = OperationCounter::new();
    let mut c = ThresholdConsensus::new((), ThresholdConfig::default());
    let plan = c.threshold_consensus(&mut ids, &Put, &[1, 2], at(0)).unwrap();
    assert_eq!(plan, ConsensusPlan::SingleNode);
    let r = c.complete(plan, &[1, 2], 5u8, 1);
    assert_eq!((r.result, r.threshold_reached), (5, false));
    let plan = c.threshold_consensus(&mut ids, &Put, &[1, 1, 2], at(0)).unwrap();
    assert_eq!(plan, ConsensusPlan::SingleNode);

    let config = ThresholdConfig { fallback_on_error: false, ..Default::default() };
    let mut c = ThresholdConsensus::new((), config);
    assert_eq!(
        c.threshold_consensus(&mut ids, &Put, &[1, 2], at(0)),
        Err(ThresholdError::InsufficientParticipants { have: 2, need: 3 })
    );
    assert_eq!(
        c.threshold_consensus(&mut ids, &Put, &[1, 1, 2], at(0)),
        Err(ThresholdError::ThresholdNotReached { votes: 2, required: 3 })
    );
}

#[test]
fn nodes_of_a_process_draw_different_numbers() {
    let mut ids = OperationCounter::new();
    let (mut a, mut b) = (enhancer(), enhancer());
    let first = a.execute_threshold_consensus(&mut ids, &Put, &[1, 2, 3], at(0)).unwrap();
    let second = b.execute_threshold_consensus(&mut ids, &Put, &[1, 2, 3], at(0)).unwrap();
    assert_ne!(first, second);
    let mut seen = vec![first, second];
    for _ in 0..100 {
        let id = OperationId::new(&mut ids);
        assert!(!seen.contains(&id));
        seen.push(id);
    }
    let mut last = OperationCounter { next: u64::MAX };
    assert_ne!(OperationId::new(&mut last), OperationId::new(&mut last));
}

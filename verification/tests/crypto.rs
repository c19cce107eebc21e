use freenet_core::crypto::fhe::{
    plan_operation, EncryptedOperation, EncryptedState, EncryptionMetadata, FHEConfig,
    FHEContractExecutor, FHEEnhancer, FHEError, FHEParameterSet, FHEStats, HomomorphicOp,
    NoiseLevel,
};
use freenet_core::crypto::post_quantum::{
    CryptoError, DilithiumKeys, HybridSharedSecret, HybridSignature, MlKemKeys,
    PostQuantumConfig, PostQuantumEnhancer, PostQuantumPublicKey, PostQuantumStats,
    PostQuantumTransport, ProtocolNegotiation, ProtocolVersion, QuantumSafeSecret,
    ML_KEM_PUBLIC_END, ML_KEM_PUBLIC_START,
};
use freenet_core::crypto::CryptoManager;
use freenet_core::linear_map::LinearMap;
use freenet_core::ratio::Ratio;
use freenet_core::time::Duration;
use ml_kem::kem::Decapsulate;
use ml_kem::{EncodedSizeUser, KemCore, MlKem768};
use std::sync::Arc;
use tfhe::shortint::parameters::{
    GlweDimension, LweDimension, PolynomialSize, PARAM_MESSAGE_1_CARRY_1_KS_PBS,
};
use tfhe::shortint::ClassicPBSParameters;
use tfhe::{ClientKey, ConfigBuilder, ServerKey};

fn value(r: Ratio) -> f64 {
    r.numer as f64 / r.denom as f64
}

// ---------------------------------------------------------------------------
// Manager
// ---------------------------------------------------------------------------

#[test]
fn test_crypto_manager_creation() {
    let manager = CryptoManager::new();
    assert!(manager.has_post_quantum());
}

#[test]
fn test_classical_only_manager() {
    let manager = CryptoManager::classical_only();
    assert!(!manager.has_post_quantum());
    assert!(!manager.has_fhe());

    let protocols = manager.supported_protocols();
    assert!(protocols.contains(&"Classical".to_string()));
}

#[test]
fn test_post_quantum_config() {
    let config = PostQuantumConfig {
        enabled: true,
        enable_quantum_safe: true,
        enable_hybrid_signatures: false, // Custom config
        ..Default::default()
    };

    let manager = CryptoManager::with_post_quantum_config(config);
    assert!(manager.has_post_quantum());
}

#[test]
fn test_fhe_config() {
    let config = FHEConfig {
        enabled: true,
        fallback_on_error: false, // Custom config
        parameter_set: FHEParameterSet::Secure,
        ..Default::default()
    };

    let manager = CryptoManager::with_fhe_config(config);
    assert!(manager.has_fhe());
    assert!(manager.fhe_config().is_some());
    assert_eq!(manager.fhe_config().unwrap().parameter_set, FHEParameterSet::Secure);
}

#[test]
fn test_supported_protocols() {
    let manager = CryptoManager::new();
    let protocols = manager.supported_protocols();

    assert!(protocols.contains(&"Classical".to_string()));
    assert!(protocols.contains(&"PostQuantum".to_string()));
    assert!(protocols.contains(&"Hybrid".to_string()));
    assert!(protocols.contains(&"FHE".to_string()));
}

#[test]
fn protocols_in_order() {
    let names = CryptoManager::default().supported_protocols();
    assert_eq!(names, vec!["Classical", "PostQuantum", "Hybrid", "FHE"]);
    assert_eq!(CryptoManager::classical_only().supported_protocols(), vec!["Classical"]);
    assert!(CryptoManager::new().post_quantum_config().is_some());
    assert!(CryptoManager::classical_only().post_quantum_config().is_none());
}

// ---------------------------------------------------------------------------
// Hybrid cryptography
// ---------------------------------------------------------------------------

#[test]
fn test_protocol_negotiation() {
    let local = vec![ProtocolVersion::Classical, ProtocolVersion::Hybrid];
    let remote = vec![ProtocolVersion::Classical, ProtocolVersion::Hybrid];

    let negotiated = ProtocolNegotiation::negotiate(&local, &remote);
    assert_eq!(negotiated, ProtocolVersion::Hybrid);
}

#[test]
fn test_fallback_negotiation() {
    let local = vec![ProtocolVersion::Classical, ProtocolVersion::Hybrid];
    let remote = vec![ProtocolVersion::Classical];

    let negotiated = ProtocolNegotiation::negotiate(&local, &remote);
    assert_eq!(negotiated, ProtocolVersion::Classical);
}

#[test]
fn test_post_quantum_config_default() {
    let config = PostQuantumConfig::default();
    assert!(config.enabled);
    assert!(config.enable_quantum_safe);
    assert!(config.enable_hybrid_signatures);
    assert!(config.fallback_on_error);
}

#[test]
fn post_quantum_test_stats_calculations() {
    let mut stats = PostQuantumStats::default();
    stats.key_exchanges = 10;
    stats.key_exchange_time_ns = 1_000_000;

    let avg_latency = value(stats.avg_key_exchange_latency_ns());
    assert_eq!(avg_latency, 100_000.0); // 100μs average
}

#[test]
fn quantum_only_is_the_second_choice() {
    let q = ProtocolVersion::QuantumOnly;
    let h = ProtocolVersion::Hybrid;
    let c = ProtocolVersion::Classical;
    assert_eq!(ProtocolNegotiation::negotiate(&[c, q], &[q]), q);
    assert_eq!(ProtocolNegotiation::negotiate(&[q, h], &[h, q]), h);
    assert_eq!(ProtocolNegotiation::negotiate(&[q], &[h]), c);
    assert_eq!(ProtocolNegotiation::negotiate(&[], &[]), c);
    assert_eq!(ProtocolNegotiation::supported_versions(), vec![c, h]);
}

#[test]
fn utilization_counts_what_did_not_fall_back() {
    let mut s = PostQuantumStats::default();
    assert_eq!((s.quantum_safe_utilization().numer, s.quantum_safe_utilization().denom), (0, 1));
    s.key_exchanges = 4;
    s.fallbacks = 1;
    assert_eq!((s.quantum_safe_utilization().numer, s.quantum_safe_utilization().denom), (3, 4));
    s.signatures = 2;
    s.signature_time_ns = 9;
    assert_eq!(value(s.avg_signature_latency_ns()), 4.5);
    assert_eq!(PostQuantumConfig::default().max_latency, Duration::from_millis(100));
}

#[test]
fn key_exchange_encapsulates_to_the_peer() {
    let mut me = PostQuantumEnhancer::new(PostQuantumConfig::default());
    let peer = PostQuantumEnhancer::new(PostQuantumConfig::default());
    let peer_key = peer.get_public_key("classical");
    assert_eq!(peer_key.protocol_version, ProtocolVersion::Hybrid);
    let shared = me.hybrid_key_exchange([9u8; 32], &peer_key);
    assert_eq!(shared.classical, [9u8; 32]);
    assert_eq!(shared.protocol_version, ProtocolVersion::Hybrid);
    let sealed = shared.quantum_safe.unwrap();
    let dk = <MlKem768 as KemCore>::DecapsulationKey::from_bytes(
        &peer.ml_kem_keypair.secret_key.into(),
    );
    let secret: [u8; 32] = dk.decapsulate(&sealed.ciphertext.into()).unwrap().into();
    assert_eq!(secret, sealed.shared_secret);
    assert_eq!(me.get_stats().key_exchanges, 1);
    let again = me.hybrid_key_exchange([9u8; 32], &peer_key);
    assert_ne!(again.quantum_safe.unwrap().ciphertext, sealed.ciphertext);
}

#[test]
fn secret_keys_hold_their_public_keys() {
    let e = PostQuantumEnhancer::new(PostQuantumConfig::default());
    let keys = &e.ml_kem_keypair;
    assert_eq!(keys.secret_key[ML_KEM_PUBLIC_START..ML_KEM_PUBLIC_END], keys.public_key);
    let other = MlKemKeys::generate();
    assert_eq!(other.secret_key[ML_KEM_PUBLIC_START..ML_KEM_PUBLIC_END], other.public_key);
    assert_ne!(other.public_key, keys.public_key);
    let dilithium = DilithiumKeys::generate();
    assert_ne!(dilithium.verifying_key(), DilithiumKeys::generate().verifying_key());
}

#[test]
fn classical_peers_get_classical_secrets() {
    let mut me = PostQuantumEnhancer::new(PostQuantumConfig::default());
    let peer_key = PostQuantumPublicKey {
        classical: (),
        quantum_safe: None,
        protocol_version: ProtocolVersion::Classical,
    };
    let shared = me.hybrid_key_exchange([1u8; 32], &peer_key);
    assert!(shared.quantum_safe.is_none());
    assert_eq!(shared.protocol_version, ProtocolVersion::Classical);
    assert_eq!((me.get_stats().key_exchanges, me.get_stats().fallbacks), (1, 1));
}

#[test]
fn classical_halves_are_counted_as_fallbacks() {
    let config = PostQuantumConfig { enable_hybrid_signatures: false, ..Default::default() };
    let mut me = PostQuantumEnhancer::new(config);
    let full = me.get_public_key(());
    let bare = PostQuantumPublicKey {
        classical: (),
        quantum_safe: None,
        protocol_version: ProtocolVersion::Classical,
    };
    me.hybrid_key_exchange([1u8; 32], &full);
    assert_eq!(me.get_stats().fallbacks, 0);
    me.hybrid_key_exchange([1u8; 32], &bare);
    assert_eq!(me.get_stats().fallbacks, 1);
    let u = me.get_stats().quantum_safe_utilization();
    assert_eq!((u.numer, u.denom), (1, 2));
    me.hybrid_sign(vec![], b"message");
    assert_eq!((me.get_stats().signatures, me.get_stats().fallbacks), (1, 2));
}

#[test]
fn keys_are_derived_with_hkdf() {
    let classical = HybridSharedSecret {
        classical: [1u8; 32],
        quantum_safe: None,
        protocol_version: ProtocolVersion::Classical,
    };
    let mut expected = [0u8; 32];
    hkdf::Hkdf::<sha2::Sha256>::new(None, &[1u8; 32]).expand(b"use", &mut expected).unwrap();
    assert_eq!(classical.derive_key(b"use").unwrap(), expected.to_vec());

    let hybrid = HybridSharedSecret {
        classical: [1u8; 32],
        quantum_safe: Some(QuantumSafeSecret {
            shared_secret: [2u8; 32],
            ciphertext: [0u8; 1088],
        }),
        protocol_version: ProtocolVersion::Hybrid,
    };
    let mut material = [1u8; 64];
    material[32..].copy_from_slice(&[2u8; 32]);
    hkdf::Hkdf::<sha2::Sha256>::new(None, &material).expand(b"use", &mut expected).unwrap();
    assert_eq!(hybrid.derive_key(b"use").unwrap(), expected.to_vec());
    assert_ne!(hybrid.derive_key(b"use").unwrap(), classical.derive_key(b"use").unwrap());
    assert_ne!(hybrid.derive_key(b"use").unwrap(), hybrid.derive_key(b"other").unwrap());
}

#[test]
fn hybrid_signatures_need_both_parts() {
    let mut me = PostQuantumEnhancer::new(PostQuantumConfig::default());
    let key = me.get_public_key(());
    let s = me.hybrid_sign(b"classical".to_vec(), b"message");
    assert_eq!(s.classical, b"classical".to_vec());
    assert_eq!(s.protocol_version, ProtocolVersion::Hybrid);
    assert_eq!(s.verify(true, b"message", &key), Ok(true));
    assert_eq!(s.verify(false, b"message", &key), Ok(false));
    assert_eq!(s.verify(true, b"another", &key), Ok(false));
    let stranger = PostQuantumEnhancer::new(PostQuantumConfig::default()).get_public_key(());
    assert_eq!(s.verify(true, b"message", &stranger), Ok(false));
    assert_eq!(me.get_stats().signatures, 1);
}

#[test]
fn unreadable_signatures_are_errors() {
    let mut me = PostQuantumEnhancer::new(PostQuantumConfig::default());
    let key = me.get_public_key(());
    let short = HybridSignature {
        classical: vec![],
        quantum_safe: Some(vec![0; 10]),
        protocol_version: ProtocolVersion::Hybrid,
    };
    assert_eq!(
        short.verify(true, b"m", &key),
        Err(CryptoError::InvalidDilithiumSignature)
    );
    let mut s = me.hybrid_sign(vec![], b"m");
    s.quantum_safe.as_mut().unwrap()[2657] = 200;
    assert_eq!(s.verify(true, b"m", &key), Err(CryptoError::InvalidDilithiumSignature));
    let zeros = HybridSignature {
        classical: vec![],
        quantum_safe: Some(vec![0; 2701]),
        protocol_version: ProtocolVersion::Hybrid,
    };
    assert_eq!(zeros.verify(true, b"m", &key), Ok(false));
}

#[test]
fn the_classical_part_decides_alone() {
    let config = PostQuantumConfig {
        enable_hybrid_signatures: false,
        enable_quantum_safe: false,
        ..Default::default()
    };
    let mut me = PostQuantumEnhancer::new(config);
    let key = me.get_public_key(());
    assert!(key.quantum_safe.is_none());
    assert_eq!(key.protocol_version, ProtocolVersion::Classical);
    let s = me.hybrid_sign(vec![1], b"m");
    assert!(s.quantum_safe.is_none());
    assert_eq!(s.protocol_version, ProtocolVersion::Classical);
    assert_eq!(s.verify(true, b"m", &key), Ok(true));
    assert_eq!(s.verify(false, b"m", &key), Ok(false));
}

#[test]
fn transports_without_enhancement_are_classical() {
    let config = PostQuantumConfig { enabled: false, ..Default::default() };
    let mut t = PostQuantumTransport::new((), config);
    assert_eq!(t.config.max_inference_latency_ms, 50);
    assert!(t.hybrid_public_key(()).quantum_safe.is_none());
    let mut enhanced = PostQuantumTransport::new((), PostQuantumConfig::default());
    let key = enhanced.hybrid_public_key(());
    assert!(key.quantum_safe.is_some());
    assert!(t.hybrid_key_exchange([0; 32], &key).quantum_safe.is_none());
    assert!(t.hybrid_sign(vec![], b"m").quantum_safe.is_none());
    assert!(enhanced.hybrid_key_exchange([0; 32], &key).quantum_safe.is_some());
    let s = enhanced.hybrid_sign(vec![], b"m");
    assert_eq!(s.verify(true, b"m", &key), Ok(true));
}

// ---------------------------------------------------------------------------
// Homomorphic execution
// ---------------------------------------------------------------------------

#[test]
fn test_fhe_config_default() {
    let config = FHEConfig::default();
    assert!(!config.enabled);
    assert!(config.fallback_on_error);
    assert_eq!(config.max_ciphertext_size, 1024 * 1024);
    assert!(matches!(config.parameter_set, FHEParameterSet::Standard));
}

#[test]
fn test_fhe_stats() {
    let mut stats = FHEStats::default();
    stats.total_operations = 100;
    stats.successful_operations = 80;
    stats.fallback_operations = 15;
    stats.failed_operations = 5;
    stats.total_computation_time_ms = 8000;

    assert_eq!(value(stats.success_rate()), 0.8);
    assert_eq!(value(stats.fallback_rate()), 0.15);
    assert_eq!(value(stats.average_computation_time_ms()), 100.0);
}

#[test]
fn test_fhe_enhancer_creation() {
    let config = FHEConfig { enabled: true, ..Default::default() };

    let enhancer = FHEEnhancer::new(config);
    assert_eq!(enhancer.config, config);
    assert_eq!(enhancer.server_key_cache.len(), 0);
    assert_eq!(enhancer.stats(), FHEStats::default());
}

fn state(key_id: &str) -> EncryptedState {
    EncryptedState {
        ciphertext: b"c".to_vec(),
        metadata: EncryptionMetadata {
            key_id: key_id.to_string(),
            parameter_set: FHEParameterSet::Standard,
            timestamp: 1,
            extras: LinearMap::new(),
        },
        size_hint: 1024,
    }
}

fn encrypted(op: &str) -> EncryptedOperation {
    EncryptedOperation {
        op_type: op.to_string(),
        encrypted_params: vec![],
        public_params: LinearMap::new(),
    }
}

#[test]
fn operations_by_name() {
    assert_eq!(plan_operation(&encrypted("add")).unwrap(), HomomorphicOp::Add);
    assert_eq!(plan_operation(&encrypted("multiply")).unwrap(), HomomorphicOp::Multiply);
    assert_eq!(plan_operation(&encrypted("compare")).unwrap(), HomomorphicOp::Compare);
    assert_eq!(plan_operation(&encrypted("conditional")).unwrap(), HomomorphicOp::Conditional);
    let err = plan_operation(&encrypted("divide")).unwrap_err();
    assert_eq!(err.message(), "Unsupported FHE operation: divide");
}

#[test]
fn computed_results_are_counted() {
    let mut e = FHEEnhancer::new(FHEConfig::default());
    let r = e.execute_homomorphic_operation(&state("k"), &encrypted("add"), "id", 5, 12);
    let r = e.execute_encrypted_contract(r, &state("k"), 20).unwrap();
    assert_eq!(r.encrypted_result, b"encrypted_result".to_vec());
    assert_eq!(r.metadata.execution_id, "id");
    assert_eq!((r.metadata.start_time, r.metadata.end_time), (5, 12));
    assert!(!r.metadata.used_fallback);
    assert_eq!(r.stats.computation_time_ms, 7);
    assert_eq!(r.stats.memory_usage_bytes, 1024);
    assert_eq!(value(r.stats.noise_level.ratio()), 0.5);
    assert_eq!(e.stats().successful_operations, 1);
    assert_eq!(e.stats().total_computation_time_ms, 7);
    assert_eq!(e.stats().total_memory_usage_bytes, 1024);
}

#[test]
fn noise_is_averaged_over_the_successes() {
    let mut e = FHEEnhancer::new(FHEConfig::default());
    assert_eq!(value(e.stats().average_noise_level), 0.0);
    for (millionths, average) in [(500_000, 0.5), (0, 0.25), (1_000_000, 0.5)] {
        let mut r = e
            .execute_homomorphic_operation(&state("k"), &encrypted("add"), "id", 5, 12)
            .unwrap();
        r.stats.noise_level = NoiseLevel { millionths };
        e.execute_encrypted_contract(Ok(r), &state("k"), 20).unwrap();
        assert_eq!(value(e.stats().average_noise_level), average);
    }
    let bad = e.execute_homomorphic_operation(&state("k"), &encrypted("x"), "id", 0, 0);
    let r = e.execute_encrypted_contract(bad, &state("k"), 0).unwrap();
    assert_eq!(value(r.stats.noise_level.ratio()), 0.0);
    assert_eq!(value(e.stats().average_noise_level), 0.5);
}

#[test]
fn failures_fall_back_or_are_passed_on() {
    let mut e = FHEEnhancer::new(FHEConfig::default());
    let bad = e.execute_homomorphic_operation(&state("k"), &encrypted("x"), "id", 0, 0);
    assert!(bad.is_err());
    let r = e.execute_encrypted_contract(bad, &state("k"), 1000).unwrap();
    assert_eq!(r.encrypted_result, b"fallback_result".to_vec());
    assert_eq!(r.metadata.execution_id, "fallback-1000");
    assert_eq!((r.metadata.start_time, r.metadata.end_time), (1000, 1100));
    assert!(r.metadata.used_fallback);
    assert_eq!(r.stats.computation_time_ms, 100);
    assert_eq!(e.stats().fallback_operations, 1);

    let config = FHEConfig { fallback_on_error: false, ..Default::default() };
    let mut e = FHEEnhancer::new(config);
    let r = e.execute_encrypted_contract(Err(FHEError::Execution("boom".into())), &state("k"), 0);
    assert_eq!(r.unwrap_err().message(), "boom");
    assert_eq!(e.stats().failed_operations, 1);
}

#[test]
fn executors_without_enhancement_fail() {
    let mut x = FHEContractExecutor::new((), FHEConfig::default());
    let r = x.execute_encrypted(Err(FHEError::NotAvailable), &state("k"), 0);
    assert_eq!(
        r.unwrap_err().message(),
        "FHE not available - feature disabled or not configured"
    );
    assert_eq!(x.fhe_stats(), FHEStats::default());
    assert_eq!(x.config.max_inference_latency_ms, 5000);
    let mut x = FHEContractExecutor::new((), FHEConfig { enabled: true, ..Default::default() });
    assert!(x.execute_encrypted(Err(FHEError::NotAvailable), &state("k"), 0).is_ok());
    assert_eq!(x.fhe_stats().fallback_operations, 1);
}

#[test]
fn hit_rate_of_the_key_cache() {
    let mut s = FHEStats::default();
    assert_eq!(value(s.cache_hit_rate()), 0.0);
    s.cache_hits = 3;
    s.cache_misses = 1;
    assert_eq!(value(s.cache_hit_rate()), 0.75);
}

/// A server key for parameters so small that it is made in no time.
fn toy_server_key() -> Arc<ServerKey> {
    let parameters = ClassicPBSParameters {
        lwe_dimension: LweDimension(4),
        glwe_dimension: GlweDimension(1),
        polynomial_size: PolynomialSize(256),
        ..PARAM_MESSAGE_1_CARRY_1_KS_PBS
    };
    let config = ConfigBuilder::with_custom_parameters(parameters).build();
    Arc::new(ClientKey::generate(config).generate_server_key())
}

#[test]
fn kept_server_keys_are_served() {
    let mut e = FHEEnhancer::new(FHEConfig::default());
    let (a, b) = (toy_server_key(), toy_server_key());
    e.server_key_cache.insert("a".to_string(), a.clone());
    e.server_key_cache.insert("b".to_string(), b.clone());
    let (id, served) = e.begin_execution("contract", &state("a"), 17);
    assert_eq!(id, "fhe-contract-17");
    assert!(Arc::ptr_eq(&served, &a));
    assert!(Arc::ptr_eq(&e.get_or_create_server_key(&"b".to_string()), &b));
    assert_eq!(e.server_key_cache.len(), 2);
    assert_eq!((e.stats().cache_hits, e.stats().cache_misses), (2, 0));
    assert_eq!(value(e.stats().cache_hit_rate()), 1.0);
}

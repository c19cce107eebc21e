use freenet_core::contract::key::{ContractInstanceId, ContractKey};
use freenet_core::contract::lifecycle::deletion::ContractDeletion;
use freenet_core::contract::lifecycle::gc::{
    GcConfig, GcPolicy, GcSweepResult, DEFAULT_CONTRACT_TTL, DEFAULT_EXEMPTION_TTL,
    DEFAULT_GC_INTERVAL, DEFAULT_MAX_CONTRACT_AGE, DEFAULT_STORAGE_QUOTA_BYTES,
};
use freenet_core::linear_map::KeyEq;
use freenet_core::time::Duration;
use freenet_stdlib::prelude::{ContractCode, Parameters};

fn make_test_key() -> ContractKey {
    let code = ContractCode::from(vec![1, 2, 3, 4]);
    let params = Parameters::from(vec![5, 6, 7, 8]);
    let key = freenet_stdlib::prelude::ContractKey::from_params_and_code(&params, &code);
    let mut bytes = [0u8; 32];
    bytes.copy_from_slice(key.as_bytes());
    ContractKey::from_id_and_code(ContractInstanceId::new(bytes), [0u8; 32])
}

#[test]
fn test_validate_deletion_accepts_valid_key() {
    let key = make_test_key();
    assert!(ContractDeletion::validate_deletion(&key).is_ok());
}

#[test]
fn null_keys_cannot_be_deleted() {
    let key = ContractKey::from_id_and_code(ContractInstanceId::new([0u8; 32]), [7u8; 32]);
    assert_eq!(
        ContractDeletion::validate_deletion(&key),
        Err("Cannot delete null contract key".to_string())
    );
    let mut bytes = [0u8; 32];
    bytes[31] = 1;
    let key = ContractKey::from_id_and_code(ContractInstanceId::new(bytes), [0u8; 32]);
    assert_eq!(ContractDeletion::validate_deletion(&key), Ok(()));
}

#[test]
fn keys_are_told_apart_by_their_instance() {
    let a = ContractKey::from_id_and_code(ContractInstanceId::new([1u8; 32]), [1u8; 32]);
    let b = ContractKey::from_id_and_code(ContractInstanceId::new([1u8; 32]), [2u8; 32]);
    let c = ContractKey::from_id_and_code(ContractInstanceId::new([2u8; 32]), [1u8; 32]);
    assert!(a.key_eq(&b));
    assert!(!a.key_eq(&c));
    assert_eq!(a.id().bytes, [1u8; 32]);
}

fn default_policy() -> GcPolicy {
    GcPolicy::new(GcConfig::default())
}

#[test]
fn test_collect_when_past_ttl() {
    let policy = default_policy();
    let last_access = Duration::from_secs(DEFAULT_CONTRACT_TTL + 1);
    let contract_age = last_access;
    assert!(policy.should_collect(last_access, contract_age, false, None));
}

#[test]
fn test_no_collect_when_recently_accessed() {
    let policy = default_policy();
    let last_access = Duration::from_secs(60);
    let contract_age = Duration::from_secs(3600);
    assert!(!policy.should_collect(last_access, contract_age, false, None));
}

#[test]
fn test_exemption_protects_temporarily() {
    let policy = default_policy();
    let last_access = Duration::from_secs(DEFAULT_CONTRACT_TTL + 1);
    let contract_age = last_access;
    let exemption_age = Duration::from_secs(60); // Fresh exemption
    assert!(!policy.should_collect(last_access, contract_age, true, Some(exemption_age)));
}

#[test]
fn test_expired_exemption_allows_collection() {
    let policy = default_policy();
    let last_access = Duration::from_secs(DEFAULT_CONTRACT_TTL + 1);
    let contract_age = last_access;
    // Exemption older than exemption_ttl
    let exemption_age = Duration::from_secs(DEFAULT_EXEMPTION_TTL + 1);
    assert!(policy.should_collect(last_access, contract_age, true, Some(exemption_age)));
}

#[test]
fn test_max_age_override_ignores_exemptions() {
    let policy = default_policy();
    let contract_age = Duration::from_secs(DEFAULT_MAX_CONTRACT_AGE + 1);
    let last_access = Duration::from_secs(0); // Just accessed
    let exemption_age = Duration::from_secs(0); // Fresh exemption
    // Even with a fresh exemption and recent access, max age forces collection
    assert!(policy.should_collect(last_access, contract_age, true, Some(exemption_age)));
}

#[test]
fn test_disabled_gc_never_collects() {
    let config = GcConfig { enabled: false, ..Default::default() };
    let policy = GcPolicy::new(config);
    let old_age = Duration::from_secs(DEFAULT_MAX_CONTRACT_AGE + 3600);
    assert!(!policy.should_collect(old_age, old_age, false, None));
}

#[test]
fn test_quota_usage() {
    let policy = default_policy();
    assert!(!policy.is_over_quota(DEFAULT_STORAGE_QUOTA_BYTES / 2));
    assert!(policy.is_over_quota(DEFAULT_STORAGE_QUOTA_BYTES + 1));

    let r = policy.quota_usage(DEFAULT_STORAGE_QUOTA_BYTES / 2).unwrap();
    let usage = r.numer as f64 / r.denom as f64;
    assert!((usage - 0.5).abs() < 0.001);
}

#[test]
fn boundaries_of_collection() {
    let policy = default_policy();
    let ttl = Duration::from_secs(DEFAULT_CONTRACT_TTL);
    let before = Duration { nanos: ttl.nanos - 1 };
    let young = Duration::from_secs(1);
    assert!(policy.should_collect(ttl, young, false, None));
    assert!(!policy.should_collect(before, young, false, None));
    let exemption = Duration::from_secs(DEFAULT_EXEMPTION_TTL);
    assert!(policy.should_collect(ttl, young, true, Some(exemption)));
    assert!(!policy.should_collect(
        ttl,
        young,
        true,
        Some(Duration { nanos: exemption.nanos - 1 })
    ));
    // an exemption of unknown age protects nothing
    assert!(policy.should_collect(ttl, young, true, None));
    let max = Duration::from_secs(DEFAULT_MAX_CONTRACT_AGE);
    assert!(policy.should_collect(young, max, true, Some(young)));
}

#[test]
fn no_quota_is_infinitely_used() {
    let config = GcConfig { storage_quota_bytes: 0, ..Default::default() };
    let policy = GcPolicy::new(config);
    assert_eq!(policy.quota_usage(1), None);
    assert!(policy.is_over_quota(1));
    assert!(!policy.is_over_quota(0));
}

#[test]
fn gc_configuration_as_durations() {
    let c = GcConfig::default();
    assert_eq!(c.contract_ttl(), Duration::from_secs(7 * 24 * 3600));
    assert_eq!(c.max_contract_age(), Duration::from_secs(30 * 24 * 3600));
    assert_eq!(c.exemption_ttl(), Duration::from_secs(24 * 3600));
    assert_eq!(c.gc_interval(), Duration::from_secs(DEFAULT_GC_INTERVAL));
    assert_eq!(DEFAULT_STORAGE_QUOTA_BYTES, 500 * 1024 * 1024);
    assert_eq!(*default_policy().config(), c);
    let r = GcSweepResult::default();
    assert!(r.removed.is_empty() && r.errors.is_empty());
    assert_eq!((r.exempted, r.bytes_freed), (0, 0));
}

//! Contracts on encrypted state: which homomorphic operation runs, with which
//! server key, and what is reported of it.
//!
//! The homomorphic arithmetic itself works with a server key that is set for the
//! thread; setting it and computing is the caller's.
use crate::counters::{add_wrapping, wrapped_sum};
use crate::linear_map::{lemma_entries_len, lemma_entries_value, LinearMap};
use crate::ml::MLConfig;
use crate::ratio::Ratio;
use crate::text::{decimal, decimal_is_injective, join, push_decimal};
use std::sync::Arc;
use tfhe::{ClientKey, ConfigBuilder, ServerKey};
use vstd::prelude::*;
use vstd::utf8::encode_utf8;

verus! {

/// Milliseconds that execution without encryption is taken to need.
pub const FALLBACK_MS: u64 = 100;

// ---------------------------------------------------------------------------
// Keys
// ---------------------------------------------------------------------------

/// `tfhe::Config`, the parameters of a key.
#[verifier::external_type_specification]
#[verifier::external_body]
pub struct ExConfig(tfhe::Config);

/// `tfhe::ServerKey`, a key to compute on ciphertexts with.
#[verifier::external_type_specification]
#[verifier::external_body]
pub struct ExServerKey(tfhe::ServerKey);

/// The parameters of a configuration are those of small encryption.
pub uninterp spec fn config_small(c: tfhe::Config) -> bool;

/// The parameters that a server key was made for are those of small encryption.
pub uninterp spec fn key_small(k: tfhe::ServerKey) -> bool;

/// `ConfigBuilder::default_with_small_encryption`: the crate's parameters with small
/// encryption. Nothing more is stated of what they are.
#[verifier::external_body]
fn small_config() -> (c: tfhe::Config)
    ensures
        config_small(c),
{
    ConfigBuilder::default_with_small_encryption().build()
}

/// `ConfigBuilder::default`: the crate's usual parameters, which are those with big
/// encryption. Nothing more is stated of what they are.
#[verifier::external_body]
fn default_config() -> (c: tfhe::Config)
    ensures
        !config_small(c),
{
    ConfigBuilder::default().build()
}

/// `ConfigBuilder::default_with_big_encryption`: the crate's parameters with big
/// encryption. Nothing more is stated of what they are.
#[verifier::external_body]
fn big_config() -> (c: tfhe::Config)
    ensures
        !config_small(c),
{
    ConfigBuilder::default_with_big_encryption().build()
}

/// `ClientKey::generate` and `ClientKey::generate_server_key`: a fresh server key,
/// made for the parameters of the configuration. Which one it is depends on chance.
#[verifier::external_body]
fn generate_server_key(config: tfhe::Config) -> (k: ServerKey)
    ensures
        key_small(k) == config_small(config),
{
    ClientKey::generate(config).generate_server_key()
}

/// How security and speed are balanced.
#[derive(Clone, Copy, Debug, PartialEq, Eq, Structural)]
pub enum FHEParameterSet {
    Fast,
    Standard,
    Secure,
}

// ---------------------------------------------------------------------------
// Configuration and values
// ---------------------------------------------------------------------------

/// How homomorphic execution is configured.
#[derive(Clone, Copy, Debug, PartialEq, Eq, Structural)]
pub struct FHEConfig {
    pub enabled: bool,
    /// Whether execution without encryption takes the place of a failed one.
    pub fallback_on_error: bool,
    pub max_ciphertext_size: usize,
    pub parameter_set: FHEParameterSet,
    pub enable_optimization: bool,
    pub cache_server_keys: bool,
    pub max_cached_keys: usize,
}

impl FHEConfig {
    /// Disabled, with the usual parameters.
    pub open spec fn standard() -> Self {
        FHEConfig {
            enabled: false,
            fallback_on_error: true,
            max_ciphertext_size: 1_048_576,
            parameter_set: FHEParameterSet::Standard,
            enable_optimization: true,
            cache_server_keys: true,
            max_cached_keys: 100,
        }
    }
}

impl Default for FHEConfig {
    fn default() -> (c: Self)
        ensures
            c == Self::standard(),
    {
        FHEConfig {
            enabled: false,
            fallback_on_error: true,
            max_ciphertext_size: 1_048_576,
            parameter_set: FHEParameterSet::Standard,
            enable_optimization: true,
            cache_server_keys: true,
            max_cached_keys: 100,
        }
    }
}

/// What belongs to a ciphertext.
#[derive(Debug)]
pub struct EncryptionMetadata {
    pub key_id: String,
    pub parameter_set: FHEParameterSet,
    pub timestamp: u64,
    pub extras: LinearMap<String, String>,
}

/// The encrypted state of a contract.
#[derive(Debug)]
pub struct EncryptedState {
    pub ciphertext: Vec<u8>,
    pub metadata: EncryptionMetadata,
    pub size_hint: usize,
}

/// An operation on an encrypted state.
#[derive(Debug)]
pub struct EncryptedOperation {
    pub op_type: String,
    pub encrypted_params: Vec<u8>,
    pub public_params: LinearMap<String, String>,
}

/// When and how an operation ran.
#[derive(Debug)]
pub struct ExecutionMetadata {
    pub execution_id: String,
    pub start_time: u64,
    pub end_time: u64,
    pub used_fallback: bool,
}

/// How much noise a result carries, in millionths.
#[derive(Clone, Copy, Debug, PartialEq, Eq, Structural)]
pub struct NoiseLevel {
    pub millionths: u64,
}

impl NoiseLevel {
    /// The level as a ratio.
    pub fn ratio(&self) -> (r: Ratio)
        ensures
            r == (Ratio { numer: self.millionths as u128, denom: 1_000_000 }),
    {
        Ratio { numer: self.millionths as u128, denom: 1_000_000 }
    }
}

/// What an operation cost.
#[derive(Clone, Copy, Debug, PartialEq, Eq, Structural)]
pub struct ComputationStats {
    pub operations_count: u64,
    pub computation_time_ms: u64,
    pub memory_usage_bytes: u64,
    pub noise_level: NoiseLevel,
}

/// The result of an operation.
#[derive(Debug)]
pub struct EncryptedExecutionResult {
    pub encrypted_result: Vec<u8>,
    pub metadata: ExecutionMetadata,
    pub stats: ComputationStats,
}

/// The homomorphic operations.
#[derive(Clone, Copy, Debug, PartialEq, Eq, Structural)]
pub enum HomomorphicOp {
    Add,
    Multiply,
    Compare,
    Conditional,
}

/// Why an operation failed.
#[derive(Debug)]
pub enum FHEError {
    /// There is no such operation.
    Unsupported(String),
    /// There is no enhancement to run it.
    NotAvailable,
    /// The computation failed.
    Execution(String),
}

impl FHEError {
    /// What the error says.
    pub open spec fn text(self) -> Seq<char> {
        match self {
            FHEError::Unsupported(op) => "Unsupported FHE operation: "@ + op@,
            FHEError::NotAvailable => "FHE not available - feature disabled or not configured"@,
            FHEError::Execution(e) => e@,
        }
    }

    /// What the error says.
    pub fn message(&self) -> (s: String)
        ensures
            s@ == self.text(),
    {
        match self {
            FHEError::Unsupported(op) => join("Unsupported FHE operation: ", op.as_str()),
            FHEError::NotAvailable => "FHE not available - feature disabled or not configured".to_owned(),
            FHEError::Execution(e) => e.clone(),
        }
    }
}

/// The operation of a name.
pub open spec fn operation_named(name: Seq<char>) -> Option<HomomorphicOp> {
    if name == "add"@ {
        Some(HomomorphicOp::Add)
    } else if name == "multiply"@ {
        Some(HomomorphicOp::Multiply)
    } else if name == "compare"@ {
        Some(HomomorphicOp::Compare)
    } else if name == "conditional"@ {
        Some(HomomorphicOp::Conditional)
    } else {
        None
    }
}

/// The operation to run.
pub fn plan_operation(operation: &EncryptedOperation) -> (r: Result<HomomorphicOp, FHEError>)
    ensures
        match operation_named(operation.op_type@) {
            Some(op) => r == Ok::<HomomorphicOp, FHEError>(op),
            None => r is Err && r->Err_0 is Unsupported && r->Err_0.text()
                == "Unsupported FHE operation: "@ + operation.op_type@,
        },
{
    let name = &operation.op_type;
    if *name == "add".to_owned() {
        Ok(HomomorphicOp::Add)
    } else if *name == "multiply".to_owned() {
        Ok(HomomorphicOp::Multiply)
    } else if *name == "compare".to_owned() {
        Ok(HomomorphicOp::Compare)
    } else if *name == "conditional".to_owned() {
        Ok(HomomorphicOp::Conditional)
    } else {
        Err(FHEError::Unsupported(name.clone()))
    }
}

// ---------------------------------------------------------------------------
// Statistics
// ---------------------------------------------------------------------------

/// What was done, and what it cost.
#[derive(Clone, Copy, Debug, PartialEq, Eq, Structural)]
pub struct FHEStats {
    pub total_operations: u64,
    pub successful_operations: u64,
    pub failed_operations: u64,
    pub fallback_operations: u64,
    pub total_computation_time_ms: u64,
    pub total_memory_usage_bytes: u64,
    /// The noise levels of the successes, per success.
    pub average_noise_level: Ratio,
    /// Server keys that were served from the cache.
    pub cache_hits: u64,
    /// Server keys that had to be made.
    pub cache_misses: u64,
}

impl Default for FHEStats {
    fn default() -> (s: Self)
        ensures
            s == FHEStats::none(),
    {
        FHEStats {
            total_operations: 0,
            successful_operations: 0,
            failed_operations: 0,
            fallback_operations: 0,
            total_computation_time_ms: 0,
            total_memory_usage_bytes: 0,
            average_noise_level: Ratio { numer: 0, denom: 1 },
            cache_hits: 0,
            cache_misses: 0,
        }
    }
}

impl FHEStats {
    /// Nothing was done.
    pub open spec fn none() -> FHEStats {
        FHEStats {
            total_operations: 0,
            successful_operations: 0,
            failed_operations: 0,
            fallback_operations: 0,
            total_computation_time_ms: 0,
            total_memory_usage_bytes: 0,
            average_noise_level: Ratio { numer: 0, denom: 1 },
            cache_hits: 0,
            cache_misses: 0,
        }
    }

    /// Each operation succeeded, failed or fell back.
    pub open spec fn adds_up(self) -> bool {
        self.total_operations == self.successful_operations + self.failed_operations
            + self.fallback_operations
    }

    /// The average is of as many noise levels as there were successes.
    pub open spec fn averages_noise(self) -> bool {
        if self.successful_operations == 0 {
            self.average_noise_level == (Ratio { numer: 0, denom: 1 })
        } else {
            &&& self.average_noise_level.numer <= self.successful_operations * u64::MAX
            &&& self.average_noise_level.denom == 1_000_000 * self.successful_operations
        }
    }

    /// There is room for one operation more that costs so much.
    pub open spec fn has_room(self, millis: int, bytes: int) -> bool {
        &&& self.total_operations < u64::MAX
        &&& self.total_computation_time_ms + millis <= u64::MAX
        &&& self.total_memory_usage_bytes + bytes <= u64::MAX
    }

    /// One success more, that cost so much.
    pub open spec fn with_success(self, c: ComputationStats) -> FHEStats {
        FHEStats {
            total_operations: (self.total_operations + 1) as u64,
            successful_operations: (self.successful_operations + 1) as u64,
            total_computation_time_ms: (self.total_computation_time_ms
                + c.computation_time_ms) as u64,
            total_memory_usage_bytes: (self.total_memory_usage_bytes + c.memory_usage_bytes) as u64,
            average_noise_level: Ratio {
                numer: (self.average_noise_level.numer + c.noise_level.millionths) as u128,
                denom: (1_000_000 * (self.successful_operations + 1)) as u128,
            },
            ..self
        }
    }

    /// One key served more, from the cache or not.
    pub open spec fn with_lookup(self, hit: bool) -> FHEStats {
        if hit {
            FHEStats { cache_hits: wrapped_sum(self.cache_hits, 1), ..self }
        } else {
            FHEStats { cache_misses: wrapped_sum(self.cache_misses, 1), ..self }
        }
    }

    /// One failure more.
    pub open spec fn with_failure(self) -> FHEStats {
        FHEStats {
            total_operations: (self.total_operations + 1) as u64,
            failed_operations: (self.failed_operations + 1) as u64,
            ..self
        }
    }

    /// One fallback more.
    pub open spec fn with_fallback(self) -> FHEStats {
        FHEStats {
            total_operations: (self.total_operations + 1) as u64,
            fallback_operations: (self.fallback_operations + 1) as u64,
            ..self
        }
    }

    /// Successes per operation.
    pub open spec fn success_rate_spec(self) -> Ratio {
        Ratio::of_spec(self.successful_operations as int, self.total_operations as int)
    }

    /// Successes per operation.
    pub fn success_rate(&self) -> (r: Ratio)
        ensures
            r == self.success_rate_spec(),
            r == Ratio::of_spec(self.successful_operations as int, self.total_operations as int),
    {
        Ratio::of(self.successful_operations as u128, self.total_operations as u128)
    }

    /// Fallbacks per operation.
    pub open spec fn fallback_rate_spec(self) -> Ratio {
        Ratio::of_spec(self.fallback_operations as int, self.total_operations as int)
    }

    /// Fallbacks per operation.
    pub fn fallback_rate(&self) -> (r: Ratio)
        ensures
            r == self.fallback_rate_spec(),
            r == Ratio::of_spec(self.fallback_operations as int, self.total_operations as int),
    {
        Ratio::of(self.fallback_operations as u128, self.total_operations as u128)
    }

    /// Milliseconds per success.
    pub open spec fn average_computation_time_ms_spec(self) -> Ratio {
        Ratio::of_spec(self.total_computation_time_ms as int, self.successful_operations as int)
    }

    /// Milliseconds per success.
    pub fn average_computation_time_ms(&self) -> (r: Ratio)
        ensures
            r == self.average_computation_time_ms_spec(),
            r == Ratio::of_spec(
                self.total_computation_time_ms as int,
                self.successful_operations as int,
            ),
    {
        Ratio::of(self.total_computation_time_ms as u128, self.successful_operations as u128)
    }

    /// Cache hits per look into the cache.
    pub open spec fn cache_hit_rate_spec(self) -> Ratio {
        Ratio::of_spec(self.cache_hits as int, self.cache_hits + self.cache_misses)
    }

    /// Cache hits per look into the cache.
    pub fn cache_hit_rate(&self) -> (r: Ratio)
        ensures
            r == self.cache_hit_rate_spec(),
            r == Ratio::of_spec(self.cache_hits as int, self.cache_hits + self.cache_misses),
    {
        Ratio::of(self.cache_hits as u128, self.cache_hits as u128 + self.cache_misses as u128)
    }
}

// ---------------------------------------------------------------------------
// The enhancer
// ---------------------------------------------------------------------------

/// Server keys by their name.
pub type KeyMap = Map<Seq<char>, Arc<ServerKey>>;

/// Homomorphic execution of a node.
pub struct FHEEnhancer {
    pub config: FHEConfig,
    pub server_key_cache: LinearMap<String, Arc<ServerKey>>,
    pub stats: FHEStats,
}

/// An execution is named after the contract and the time it started.
pub open spec fn execution_name(contract: Seq<char>, start_ms: nat) -> Seq<char> {
    "fhe-"@ + contract + "-"@ + decimal(start_ms)
}

/// The result of a homomorphic operation.
pub open spec fn computed(
    r: EncryptedExecutionResult,
    execution_id: Seq<char>,
    size_hint: usize,
    start_ms: u64,
    end_ms: u64,
) -> bool {
    &&& r.encrypted_result@ == encode_utf8("encrypted_result"@)
    &&& r.metadata.execution_id@ == execution_id
    &&& r.metadata.start_time == start_ms
    &&& r.metadata.end_time == end_ms
    &&& !r.metadata.used_fallback
    &&& r.stats == (ComputationStats {
        operations_count: 1,
        computation_time_ms: (end_ms - start_ms) as u64,
        memory_usage_bytes: size_hint as u64,
        noise_level: NoiseLevel { millionths: 500_000 },
    })
}

/// The result of execution without encryption.
pub open spec fn fallen_back(r: EncryptedExecutionResult, size_hint: usize, start_ms: u64) -> bool {
    &&& r.encrypted_result@ == encode_utf8("fallback_result"@)
    &&& r.metadata.execution_id@ == "fallback-"@ + decimal(start_ms as nat)
    &&& r.metadata.start_time == start_ms
    &&& r.metadata.end_time == start_ms + FALLBACK_MS
    &&& r.metadata.used_fallback
    &&& r.stats == (ComputationStats {
        operations_count: 1,
        computation_time_ms: FALLBACK_MS,
        memory_usage_bytes: size_hint as u64,
        noise_level: NoiseLevel { millionths: 0 },
    })
}

impl FHEEnhancer {
    pub open spec fn wf(&self) -> bool {
        self.server_key_cache.wf() && self.stats.adds_up() && self.stats.averages_noise()
    }

    /// The server keys that are kept.
    pub open spec fn cached(&self) -> KeyMap {
        self.server_key_cache@
    }

    /// The name of the key that has been kept longest.
    pub open spec fn oldest(&self) -> Seq<char> {
        self.server_key_cache.entries@[0].0@
    }

    /// An enhancer that keeps no key yet.
    pub fn new(config: FHEConfig) -> (e: Self)
        ensures
            e.wf(),
            e.config == config,
            e.cached() == KeyMap::empty(),
            e.stats == FHEStats::none(),
    {
        FHEEnhancer {
            config,
            server_key_cache: LinearMap::new(),
            stats: FHEStats::default(),
        }
    }

    /// A key is served: the cached one where there is one, otherwise a fresh one for
    /// the configured parameters, which is cached where keys are cached. A full cache
    /// gives up its oldest key.
    pub open spec fn key_served(before: Self, after: Self, id: Seq<char>, k: Arc<ServerKey>) -> bool {
        if before.cached().dom().contains(id) {
            k == before.cached()[id] && after.cached() == before.cached()
        } else {
            &&& key_small(*k) == (before.config.parameter_set == FHEParameterSet::Fast)
            &&& if !before.config.cache_server_keys {
                after.cached() == before.cached()
            } else {
                after.cached() == (if before.cached().dom().len() >= before.config.max_cached_keys
                    && before.cached().dom().len() > 0 {
                    before.cached().remove(before.oldest())
                } else {
                    before.cached()
                }).insert(id, k)
            }
        }
    }

    /// The server key of a name: the one that is kept, or a fresh one, which is
    /// then kept where keys are to be kept. Where there is no room for it, the key
    /// that has been kept longest makes way. A hit or a miss is counted.
    pub fn get_or_create_server_key(&mut self, key_id: &String) -> (k: Arc<ServerKey>)
        requires
            old(self).wf(),
        ensures
            final(self).wf(),
            final(self).config == old(self).config,
            final(self).stats == old(self).stats.with_lookup(
                old(self).cached().dom().contains(key_id@),
            ),
            Self::key_served(*old(self), *final(self), key_id@, k),
    {
        match self.server_key_cache.get(key_id) {
            Some(k) => {
                self.stats.cache_hits = add_wrapping(self.stats.cache_hits, 1);
                return Arc::clone(k);
            },
            None => {},
        }
        self.stats.cache_misses = add_wrapping(self.stats.cache_misses, 1);
        let config = match self.config.parameter_set {
            FHEParameterSet::Fast => small_config(),
            FHEParameterSet::Standard => default_config(),
            FHEParameterSet::Secure => big_config(),
        };
        let server_key = Arc::new(generate_server_key(config));
        if self.config.cache_server_keys {
            if self.server_key_cache.len() >= self.config.max_cached_keys
                && self.server_key_cache.len() > 0 {
                self.server_key_cache.remove_at(0);
            }
            self.server_key_cache.insert(key_id.clone(), Arc::clone(&server_key));
        }
        server_key
    }

    /// The name of an execution and the server key for it.
    pub fn begin_execution(&mut self, contract_key: &str, state: &EncryptedState, start_ms: u64) -> (r:
        (String, Arc<ServerKey>))
        requires
            old(self).wf(),
        ensures
            final(self).wf(),
            final(self).config == old(self).config,
            final(self).stats == old(self).stats.with_lookup(
                old(self).cached().dom().contains(state.metadata.key_id@),
            ),
            r.0@ == execution_name(contract_key@, start_ms as nat),
            Self::key_served(*old(self), *final(self), state.metadata.key_id@, r.1),
    {
        let mut execution_id = "fhe-".to_owned();
        execution_id.append(contract_key);
        execution_id.append("-");
        push_decimal(&mut execution_id, start_ms);
        let key = self.get_or_create_server_key(&state.metadata.key_id);
        (execution_id, key)
    }

    /// The result of an operation that was computed from `start_ms` to `end_ms`,
    /// or the error where there is no such operation.
    pub fn execute_homomorphic_operation(
        &self,
        state: &EncryptedState,
        operation: &EncryptedOperation,
        execution_id: &str,
        start_ms: u64,
        end_ms: u64,
    ) -> (r: Result<EncryptedExecutionResult, FHEError>)
        requires
            start_ms <= end_ms,
        ensures
            r is Ok <==> operation_named(operation.op_type@) is Some,
            r is Ok ==> computed(r->Ok_0, execution_id@, state.size_hint, start_ms, end_ms),
            r is Err ==> r->Err_0 is Unsupported && r->Err_0.text()
                == "Unsupported FHE operation: "@ + operation.op_type@,
    {
        match plan_operation(operation) {
            Ok(_) => Ok(
                EncryptedExecutionResult {
                    encrypted_result: serialize_fhe_result(),
                    metadata: ExecutionMetadata {
                        execution_id: execution_id.to_owned(),
                        start_time: start_ms,
                        end_time: end_ms,
                        used_fallback: false,
                    },
                    stats: ComputationStats {
                        operations_count: 1,
                        computation_time_ms: end_ms - start_ms,
                        memory_usage_bytes: state.size_hint as u64,
                        noise_level: NoiseLevel { millionths: 500_000 },
                    },
                },
            ),
            Err(e) => Err(e),
        }
    }

    /// What becomes of an execution: a success is counted and passed on; a failure
    /// makes way for execution without encryption where that is configured, and is
    /// counted and passed on otherwise.
    pub fn execute_encrypted_contract(
        &mut self,
        outcome: Result<EncryptedExecutionResult, FHEError>,
        state: &EncryptedState,
        now_ms: u64,
    ) -> (r: Result<EncryptedExecutionResult, FHEError>)
        requires
            old(self).wf(),
            now_ms + FALLBACK_MS <= u64::MAX,
            outcome is Ok ==> old(self).stats.has_room(
                outcome->Ok_0.stats.computation_time_ms as int,
                outcome->Ok_0.stats.memory_usage_bytes as int,
            ),
            old(self).stats.total_operations < u64::MAX,
        ensures
            final(self).wf(),
            final(self).config == old(self).config,
            final(self).cached() == old(self).cached(),
            match outcome {
                Ok(o) => r == outcome && final(self).stats == old(self).stats.with_success(o.stats),
                Err(e) => if old(self).config.fallback_on_error {
                    &&& r is Ok
                    &&& fallen_back(r->Ok_0, state.size_hint, now_ms)
                    &&& final(self).stats == old(self).stats.with_fallback()
                } else {
                    r == outcome && final(self).stats == old(self).stats.with_failure()
                },
            },
    {
        match outcome {
            Ok(o) => {
                self.stats.total_operations = self.stats.total_operations + 1;
                self.stats.successful_operations = self.stats.successful_operations + 1;
                self.stats.average_noise_level =
                Ratio {
                    numer: self.stats.average_noise_level.numer
                        + o.stats.noise_level.millionths as u128,
                    denom: 1_000_000 * (self.stats.successful_operations as u128),
                };
                self.stats.total_computation_time_ms =
                self.stats.total_computation_time_ms + o.stats.computation_time_ms;
                self.stats.total_memory_usage_bytes =
                self.stats.total_memory_usage_bytes + o.stats.memory_usage_bytes;
                Ok(o)
            },
            Err(e) => if self.config.fallback_on_error {
                Ok(self.execute_fallback(state, now_ms))
            } else {
                self.stats.total_operations = self.stats.total_operations + 1;
                self.stats.failed_operations = self.stats.failed_operations + 1;
                Err(e)
            },
        }
    }

    /// The result of execution without encryption.
    pub fn execute_fallback(&mut self, state: &EncryptedState, start_ms: u64) -> (r:
        EncryptedExecutionResult)
        requires
            old(self).wf(),
            start_ms + FALLBACK_MS <= u64::MAX,
            old(self).stats.total_operations < u64::MAX,
        ensures
            final(self).wf(),
            final(self).config == old(self).config,
            final(self).cached() == old(self).cached(),
            final(self).stats == old(self).stats.with_fallback(),
            fallen_back(r, state.size_hint, start_ms),
    {
        let end_ms: u64 = start_ms + FALLBACK_MS;
        self.stats.total_operations = self.stats.total_operations + 1;
        self.stats.fallback_operations = self.stats.fallback_operations + 1;
        let mut execution_id = "fallback-".to_owned();
        push_decimal(&mut execution_id, start_ms);
        EncryptedExecutionResult {
            encrypted_result: "fallback_result".as_bytes_vec(),
            metadata: ExecutionMetadata {
                execution_id,
                start_time: start_ms,
                end_time: end_ms,
                used_fallback: true,
            },
            stats: ComputationStats {
                operations_count: 1,
                computation_time_ms: end_ms - start_ms,
                memory_usage_bytes: state.size_hint as u64,
                noise_level: NoiseLevel { millionths: 0 },
            },
        }
    }

    /// What was done so far.
    pub fn stats(&self) -> (s: FHEStats)
        ensures
            s == self.stats,
    {
        self.stats
    }
}

/// What stands for a result in its encrypted form.
pub fn serialize_fhe_result() -> (bytes: Vec<u8>)
    ensures
        bytes@ == encode_utf8("encrypted_result"@),
{
    "encrypted_result".as_bytes_vec()
}

/// Serving a key never makes more kept keys than allowed, or than one where none is
/// allowed.
pub proof fn cache_stays_bounded(
    before: FHEEnhancer,
    after: FHEEnhancer,
    id: Seq<char>,
    k: Arc<ServerKey>,
)
    requires
        before.wf(),
        FHEEnhancer::key_served(before, after, id, k),
        before.cached().dom().len() <= before.config.max_cached_keys
            || before.cached().dom().len() <= 1,
    ensures
        after.cached().dom().len() <= before.config.max_cached_keys || after.cached().dom().len()
            <= 1,
{
    let entries = before.server_key_cache.entries@;
    lemma_entries_len(entries);
    if entries.len() > 0 {
        lemma_entries_value(entries, 0);
    }
}

/// A contract executor with homomorphic execution.
pub struct FHEContractExecutor<B> {
    pub base: B,
    pub enhancement: Option<FHEEnhancer>,
    pub config: MLConfig,
}

impl<B> FHEContractExecutor<B> {
    pub open spec fn wf(&self) -> bool {
        self.enhancement is Some ==> self.enhancement->0.wf()
    }

    /// An executor that is enhanced where the configuration enables it.
    pub fn new(base: B, config: FHEConfig) -> (x: Self)
        ensures
            x.wf(),
            x.base == base,
            x.enhancement is Some <==> config.enabled,
            x.enhancement is Some ==> {
                &&& x.enhancement->0.config == config
                &&& x.enhancement->0.cached() == KeyMap::empty()
                &&& x.enhancement->0.stats == FHEStats::none()
            },
            x.config.enabled == config.enabled,
            x.config.fallback_on_error == config.fallback_on_error,
            x.config.model_path is None,
            x.config.max_inference_latency_ms == 5000,
    {
        let enhancement = if config.enabled {
            Some(FHEEnhancer::new(config))
        } else {
            None
        };
        FHEContractExecutor {
            base,
            enhancement,
            config: MLConfig {
                enabled: config.enabled,
                fallback_on_error: config.fallback_on_error,
                model_path: None,
                max_inference_latency_ms: 5000,
            },
        }
    }

    /// What becomes of an execution, given what the computation came to; an error
    /// without enhancement.
    pub fn execute_encrypted(
        &mut self,
        outcome: Result<EncryptedExecutionResult, FHEError>,
        state: &EncryptedState,
        now_ms: u64,
    ) -> (r: Result<EncryptedExecutionResult, FHEError>)
        requires
            old(self).wf(),
            now_ms + FALLBACK_MS <= u64::MAX,
            old(self).enhancement is Some ==> old(self).enhancement->0.stats.total_operations < u64::MAX && (outcome is Ok ==> old(self).enhancement->0.stats.has_room(
                outcome->Ok_0.stats.computation_time_ms as int,
                outcome->Ok_0.stats.memory_usage_bytes as int,
            )),
        ensures
            final(self).wf(),
            final(self).base == old(self).base,
            final(self).config == old(self).config,
            final(self).enhancement is Some <==> old(self).enhancement is Some,
            match old(self).enhancement {
                None => r is Err && r->Err_0 is NotAvailable,
                Some(e) => {
                    &&& final(self).enhancement->0.config == e.config
                    &&& final(self).enhancement->0.cached() == e.cached()
                    &&& match outcome {
                        Ok(o) => {
                            &&& r == outcome
                            &&& final(self).enhancement->0.stats == e.stats.with_success(o.stats)
                        },
                        Err(_) => if e.config.fallback_on_error {
                            &&& r is Ok
                            &&& fallen_back(r->Ok_0, state.size_hint, now_ms)
                            &&& final(self).enhancement->0.stats == e.stats.with_fallback()
                        } else {
                            &&& r == outcome
                            &&& final(self).enhancement->0.stats == e.stats.with_failure()
                        },
                    }
                },
            },
    {
        match &mut self.enhancement {
            Some(e) => e.execute_encrypted_contract(outcome, state, now_ms),
            None => Err(FHEError::NotAvailable),
        }
    }

    /// What was done so far.
    pub fn fhe_stats(&self) -> (s: FHEStats)
        ensures
            s == (match self.enhancement {
                Some(e) => e.stats,
                None => FHEStats::none(),
            }),
    {
        match &self.enhancement {
            Some(e) => e.stats(),
            None => FHEStats::default(),
        }
    }
}

/// Each operation has a name of its own, and no other name is one.
pub proof fn operations_have_names(name: Seq<char>)
    ensures
        operation_named(name) == Some(HomomorphicOp::Add) <==> name == "add"@,
        operation_named(name) == Some(HomomorphicOp::Multiply) <==> name == "multiply"@,
        operation_named(name) == Some(HomomorphicOp::Compare) <==> name == "compare"@,
        operation_named(name) == Some(HomomorphicOp::Conditional) <==> name == "conditional"@,
        operation_named(name) is None <==> name != "add"@ && name != "multiply"@ && name
            != "compare"@ && name != "conditional"@,
{
    reveal_strlit("add");
    reveal_strlit("multiply");
    reveal_strlit("compare");
    reveal_strlit("conditional");
    assert("add"@.len() == 3 && "multiply"@.len() == 8 && "compare"@.len() == 7
        && "conditional"@.len() == 11);
}

/// Each execution is counted once in all and once under what became of it; a success adds
/// its time, its bytes and its noise, the others add nothing. The counts still add up.
pub proof fn executions_are_counted_once(s: FHEStats, c: ComputationStats)
    requires
        s.adds_up(),
        s.averages_noise(),
        s.has_room(c.computation_time_ms as int, c.memory_usage_bytes as int),
    ensures
        ({
            let t = s.with_success(c);
            &&& t.adds_up() && t.averages_noise()
            &&& t.total_operations == s.total_operations + 1
            &&& t.successful_operations == s.successful_operations + 1
            &&& t.failed_operations == s.failed_operations
            &&& t.fallback_operations == s.fallback_operations
            &&& t.total_computation_time_ms == s.total_computation_time_ms + c.computation_time_ms
            &&& t.total_memory_usage_bytes == s.total_memory_usage_bytes + c.memory_usage_bytes
            &&& t.cache_hits == s.cache_hits && t.cache_misses == s.cache_misses
        }),
        ({
            let t = s.with_failure();
            &&& t.adds_up() && t.averages_noise()
            &&& t.total_operations == s.total_operations + 1
            &&& t.failed_operations == s.failed_operations + 1
            &&& t.successful_operations == s.successful_operations
            &&& t.fallback_operations == s.fallback_operations
            &&& t.average_noise_level == s.average_noise_level
            &&& t.total_computation_time_ms == s.total_computation_time_ms
        }),
        ({
            let t = s.with_fallback();
            &&& t.adds_up() && t.averages_noise()
            &&& t.total_operations == s.total_operations + 1
            &&& t.fallback_operations == s.fallback_operations + 1
            &&& t.successful_operations == s.successful_operations
            &&& t.failed_operations == s.failed_operations
            &&& t.average_noise_level == s.average_noise_level
            &&& t.total_computation_time_ms == s.total_computation_time_ms
        }),
{
}

/// The average noise is that of the first success after one, and with each further one
/// its sum grows by the noise of that success and its divisor by one success.
pub proof fn noise_is_averaged(s: FHEStats, c: ComputationStats)
    requires
        s.averages_noise(),
        s.successful_operations < u64::MAX,
    ensures
        ({
            let a = s.average_noise_level;
            let b = s.with_success(c).average_noise_level;
            let n = s.successful_operations as int;
            &&& n > 0 ==> b.numer == a.numer + c.noise_level.millionths
            &&& b.denom == 1_000_000 * (n + 1)
            &&& n == 0 ==> b.numer * 1_000_000 == c.noise_level.millionths * b.denom
        }),
{
}

/// A key that is served from the cache counts as a hit, any other as a miss, and nothing
/// else is counted.
pub proof fn lookups_are_counted(s: FHEStats)
    ensures
        s.with_lookup(true).cache_hits == wrapped_sum(s.cache_hits, 1),
        s.with_lookup(true).cache_misses == s.cache_misses,
        s.with_lookup(false).cache_misses == wrapped_sum(s.cache_misses, 1),
        s.with_lookup(false).cache_hits == s.cache_hits,
        s.with_lookup(true).total_operations == s.total_operations,
        s.with_lookup(false).total_operations == s.total_operations,
{
}

/// A key that is kept is served as it is, and serving it changes nothing. A key that is
/// not kept is made for the configured parameters; where keys are kept it is kept under
/// its name, and one other goes at most, the oldest, and only where there is no room.
pub proof fn kept_keys_are_served(
    before: FHEEnhancer,
    after: FHEEnhancer,
    id: Seq<char>,
    other: Seq<char>,
    k: Arc<ServerKey>,
)
    requires
        before.wf(),
        FHEEnhancer::key_served(before, after, id, k),
        other != id,
    ensures
        before.cached().dom().contains(id) ==> k == before.cached()[id] && after.cached()
            == before.cached(),
        !before.cached().dom().contains(id) ==> (key_small(*k) <==> before.config.parameter_set is Fast),
        !before.cached().dom().contains(id) && !before.config.cache_server_keys ==> after.cached()
            == before.cached(),
        !before.cached().dom().contains(id) && before.config.cache_server_keys
            ==> after.cached().dom().contains(id) && after.cached()[id] == k,
        after.cached().dom().contains(other) ==> before.cached().dom().contains(other)
            && after.cached()[other] == before.cached()[other],
        before.cached().dom().contains(other) && !after.cached().dom().contains(other) ==> other
            == before.oldest() && before.cached().dom().len() >= before.config.max_cached_keys,
{
}

/// An execution is named after its contract and its start: two of one contract at
/// different times have different names.
pub proof fn executions_have_names_of_their_own(contract: Seq<char>, a: nat, b: nat)
    requires
        execution_name(contract, a) == execution_name(contract, b),
    ensures
        a == b,
        ("fhe-"@ + contract).is_prefix_of(execution_name(contract, a)),
{
    let head = "fhe-"@ + contract + "-"@;
    let x = execution_name(contract, a);
    let y = execution_name(contract, b);
    assert(x.subrange(head.len() as int, x.len() as int) =~= decimal(a));
    assert(y.subrange(head.len() as int, y.len() as int) =~= decimal(b));
    decimal_is_injective(a, b);
    let p = "fhe-"@ + contract;
    assert(x.subrange(0, p.len() as int) =~= p);
}

/// A computed result says when it ran, that it did not fall back, how long it took and
/// how much noise it carries: half of what may be. One without encryption says that it
/// fell back and carries none.
pub proof fn results_say_how_they_came_about(
    r: EncryptedExecutionResult,
    id: Seq<char>,
    size_hint: usize,
    start_ms: u64,
    end_ms: u64,
)
    requires
        start_ms <= end_ms,
    ensures
        computed(r, id, size_hint, start_ms, end_ms) ==> {
            &&& !r.metadata.used_fallback
            &&& r.metadata.execution_id@ == id
            &&& r.metadata.start_time == start_ms && r.metadata.end_time == end_ms
            &&& r.stats.computation_time_ms == end_ms - start_ms
            &&& 2 * r.stats.noise_level.millionths == 1_000_000
            &&& r.stats.operations_count == 1
            &&& r.stats.memory_usage_bytes == size_hint
        },
        fallen_back(r, size_hint, start_ms) ==> {
            &&& r.metadata.used_fallback
            &&& r.stats.noise_level.millionths == 0
            &&& r.metadata.start_time == start_ms
            &&& r.metadata.end_time == start_ms + 100
            &&& r.stats.computation_time_ms == 100
            &&& r.stats.memory_usage_bytes == size_hint
        },
{
}

/// Successes and fallbacks are told per operation, the time per success, and hits per look
/// into the cache; where nothing was counted, as zero.
pub proof fn rates_are_told_per_unit(s: FHEStats)
    ensures
        s.total_operations > 0 ==> s.success_rate_spec().is(s.successful_operations as int, s.total_operations as int),
        s.total_operations == 0 ==> s.success_rate_spec().is(0, 1),
        s.total_operations > 0 ==> s.fallback_rate_spec().is(s.fallback_operations as int, s.total_operations as int),
        s.total_operations == 0 ==> s.fallback_rate_spec().is(0, 1),
        s.successful_operations > 0 ==> s.average_computation_time_ms_spec().is(s.total_computation_time_ms as int, s.successful_operations as int),
        s.successful_operations == 0 ==> s.average_computation_time_ms_spec().is(0, 1),
        s.cache_hits + s.cache_misses > 0 ==> s.cache_hit_rate_spec().is(s.cache_hits as int, s.cache_hits + s.cache_misses),
        s.cache_hits + s.cache_misses == 0 ==> s.cache_hit_rate_spec().is(0, 1),
{
}

/// A fallback is taken to need a tenth of a second and one operation, and is noiseless;
/// its name tells when it began.
pub proof fn fallbacks_take_a_tenth_of_a_second(
    r: EncryptedExecutionResult,
    size_hint: usize,
    start_ms: u64,
)
    requires
        fallen_back(r, size_hint, start_ms),
        start_ms + 100 <= u64::MAX,
    ensures
        r.metadata.end_time - r.metadata.start_time == 100,
        r.stats.computation_time_ms == 100,
        r.stats.operations_count == 1,
        r.stats.memory_usage_bytes == size_hint as u64,
        r.stats.noise_level.millionths == 0,
        r.metadata.used_fallback,
        r.metadata.start_time == start_ms,
{
}

/// Nothing counts before anything is done.
pub proof fn counters_start_at_zero()
    ensures
        FHEStats::none().total_operations == 0,
        FHEStats::none().successful_operations == 0,
        FHEStats::none().failed_operations == 0,
        FHEStats::none().fallback_operations == 0,
        FHEStats::none().total_computation_time_ms == 0,
        FHEStats::none().total_memory_usage_bytes == 0,
        FHEStats::none().cache_hits == 0,
        FHEStats::none().cache_misses == 0,
        FHEStats::none().average_noise_level.is(0, 1),
{
}

} // verus!

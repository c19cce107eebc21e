//! Which contracts are collected as garbage.
//!
//! A contract goes once it has not been used for a while. Subscriptions and
//! pending operations exempt it, but not for ever: exemptions expire, and beyond
//! a certain age every contract goes.
use crate::contract::key::ContractKey;
use crate::ratio::Ratio;
use crate::time::Duration;
use vstd::prelude::*;

verus! {

/// Bytes of contract state by default: 500 MiB.
pub const DEFAULT_STORAGE_QUOTA_BYTES: u64 = 524_288_000;

/// Seconds without access after which a contract goes by default: seven days.
pub const DEFAULT_CONTRACT_TTL: u64 = 604_800;

/// Seconds after which every contract goes by default: thirty days.
pub const DEFAULT_MAX_CONTRACT_AGE: u64 = 2_592_000;

/// Seconds for which an exemption holds by default: one day.
pub const DEFAULT_EXEMPTION_TTL: u64 = 86_400;

/// Seconds between two collections by default: five minutes.
pub const DEFAULT_GC_INTERVAL: u64 = 300;

/// How garbage is collected.
#[derive(Clone, Copy, Debug, PartialEq, Eq, Structural)]
pub struct GcConfig {
    /// Bytes of contract state allowed.
    pub storage_quota_bytes: u64,
    /// Seconds without access after which a contract goes.
    pub contract_ttl_secs: u64,
    /// Seconds after which every contract goes.
    pub max_contract_age_secs: u64,
    /// Seconds for which an exemption holds.
    pub exemption_ttl_secs: u64,
    /// Seconds between two collections.
    pub gc_interval_secs: u64,
    pub enabled: bool,
}

pub fn default_storage_quota() -> (n: u64)
    ensures
        n == DEFAULT_STORAGE_QUOTA_BYTES,
{
    DEFAULT_STORAGE_QUOTA_BYTES
}

pub fn default_contract_ttl_secs() -> (n: u64)
    ensures
        n == DEFAULT_CONTRACT_TTL,
{
    DEFAULT_CONTRACT_TTL
}

pub fn default_max_age_secs() -> (n: u64)
    ensures
        n == DEFAULT_MAX_CONTRACT_AGE,
{
    DEFAULT_MAX_CONTRACT_AGE
}

pub fn default_exemption_ttl_secs() -> (n: u64)
    ensures
        n == DEFAULT_EXEMPTION_TTL,
{
    DEFAULT_EXEMPTION_TTL
}

pub fn default_gc_interval_secs() -> (n: u64)
    ensures
        n == DEFAULT_GC_INTERVAL,
{
    DEFAULT_GC_INTERVAL
}

pub fn default_enabled() -> (b: bool)
    ensures
        b,
{
    true
}

impl GcConfig {
    /// How long a contract may go without access.
    pub fn contract_ttl(&self) -> (d: Duration)
        ensures
            d.nanos == self.contract_ttl_secs * 1_000_000_000,
    {
        Duration::from_secs(self.contract_ttl_secs)
    }

    /// How old a contract may become.
    pub fn max_contract_age(&self) -> (d: Duration)
        ensures
            d.nanos == self.max_contract_age_secs * 1_000_000_000,
    {
        Duration::from_secs(self.max_contract_age_secs)
    }

    /// How long an exemption holds.
    pub fn exemption_ttl(&self) -> (d: Duration)
        ensures
            d.nanos == self.exemption_ttl_secs * 1_000_000_000,
    {
        Duration::from_secs(self.exemption_ttl_secs)
    }

    /// The time between two collections.
    pub fn gc_interval(&self) -> (d: Duration)
        ensures
            d.nanos == self.gc_interval_secs * 1_000_000_000,
    {
        Duration::from_secs(self.gc_interval_secs)
    }
}

impl Default for GcConfig {
    fn default() -> (c: Self)
        ensures
            c == (GcConfig {
                storage_quota_bytes: DEFAULT_STORAGE_QUOTA_BYTES,
                contract_ttl_secs: DEFAULT_CONTRACT_TTL,
                max_contract_age_secs: DEFAULT_MAX_CONTRACT_AGE,
                exemption_ttl_secs: DEFAULT_EXEMPTION_TTL,
                gc_interval_secs: DEFAULT_GC_INTERVAL,
                enabled: true,
            }),
    {
        GcConfig {
            storage_quota_bytes: default_storage_quota(),
            contract_ttl_secs: default_contract_ttl_secs(),
            max_contract_age_secs: default_max_age_secs(),
            exemption_ttl_secs: default_exemption_ttl_secs(),
            gc_interval_secs: default_gc_interval_secs(),
            enabled: default_enabled(),
        }
    }
}

/// What a collection came to.
#[derive(Debug)]
pub struct GcSweepResult {
    pub removed: Vec<ContractKey>,
    /// Contracts that were exempt.
    pub exempted: usize,
    pub bytes_freed: u64,
    /// What went wrong, by contract.
    pub errors: Vec<(ContractKey, String)>,
}

impl Default for GcSweepResult {
    fn default() -> (r: Self)
        ensures
            r.removed@.len() == 0,
            r.exempted == 0,
            r.bytes_freed == 0,
            r.errors@.len() == 0,
    {
        GcSweepResult { removed: Vec::new(), exempted: 0, bytes_freed: 0, errors: Vec::new() }
    }
}

/// An exemption holds: the contract has one, and it is younger than exemptions
/// may become.
pub open spec fn exempt(config: GcConfig, has_exemption: bool, age: Option<Duration>) -> bool {
    has_exemption && age is Some && age->0.nanos < config.exemption_ttl_secs * 1_000_000_000
}

/// A contract is to be collected: it is too old, or it is not exempt and has not
/// been used for too long.
pub open spec fn collectable(
    config: GcConfig,
    last_access_age: Duration,
    contract_age: Duration,
    has_exemption: bool,
    exemption_age: Option<Duration>,
) -> bool {
    &&& config.enabled
    &&& contract_age.nanos >= config.max_contract_age_secs * 1_000_000_000 || (!exempt(
        config,
        has_exemption,
        exemption_age,
    ) && last_access_age.nanos >= config.contract_ttl_secs * 1_000_000_000)
}

/// More is stored than allowed.
pub open spec fn over_quota(config: GcConfig, bytes: u64) -> bool {
    bytes > config.storage_quota_bytes
}

/// The share of the quota that some bytes take, where anything is allowed.
pub open spec fn usage(config: GcConfig, bytes: u64) -> Option<Ratio> {
    if config.storage_quota_bytes == 0 {
        None
    } else {
        Some(Ratio { numer: bytes as u128, denom: config.storage_quota_bytes as u128 })
    }
}

/// Decides which contracts are collected.
#[derive(Clone, Copy, Debug, PartialEq, Eq, Structural)]
pub struct GcPolicy {
    pub config: GcConfig,
}

impl GcPolicy {
    /// A policy as configured.
    pub fn new(config: GcConfig) -> (p: Self)
        ensures
            p.config == config,
    {
        GcPolicy { config }
    }

    /// How the policy is configured.
    pub fn config(&self) -> (c: &GcConfig)
        ensures
            *c == self.config,
    {
        &self.config
    }

    /// Whether a contract is to be collected, given the time since it was last
    /// used and since it was stored, whether it has an exemption, and for how long
    /// it has had it.
    pub fn should_collect(
        &self,
        last_access_age: Duration,
        contract_age: Duration,
        has_active_exemption: bool,
        exemption_age: Option<Duration>,
    ) -> (b: bool)
        ensures
            b == collectable(
                self.config,
                last_access_age,
                contract_age,
                has_active_exemption,
                exemption_age,
            ),
    {
        if !self.config.enabled {
            return false;
        }
        if contract_age.nanos >= self.config.max_contract_age().nanos {
            return true;
        }
        if has_active_exemption {
            if let Some(age) = exemption_age {
                if age.nanos < self.config.exemption_ttl().nanos {
                    return false;
                }
            }
        }
        last_access_age.nanos >= self.config.contract_ttl().nanos
    }

    /// Whether more is stored than allowed.
    pub fn is_over_quota(&self, current_bytes: u64) -> (b: bool)
        ensures
            b == (current_bytes > self.config.storage_quota_bytes),
            b == over_quota(self.config, current_bytes),
    {
        current_bytes > self.config.storage_quota_bytes
    }

    /// The share of the quota that is used; `None` where nothing is allowed, and
    /// any use is infinitely much.
    pub fn quota_usage(&self, current_bytes: u64) -> (r: Option<Ratio>)
        ensures
            r == (if self.config.storage_quota_bytes == 0 {
                None
            } else {
                Some(
                    Ratio {
                        numer: current_bytes as u128,
                        denom: self.config.storage_quota_bytes as u128,
                    },
                )
            }),
            r == usage(self.config, current_bytes),
    {
        if self.config.storage_quota_bytes == 0 {
            return None;
        }
        Some(Ratio::of(current_bytes as u128, self.config.storage_quota_bytes as u128))
    }
}

/// No exemption is permanent: a contract that is old enough is collected whatever
/// exempts it, and an exemption that is old enough protects no longer.
pub proof fn exemptions_are_bounded(
    config: GcConfig,
    last_access_age: Duration,
    contract_age: Duration,
    has_exemption: bool,
    exemption_age: Option<Duration>,
)
    requires
        config.enabled,
    ensures
        contract_age.nanos >= config.max_contract_age_secs * 1_000_000_000 ==> collectable(
            config,
            last_access_age,
            contract_age,
            has_exemption,
            exemption_age,
        ),
        exemption_age is Some && exemption_age->0.nanos >= config.exemption_ttl_secs * 1_000_000_000
            && last_access_age.nanos >= config.contract_ttl_secs * 1_000_000_000 ==> collectable(
            config,
            last_access_age,
            contract_age,
            has_exemption,
            exemption_age,
        ),
{
}

/// Time only brings a contract closer to collection: what is collected now would
/// be collected later, with the same exemption grown older.
pub proof fn collection_is_monotonic(
    config: GcConfig,
    access: Duration,
    age: Duration,
    has_exemption: bool,
    exemption: Option<Duration>,
    passed: u128,
)
    requires
        access.nanos + passed <= u128::MAX,
        age.nanos + passed <= u128::MAX,
        exemption is Some ==> exemption->0.nanos + passed <= u128::MAX,
        collectable(config, access, age, has_exemption, exemption),
    ensures
        collectable(
            config,
            Duration { nanos: (access.nanos + passed) as u128 },
            Duration { nanos: (age.nanos + passed) as u128 },
            has_exemption,
            match exemption {
                Some(e) => Some(Duration { nanos: (e.nanos + passed) as u128 }),
                None => None,
            },
        ),
{
}

/// With collection disabled nothing is collected.
pub proof fn disabled_collects_nothing(
    config: GcConfig,
    access: Duration,
    age: Duration,
    has_exemption: bool,
    exemption: Option<Duration>,
)
    requires
        !config.enabled,
    ensures
        !collectable(config, access, age, has_exemption, exemption),
{
}

/// A contract in use stays: one that was used within the time allowed, and that has not
/// reached the age at which every contract goes, is not collected, whatever its age,
/// its exemption and the age of that.
pub proof fn contracts_in_use_stay(
    config: GcConfig,
    access: Duration,
    age: Duration,
    has_exemption: bool,
    exemption: Option<Duration>,
)
    requires
        age.nanos < config.max_contract_age_secs * 1_000_000_000,
        access.nanos < config.contract_ttl_secs * 1_000_000_000,
    ensures
        !collectable(config, access, age, has_exemption, exemption),
{
}

/// A contract that nobody used for too long goes, unless it has an exemption that
/// still holds; with one it stays until it is too old.
pub proof fn unused_contracts_go(
    config: GcConfig,
    access: Duration,
    age: Duration,
    has_exemption: bool,
    exemption: Option<Duration>,
)
    requires
        config.enabled,
        access.nanos >= config.contract_ttl_secs * 1_000_000_000,
    ensures
        !has_exemption ==> collectable(config, access, age, has_exemption, exemption),
        exemption is None ==> collectable(config, access, age, has_exemption, exemption),
        has_exemption && exemption is Some && exemption->0.nanos < config.exemption_ttl_secs
            * 1_000_000_000 && age.nanos < config.max_contract_age_secs * 1_000_000_000
            ==> !collectable(config, access, age, has_exemption, exemption),
{
}

/// An exemption never brings a contract closer to collection, and neither does use.
pub proof fn exemption_and_use_protect(
    config: GcConfig,
    access: Duration,
    used: Duration,
    age: Duration,
    has_exemption: bool,
    exemption: Option<Duration>,
)
    requires
        used.nanos <= access.nanos,
    ensures
        collectable(config, access, age, has_exemption, exemption) ==> collectable(
            config,
            access,
            age,
            false,
            exemption,
        ),
        collectable(config, used, age, has_exemption, exemption) ==> collectable(
            config,
            access,
            age,
            has_exemption,
            exemption,
        ),
{
}

/// By default a contract that is used at least once a week stays for a month, and an
/// exempt one that is not used stays for a day of exemption.
pub proof fn default_spans(
    access: Duration,
    age: Duration,
    has_exemption: bool,
    exemption: Option<Duration>,
    config: GcConfig,
)
    requires
        config.contract_ttl_secs == DEFAULT_CONTRACT_TTL,
        config.max_contract_age_secs == DEFAULT_MAX_CONTRACT_AGE,
        config.exemption_ttl_secs == DEFAULT_EXEMPTION_TTL,
        config.enabled,
    ensures
        access.nanos < 7 * 24 * 3_600_000_000_000 && age.nanos < 30 * 24 * 3_600_000_000_000
            ==> !collectable(config, access, age, has_exemption, exemption),
        age.nanos >= 30 * 24 * 3_600_000_000_000 ==> collectable(
            config,
            access,
            age,
            has_exemption,
            exemption,
        ),
        access.nanos >= 7 * 24 * 3_600_000_000_000 && !has_exemption ==> collectable(
            config,
            access,
            age,
            has_exemption,
            exemption,
        ),
        access.nanos >= 7 * 24 * 3_600_000_000_000 && age.nanos < 30 * 24 * 3_600_000_000_000
            && has_exemption && exemption is Some ==> collectable(
            config,
            access,
            age,
            has_exemption,
            exemption,
        ) == (exemption->0.nanos >= 24 * 3_600_000_000_000),
        DEFAULT_STORAGE_QUOTA_BYTES == 500 * 1024 * 1024,
        DEFAULT_GC_INTERVAL == 5 * 60,
{
}

/// A node is over its quota exactly where it uses more than all of it: a full quota is
/// not over, one byte more is. Where nothing is allowed, any byte is too much.
pub proof fn quota_is_a_limit(config: GcConfig, bytes: u64, more: u64)
    requires
        bytes <= more,
    ensures
        usage(config, bytes) is None <==> config.storage_quota_bytes == 0,
        usage(config, bytes) is Some ==> usage(config, bytes)->0.is(
            bytes as int,
            config.storage_quota_bytes as int,
        ),
        usage(config, bytes) is Some ==> (over_quota(config, bytes) <==> usage(config, bytes)->0.numer
            > usage(config, bytes)->0.denom),
        usage(config, bytes) is None ==> (over_quota(config, bytes) <==> bytes > 0),
        !over_quota(config, config.storage_quota_bytes),
        bytes == config.storage_quota_bytes + 1 ==> over_quota(config, bytes),
        over_quota(config, bytes) ==> over_quota(config, more),
        !over_quota(config, 0),
{
}

} // verus!

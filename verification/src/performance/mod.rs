//! Performance: batched operations, pooled memory, cryptography on batches, and
//! which of these a node uses.
pub mod batching;
pub mod buffers;
pub mod io_uring;
pub mod memory;
pub mod simd;

use crate::performance::batching::{BatchManager, BatchStats};
use crate::performance::io_uring::{IoUringManager, IoUringStats};
use crate::performance::memory::{MemoryManager, MemoryStats};
use crate::performance::simd::{SimdCrypto, SimdStats};
use vstd::prelude::*;

verus! {

/// Which optimizations are used.
#[derive(Clone, Copy, Debug, PartialEq, Eq, Structural)]
pub struct PerformanceConfig {
    pub enable_io_uring: bool,
    pub enable_simd_crypto: bool,
    pub enable_zero_copy: bool,
    pub enable_batching: bool,
    pub io_uring_queue_depth: u32,
    pub network_batch_size: usize,
    /// Bytes of the memory pools.
    pub memory_pool_size: usize,
}

impl PerformanceConfig {
    /// Everything; the ring on Linux only.
    pub open spec fn standard(linux: bool) -> Self {
        PerformanceConfig {
            enable_io_uring: linux,
            enable_simd_crypto: true,
            enable_zero_copy: true,
            enable_batching: true,
            io_uring_queue_depth: 256,
            network_batch_size: 32,
            memory_pool_size: 16_777_216,
        }
    }

    /// What a node uses on Linux or elsewhere.
    pub fn for_platform(linux: bool) -> (c: Self)
        ensures
            c == Self::standard(linux),
    {
        PerformanceConfig {
            enable_io_uring: linux,
            enable_simd_crypto: true,
            enable_zero_copy: true,
            enable_batching: true,
            io_uring_queue_depth: 256,
            network_batch_size: 32,
            memory_pool_size: 16_777_216,
        }
    }
}

impl Default for PerformanceConfig {
    /// What a node uses on Linux.
    fn default() -> (c: Self)
        ensures
            c == Self::standard(true),
    {
        Self::for_platform(true)
    }
}

/// What the machine offers.
#[derive(Clone, Copy, Debug, PartialEq, Eq, Structural)]
pub struct Platform {
    /// Whether the system is Linux.
    pub linux: bool,
    /// Whether the processor has AES instructions.
    pub aes: bool,
    /// Whether the processor has SHA instructions.
    pub sha: bool,
}

/// The optimizations of a node.
pub struct PerformanceManager {
    pub config: PerformanceConfig,
    pub io_uring_manager: Option<IoUringManager>,
    pub simd_crypto: Option<SimdCrypto>,
    pub memory_manager: Option<MemoryManager>,
    pub batch_manager: Option<BatchManager>,
}

/// What the optimizations did.
#[derive(Clone, Copy, Debug)]
pub struct PerformanceStats {
    pub io_uring_stats: Option<IoUringStats>,
    pub simd_stats: Option<SimdStats>,
    pub memory_stats: Option<MemoryStats>,
    pub batch_stats: Option<BatchStats>,
}

impl Default for PerformanceStats {
    fn default() -> (s: Self)
        ensures
            s.io_uring_stats is None,
            s.simd_stats is None,
            s.memory_stats is None,
            s.batch_stats is None,
    {
        PerformanceStats {
            io_uring_stats: None,
            simd_stats: None,
            memory_stats: None,
            batch_stats: None,
        }
    }
}

impl PerformanceManager {
    /// There is what is enabled, and it is as configured; the ring on Linux only.
    pub open spec fn as_configured(&self, config: PerformanceConfig, platform: Platform) -> bool {
        &&& self.config == config
        &&& self.io_uring_manager is Some <==> config.enable_io_uring && platform.linux
        &&& self.io_uring_manager is Some ==> self.io_uring_manager->0.queue_depth
            == config.io_uring_queue_depth
        &&& self.simd_crypto is Some <==> config.enable_simd_crypto
        &&& self.memory_manager is Some <==> config.enable_zero_copy
        &&& self.memory_manager is Some ==> self.memory_manager->0.wf()
            && self.memory_manager->0.config.pool_size == config.memory_pool_size
        &&& self.batch_manager is Some <==> config.enable_batching
        &&& self.batch_manager is Some ==> self.batch_manager->0.wf()
            && self.batch_manager->0.config.max_batch_size == config.network_batch_size
    }

    /// The optimizations that are enabled.
    pub fn new(config: PerformanceConfig, platform: Platform) -> (m: Self)
        requires
            config.enable_batching ==> config.network_batch_size * 110 <= usize::MAX,
        ensures
            m.as_configured(config, platform),
            m.simd_crypto is Some ==> m.simd_crypto->0.aes_accelerated == platform.aes
                && m.simd_crypto->0.hash_accelerated == platform.sha,
            m.io_uring_manager is Some ==> m.io_uring_manager->0.stats == IoUringStats::none(),
            m.simd_crypto is Some ==> m.simd_crypto->0.stats == SimdStats::none(),
            m.memory_manager is Some ==> m.memory_manager->0.stats == MemoryStats::none(),
            m.batch_manager is Some ==> m.batch_manager->0.stats == BatchStats::none(),
    {
        let mut manager = PerformanceManager {
            config,
            io_uring_manager: None,
            simd_crypto: None,
            memory_manager: None,
            batch_manager: None,
        };
        manager.initialize(platform);
        manager
    }

    fn initialize(&mut self, platform: Platform)
        requires
            old(self).config.enable_batching ==> old(self).config.network_batch_size * 110
                <= usize::MAX,
            old(self).io_uring_manager is None,
            old(self).simd_crypto is None,
            old(self).memory_manager is None,
            old(self).batch_manager is None,
        ensures
            final(self).as_configured(old(self).config, platform),
            final(self).simd_crypto is Some ==> final(self).simd_crypto->0.aes_accelerated
                == platform.aes && final(self).simd_crypto->0.hash_accelerated == platform.sha,
            final(self).io_uring_manager is Some ==> final(self).io_uring_manager->0.stats
                == IoUringStats::none(),
            final(self).simd_crypto is Some ==> final(self).simd_crypto->0.stats
                == SimdStats::none(),
            final(self).memory_manager is Some ==> final(self).memory_manager->0.stats
                == MemoryStats::none(),
            final(self).batch_manager is Some ==> final(self).batch_manager->0.stats
                == BatchStats::none(),
    {
        if self.config.enable_io_uring && platform.linux {
            self.io_uring_manager = Some(IoUringManager::new(self.config.io_uring_queue_depth));
        }
        if self.config.enable_simd_crypto {
            self.simd_crypto = Some(SimdCrypto::new(platform.aes, platform.sha));
        }
        if self.config.enable_zero_copy {
            self.memory_manager = Some(MemoryManager::new(self.config.memory_pool_size));
        }
        if self.config.enable_batching {
            self.batch_manager = Some(BatchManager::new(self.config.network_batch_size));
        }
    }

    /// The operations for the ring, if there is one.
    pub fn io_uring(&self) -> (r: Option<&IoUringManager>)
        ensures
            r is Some <==> self.io_uring_manager is Some,
            r is Some ==> *r->0 == self.io_uring_manager->0,
    {
        match &self.io_uring_manager {
            Some(m) => Some(m),
            None => None,
        }
    }

    /// Cryptography on batches, if enabled.
    pub fn simd_crypto(&self) -> (r: Option<&SimdCrypto>)
        ensures
            r is Some <==> self.simd_crypto is Some,
            r is Some ==> *r->0 == self.simd_crypto->0,
    {
        match &self.simd_crypto {
            Some(m) => Some(m),
            None => None,
        }
    }

    /// The memory pools, if enabled.
    pub fn memory_manager(&self) -> (r: Option<&MemoryManager>)
        ensures
            r is Some <==> self.memory_manager is Some,
            r is Some ==> *r->0 == self.memory_manager->0,
    {
        match &self.memory_manager {
            Some(m) => Some(m),
            None => None,
        }
    }

    /// The queues, if enabled.
    pub fn batch_manager(&self) -> (r: Option<&BatchManager>)
        ensures
            r is Some <==> self.batch_manager is Some,
            r is Some ==> *r->0 == self.batch_manager->0,
    {
        match &self.batch_manager {
            Some(m) => Some(m),
            None => None,
        }
    }

    /// What was done so far.
    pub fn get_stats(&self) -> (s: PerformanceStats)
        ensures
            s.io_uring_stats == (match self.io_uring_manager {
                Some(m) => Some(m.stats),
                None => None,
            }),
            s.simd_stats == (match self.simd_crypto {
                Some(m) => Some(m.stats),
                None => None,
            }),
            s.memory_stats == (match self.memory_manager {
                Some(m) => Some(m.stats),
                None => None,
            }),
            s.batch_stats == (match self.batch_manager {
                Some(m) => Some(m.stats),
                None => None,
            }),
    {
        let mut stats = PerformanceStats::default();
        if let Some(m) = &self.io_uring_manager {
            stats.io_uring_stats = Some(m.get_stats());
        }
        if let Some(m) = &self.simd_crypto {
            stats.simd_stats = Some(m.get_stats());
        }
        if let Some(m) = &self.memory_manager {
            stats.memory_stats = Some(m.get_stats());
        }
        if let Some(m) = &self.batch_manager {
            stats.batch_stats = Some(m.get_stats());
        }
        stats
    }
}

/// A component with optimizations.
pub struct PerformanceEnhanced<T> {
    pub base: T,
    pub perf_manager: PerformanceManager,
    pub enabled: bool,
}

impl<T> PerformanceEnhanced<T> {
    /// A component that uses optimizations.
    pub fn new(base: T, perf_manager: PerformanceManager) -> (e: Self)
        ensures
            e.base == base,
            e.perf_manager == perf_manager,
            e.enabled,
    {
        PerformanceEnhanced { base, perf_manager, enabled: true }
    }

    /// A component without optimizations.
    pub fn fallback_only(base: T) -> (e: Self)
        ensures
            e.base == base,
            !e.enabled,
            e.perf_manager.io_uring_manager is None,
            e.perf_manager.simd_crypto is None,
            e.perf_manager.memory_manager is None,
            e.perf_manager.batch_manager is None,
            e.perf_manager.config == (PerformanceConfig {
                enable_io_uring: false,
                enable_simd_crypto: false,
                enable_zero_copy: false,
                enable_batching: false,
                ..PerformanceConfig::standard(true)
            }),
    {
        let standard = PerformanceConfig::default();
        let config = PerformanceConfig {
            enable_io_uring: false,
            enable_simd_crypto: false,
            enable_zero_copy: false,
            enable_batching: false,
            io_uring_queue_depth: standard.io_uring_queue_depth,
            network_batch_size: standard.network_batch_size,
            memory_pool_size: standard.memory_pool_size,
        };
        let perf_manager = PerformanceManager::new(
            config,
            Platform { linux: false, aes: false, sha: false },
        );
        PerformanceEnhanced { base, perf_manager, enabled: false }
    }

    /// Whether optimizations are used.
    pub fn has_optimizations(&self) -> (b: bool)
        ensures
            b == self.enabled,
    {
        self.enabled
    }
}

/// A node has a ring on Linux only, and each optimization only where it was asked
/// for: switching one off takes away that one and no other.
pub proof fn optimizations_are_those_asked_for(
    m: PerformanceManager,
    config: PerformanceConfig,
    platform: Platform,
)
    requires
        m.as_configured(config, platform),
    ensures
        !platform.linux ==> m.io_uring_manager is None,
        !config.enable_io_uring ==> m.io_uring_manager is None,
        config.enable_io_uring && platform.linux ==> m.io_uring_manager is Some
            && m.io_uring_manager->0.queue_depth == config.io_uring_queue_depth,
        config.enable_simd_crypto == m.simd_crypto is Some,
        config.enable_zero_copy == m.memory_manager is Some,
        config.enable_batching == m.batch_manager is Some,
        config.enable_zero_copy ==> m.memory_manager->0.config.pool_size
            == config.memory_pool_size,
        config.enable_batching ==> m.batch_manager->0.config.max_batch_size
            == config.network_batch_size,
{
}

/// As it comes, everything is used that the system has: the ring on Linux, and the
/// rest everywhere, alike.
pub proof fn platforms_differ_in_the_ring(m: PerformanceManager, linux: bool, platform: Platform)
    requires
        m.as_configured(PerformanceConfig::standard(linux), platform),
        platform.linux == linux,
    ensures
        m.io_uring_manager is Some == linux,
        m.simd_crypto is Some,
        m.memory_manager is Some,
        m.batch_manager is Some,
        linux ==> m.io_uring_manager->0.queue_depth == 256,
        m.memory_manager->0.config.pool_size == 16 * 1024 * 1024,
        m.batch_manager->0.config.max_batch_size == 32,
{
}

} // verus!

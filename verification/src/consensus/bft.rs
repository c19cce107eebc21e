//! Byzantine fault tolerant ordering of operations.
//!
//! An operation is put to the network where enough nodes belong to it, and is
//! executed directly otherwise, if falling back is configured. Waiting and the
//! clock are the caller's.
use crate::linear_map::{lemma_entries_contains, lemma_entries_len, KeyEq, LinearMap};
use crate::ml::MLConfig;
use crate::ratio::Ratio;
use crate::text::{decimal, push_decimal};
use std::collections::VecDeque;
use vstd::prelude::*;
use vstd::utf8::encode_utf8;

verus! {

/// Milliseconds that consensus takes on one node.
pub const BASE_DELAY_MS: u64 = 100;

/// Milliseconds that each further node adds.
pub const DELAY_PER_NODE_MS: u64 = 50;

/// The name of a node.
#[derive(Debug, PartialEq, Eq, Hash)]
pub struct BFTNodeId {
    pub name: String,
}

impl View for BFTNodeId {
    type V = Seq<char>;

    open spec fn view(&self) -> Seq<char> {
        self.name@
    }
}

impl KeyEq for BFTNodeId {
    fn key_eq(&self, other: &Self) -> (same: bool) {
        self.name == other.name
    }
}

impl BFTNodeId {
    /// The node of a name.
    pub fn new(name: String) -> (n: Self)
        ensures
            n.name == name,
            n@ == name@,
    {
        BFTNodeId { name }
    }

    /// The name.
    pub fn as_str(&self) -> (s: &str)
        ensures
            s@ == self@,
    {
        self.name.as_str()
    }

    /// The name as text.
    pub fn display(&self) -> (s: String)
        ensures
            s@ == self@,
    {
        self.name.clone()
    }

    /// The same name once more.
    pub fn duplicate(&self) -> (n: Self)
        ensures
            n == *self,
    {
        BFTNodeId { name: self.name.clone() }
    }
}

impl From<String> for BFTNodeId {
    fn from(name: String) -> (n: Self) {
        BFTNodeId { name }
    }
}

impl vstd::std_specs::convert::FromSpecImpl<String> for BFTNodeId {
    open spec fn obeys_from_spec() -> bool {
        true
    }

    open spec fn from_spec(name: String) -> Self {
        BFTNodeId { name }
    }
}

impl From<&str> for BFTNodeId {
    fn from(name: &str) -> (n: Self)
        ensures
            n@ == name@,
    {
        BFTNodeId { name: name.to_owned() }
    }
}

impl vstd::std_specs::convert::FromSpecImpl<&str> for BFTNodeId {
    open spec fn obeys_from_spec() -> bool {
        false
    }

    open spec fn from_spec(name: &str) -> Self {
        arbitrary()
    }
}

/// How consensus is configured.
#[derive(Debug)]
pub struct BFTConfig {
    pub enabled: bool,
    /// Whether operations are executed directly where consensus fails.
    pub fallback_on_error: bool,
    pub node_id: BFTNodeId,
    /// How many nodes may be faulty.
    pub max_byzantine_nodes: usize,
    pub consensus_timeout_ms: u64,
    pub batch_size: usize,
    pub dynamic_membership: bool,
    /// How many nodes there have to be.
    pub min_network_size: usize,
}

impl BFTConfig {
    /// Fewer than a third of the nodes that there have to be may be faulty.
    pub open spec fn tolerant(&self) -> bool {
        3 * self.max_byzantine_nodes < self.min_network_size
    }
}

impl Default for BFTConfig {
    fn default() -> (c: Self)
        ensures
            !c.enabled,
            c.fallback_on_error,
            c.node_id@ == "default_node"@,
            c.max_byzantine_nodes == 1,
            c.consensus_timeout_ms == 30000,
            c.batch_size == 10,
            !c.dynamic_membership,
            c.min_network_size == 4,
            c.tolerant(),
    {
        BFTConfig {
            enabled: false,
            fallback_on_error: true,
            node_id: BFTNodeId::new("default_node".to_owned()),
            max_byzantine_nodes: 1,
            consensus_timeout_ms: 30000,
            batch_size: 10,
            dynamic_membership: false,
            min_network_size: 4,
        }
    }
}

/// What an operation does.
#[derive(Debug)]
pub enum BFTOperationType {
    ContractUpdate,
    MembershipChange,
    ConfigurationChange,
    Custom(String),
}

/// How urgent an operation is; later ones are more urgent.
#[derive(Clone, Copy, Debug, PartialEq, Eq, PartialOrd, Ord, Structural)]
pub enum BFTOperationPriority {
    Low,
    Normal,
    High,
    Critical,
}

impl BFTOperationPriority {
    /// The urgency as a number.
    pub open spec fn level_spec(self) -> nat {
        match self {
            BFTOperationPriority::Low => 0,
            BFTOperationPriority::Normal => 1,
            BFTOperationPriority::High => 2,
            BFTOperationPriority::Critical => 3,
        }
    }

    /// The urgency as a number.
    pub fn level(self) -> (n: u8)
        ensures
            n == self.level_spec(),
    {
        match self {
            BFTOperationPriority::Low => 0,
            BFTOperationPriority::Normal => 1,
            BFTOperationPriority::High => 2,
            BFTOperationPriority::Critical => 3,
        }
    }
}

/// An operation to be ordered.
#[derive(Debug)]
pub struct BFTOperation {
    pub id: String,
    pub op_type: BFTOperationType,
    pub payload: Vec<u8>,
    pub submitter: BFTNodeId,
    pub priority: BFTOperationPriority,
    pub timestamp: u64,
}

/// What became of an operation.
#[derive(Debug)]
pub struct BFTConsensusResult {
    pub operation_id: String,
    pub consensus_reached: bool,
    pub execution_result: Vec<u8>,
    pub participating_nodes: Vec<BFTNodeId>,
    pub consensus_time_ms: u64,
    pub used_fallback: bool,
}

/// Why an operation was not ordered.
#[derive(Clone, Copy, Debug, PartialEq, Eq, Structural)]
pub enum BFTError {
    /// Too few nodes belong to the network.
    InsufficientNetwork { size: usize, required: usize },
    /// Consensus failed.
    ConsensusFailed,
}

impl BFTError {
    /// What the error says.
    pub open spec fn text(self) -> Seq<char> {
        match self {
            BFTError::InsufficientNetwork { size, required } =>
                "Insufficient network size for BFT consensus: "@ + decimal(size as nat) + " < "@
                    + decimal(required as nat),
            BFTError::ConsensusFailed => "BFT consensus failed"@,
        }
    }

    /// What the error says.
    pub fn message(&self) -> (s: String)
        ensures
            s@ == self.text(),
    {
        match *self {
            BFTError::InsufficientNetwork { size, required } => {
                let mut s = "Insufficient network size for BFT consensus: ".to_owned();
                push_decimal(&mut s, size as u64);
                s.append(" < ");
                push_decimal(&mut s, required as u64);
                s
            },
            BFTError::ConsensusFailed => "BFT consensus failed".to_owned(),
        }
    }
}

/// What was done.
#[derive(Clone, Copy, Debug, PartialEq, Eq, Structural)]
pub struct BFTStats {
    pub total_operations: u64,
    pub successful_operations: u64,
    pub failed_operations: u64,
    pub fallback_operations: u64,
    pub total_consensus_time_ms: u64,
    /// How many nodes belong to the network.
    pub current_network_size: usize,
    /// The most nodes that ever belonged to it.
    pub max_network_size: usize,
    pub byzantine_faults_detected: u64,
}

impl Default for BFTStats {
    fn default() -> (s: Self)
        ensures
            s == BFTStats::none(),
    {
        BFTStats {
            total_operations: 0,
            successful_operations: 0,
            failed_operations: 0,
            fallback_operations: 0,
            total_consensus_time_ms: 0,
            current_network_size: 0,
            max_network_size: 0,
            byzantine_faults_detected: 0,
        }
    }
}

impl BFTStats {
    /// Nothing was done.
    pub open spec fn none() -> BFTStats {
        BFTStats {
            total_operations: 0,
            successful_operations: 0,
            failed_operations: 0,
            fallback_operations: 0,
            total_consensus_time_ms: 0,
            current_network_size: 0,
            max_network_size: 0,
            byzantine_faults_detected: 0,
        }
    }

    /// Each operation succeeded, failed or fell back.
    pub open spec fn adds_up(self) -> bool {
        self.total_operations == self.successful_operations + self.failed_operations
            + self.fallback_operations
    }

    /// There is room for one operation more that takes so long.
    pub open spec fn has_room(self, millis: int) -> bool {
        self.total_operations < u64::MAX && self.total_consensus_time_ms + millis <= u64::MAX
    }

    /// One success more, that took so long.
    pub open spec fn with_success(self, millis: int) -> BFTStats {
        BFTStats {
            total_operations: (self.total_operations + 1) as u64,
            successful_operations: (self.successful_operations + 1) as u64,
            total_consensus_time_ms: (self.total_consensus_time_ms + millis) as u64,
            ..self
        }
    }

    /// One failure more.
    pub open spec fn with_failure(self) -> BFTStats {
        BFTStats {
            total_operations: (self.total_operations + 1) as u64,
            failed_operations: (self.failed_operations + 1) as u64,
            ..self
        }
    }

    /// One fallback more.
    pub open spec fn with_fallback(self) -> BFTStats {
        BFTStats {
            total_operations: (self.total_operations + 1) as u64,
            fallback_operations: (self.fallback_operations + 1) as u64,
            ..self
        }
    }

    /// The network has so many nodes now.
    pub open spec fn with_size(self, size: nat) -> BFTStats {
        BFTStats {
            current_network_size: size as usize,
            max_network_size: if size > self.max_network_size {
                size as usize
            } else {
                self.max_network_size
            },
            ..self
        }
    }

    /// Records how many nodes the network has.
    fn record_size(&mut self, size: usize)
        ensures
            *final(self) == old(self).with_size(size as nat),
    {
        self.current_network_size = size;
        if size > self.max_network_size {
            self.max_network_size = size;
        }
    }

    /// Successes per operation.
    pub open spec fn success_rate_spec(self) -> Ratio {
        Ratio::of_spec(self.successful_operations as int, self.total_operations as int)
    }

    /// Successes per operation.
    pub fn success_rate(&self) -> (r: Ratio)
        ensures
            r == self.success_rate_spec(),
            r == Ratio::of_spec(self.successful_operations as int, self.total_operations as int),
    {
        Ratio::of(self.successful_operations as u128, self.total_operations as u128)
    }

    /// Fallbacks per operation.
    pub open spec fn fallback_rate_spec(self) -> Ratio {
        Ratio::of_spec(self.fallback_operations as int, self.total_operations as int)
    }

    /// Fallbacks per operation.
    pub fn fallback_rate(&self) -> (r: Ratio)
        ensures
            r == self.fallback_rate_spec(),
            r == Ratio::of_spec(self.fallback_operations as int, self.total_operations as int),
    {
        Ratio::of(self.fallback_operations as u128, self.total_operations as u128)
    }

    /// Milliseconds per success.
    pub open spec fn average_consensus_time_ms_spec(self) -> Ratio {
        Ratio::of_spec(self.total_consensus_time_ms as int, self.successful_operations as int)
    }

    /// Milliseconds per success.
    pub fn average_consensus_time_ms(&self) -> (r: Ratio)
        ensures
            r == self.average_consensus_time_ms_spec(),
            r == Ratio::of_spec(
                self.total_consensus_time_ms as int,
                self.successful_operations as int,
            ),
    {
        Ratio::of(self.total_consensus_time_ms as u128, self.successful_operations as u128)
    }

    /// Faults per operation.
    pub open spec fn byzantine_fault_rate_spec(self) -> Ratio {
        Ratio::of_spec(self.byzantine_faults_detected as int, self.total_operations as int)
    }

    /// Faults per operation.
    pub fn byzantine_fault_rate(&self) -> (r: Ratio)
        ensures
            r == self.byzantine_fault_rate_spec(),
            r == Ratio::of_spec(
                self.byzantine_faults_detected as int,
                self.total_operations as int,
            ),
    {
        Ratio::of(self.byzantine_faults_detected as u128, self.total_operations as u128)
    }
}

/// Shares of operations that add up are shares: none exceeds the whole.
pub proof fn rates_are_shares(s: BFTStats)
    requires
        s.adds_up(),
    ensures
        s.successful_operations <= s.total_operations,
        s.fallback_operations <= s.total_operations,
        s.failed_operations <= s.total_operations,
{
}

/// What is to be done with an operation that was submitted.
#[derive(Clone, Copy, Debug, PartialEq, Eq, Structural)]
pub enum BFTStep {
    /// Execute it directly, then finish the fallback.
    Fallback,
    /// Wait so long for consensus, then finish it.
    RunConsensus { delay_ms: u64 },
}

/// The names of some nodes.
pub open spec fn names_of(nodes: Seq<BFTNodeId>) -> Set<Seq<char>> {
    nodes.map_values(|n: BFTNodeId| n@).to_set()
}

/// Consensus of a node.
#[derive(Debug)]
pub struct BFTEnhancer {
    pub config: BFTConfig,
    pub pending_operations: VecDeque<BFTOperation>,
    pub membership: LinearMap<BFTNodeId, ()>,
    pub stats: BFTStats,
}

impl BFTEnhancer {
    /// No node belongs to the network twice, the counts add up, and the sizes are
    /// that of the network and one that it had.
    pub open spec fn wf(&self) -> bool {
        &&& self.membership.wf()
        &&& self.stats.adds_up()
        &&& self.stats.current_network_size == self.members().len()
        &&& self.stats.current_network_size <= self.stats.max_network_size
    }

    /// The nodes of the network.
    pub open spec fn members(&self) -> Set<Seq<char>> {
        self.membership@.dom()
    }

    /// Milliseconds that consensus takes: more with each node beyond the first.
    pub open spec fn delay_spec(&self) -> int {
        if self.members().len() == 0 {
            BASE_DELAY_MS as int
        } else {
            BASE_DELAY_MS + (self.members().len() - 1) * DELAY_PER_NODE_MS
        }
    }

    /// The node is the only member, and nothing was submitted.
    pub open spec fn fresh(&self, config: BFTConfig) -> bool {
        &&& self.config == config
        &&& self.members() == set![config.node_id@]
        &&& self.pending_operations@.len() == 0
        &&& self.stats == BFTStats::none().with_size(1)
    }

    /// A network of this node alone.
    pub fn new(config: BFTConfig) -> (e: Self)
        ensures
            e.wf(),
            e.fresh(config),
    {
        let mut membership: LinearMap<BFTNodeId, ()> = LinearMap::new();
        membership.insert(config.node_id.duplicate(), ());
        assert(membership@.dom() =~= set![config.node_id@]);
        let mut stats = BFTStats::default();
        stats.record_size(membership.len());
        BFTEnhancer { config, pending_operations: VecDeque::new(), membership, stats }
    }

    /// What becomes of an operation that is taken.
    pub open spec fn next_step(&self) -> Result<BFTStep, BFTError> {
        if self.members().len() >= self.config.min_network_size {
            Ok(BFTStep::RunConsensus { delay_ms: self.delay_spec() as u64 })
        } else if self.config.fallback_on_error {
            Ok(BFTStep::Fallback)
        } else {
            Err(
                BFTError::InsufficientNetwork {
                    size: self.members().len() as usize,
                    required: self.config.min_network_size,
                },
            )
        }
    }

    /// Takes an operation: it is queued, and goes to consensus where the network
    /// is large enough. Where it is not, the operation falls back or is refused.
    pub fn submit_operation(&mut self, operation: BFTOperation) -> (r: Result<BFTStep, BFTError>)
        requires
            old(self).wf(),
            old(self).delay_spec() <= u64::MAX,
        ensures
            final(self).wf(),
            final(self).config == old(self).config,
            final(self).membership == old(self).membership,
            final(self).stats == old(self).stats,
            final(self).pending_operations@ == old(self).pending_operations@.push(operation),
            r == old(self).next_step(),
            r == (if old(self).members().len() >= old(self).config.min_network_size {
                Ok(BFTStep::RunConsensus { delay_ms: old(self).delay_spec() as u64 })
            } else if old(self).config.fallback_on_error {
                Ok(BFTStep::Fallback)
            } else {
                Err(
                    BFTError::InsufficientNetwork {
                        size: old(self).members().len() as usize,
                        required: old(self).config.min_network_size,
                    },
                )
            }),
    {
        self.pending_operations.push_back(operation);
        let network_size: usize = self.membership.len();
        if network_size < self.config.min_network_size {
            if self.config.fallback_on_error {
                return Ok(BFTStep::Fallback);
            }
            return Err(
                BFTError::InsufficientNetwork {
                    size: network_size,
                    required: self.config.min_network_size,
                },
            );
        }
        Ok(BFTStep::RunConsensus { delay_ms: self.simulate_consensus_delay() })
    }

    /// Milliseconds that consensus takes.
    pub fn simulate_consensus_delay(&self) -> (ms: u64)
        requires
            self.membership.wf(),
            self.delay_spec() <= u64::MAX,
        ensures
            ms == self.delay_spec(),
    {
        let network_size: usize = self.membership.len();
        if network_size == 0 {
            return BASE_DELAY_MS;
        }
        BASE_DELAY_MS + (network_size as u64 - 1) * DELAY_PER_NODE_MS
    }

    /// The result of consensus that ran from `started_ms` to `ended_ms` on an
    /// operation submitted at `submitted_ms`, and counted at `counted_ms`.
    pub fn finish_consensus(
        &mut self,
        operation_id: String,
        submitted_ms: u64,
        started_ms: u64,
        ended_ms: u64,
        counted_ms: u64,
    ) -> (r: BFTConsensusResult)
        requires
            old(self).wf(),
            submitted_ms <= counted_ms,
            started_ms <= ended_ms,
            old(self).stats.has_room(counted_ms - submitted_ms),
        ensures
            final(self).wf(),
            final(self).config == old(self).config,
            final(self).membership == old(self).membership,
            final(self).pending_operations == old(self).pending_operations,
            final(self).stats == old(self).stats.with_success(counted_ms - submitted_ms),
            r.operation_id == operation_id,
            r.consensus_reached,
            r.execution_result@ == encode_utf8("bft_consensus_result"@),
            names_of(r.participating_nodes@) == old(self).members(),
            r.participating_nodes@.len() == old(self).members().len(),
            r.consensus_time_ms == ended_ms - started_ms,
            !r.used_fallback,
    {
        let participating_nodes = self.network_membership();
        self.stats.total_operations = self.stats.total_operations + 1;
        self.stats.successful_operations = self.stats.successful_operations + 1;
        self.stats.total_consensus_time_ms =
        self.stats.total_consensus_time_ms + (counted_ms - submitted_ms);
        BFTConsensusResult {
            operation_id,
            consensus_reached: true,
            execution_result: "bft_consensus_result".as_bytes_vec(),
            participating_nodes,
            consensus_time_ms: ended_ms - started_ms,
            used_fallback: false,
        }
    }

    /// What is to be done once consensus has failed: fall back, or report the
    /// failure, which is counted.
    pub fn consensus_failed(&mut self) -> (r: Result<BFTStep, BFTError>)
        requires
            old(self).wf(),
            old(self).stats.has_room(0),
        ensures
            final(self).wf(),
            final(self).config == old(self).config,
            final(self).membership == old(self).membership,
            final(self).pending_operations == old(self).pending_operations,
            old(self).config.fallback_on_error ==> r == Ok::<BFTStep, BFTError>(BFTStep::Fallback)
                && final(self).stats == old(self).stats,
            !old(self).config.fallback_on_error ==> r == Err::<BFTStep, BFTError>(
                BFTError::ConsensusFailed,
            ) && final(self).stats == old(self).stats.with_failure(),
    {
        if self.config.fallback_on_error {
            Ok(BFTStep::Fallback)
        } else {
            self.stats.total_operations = self.stats.total_operations + 1;
            self.stats.failed_operations = self.stats.failed_operations + 1;
            Err(BFTError::ConsensusFailed)
        }
    }

    /// The result of an operation that was executed directly, which took from
    /// `submitted_ms` to `ended_ms`.
    pub fn finish_fallback(&mut self, operation_id: String, submitted_ms: u64, ended_ms: u64) -> (r:
        BFTConsensusResult)
        requires
            old(self).wf(),
            submitted_ms <= ended_ms,
            old(self).stats.has_room(0),
        ensures
            final(self).wf(),
            final(self).config == old(self).config,
            final(self).membership == old(self).membership,
            final(self).pending_operations == old(self).pending_operations,
            final(self).stats == old(self).stats.with_fallback(),
            r.operation_id == operation_id,
            !r.consensus_reached,
            r.execution_result@ == encode_utf8("fallback_result"@),
            r.participating_nodes@.len() == 1,
            r.participating_nodes@[0]@ == old(self).config.node_id@,
            r.consensus_time_ms == ended_ms - submitted_ms,
            r.used_fallback,
    {
        self.stats.total_operations = self.stats.total_operations + 1;
        self.stats.fallback_operations = self.stats.fallback_operations + 1;
        let mut participating_nodes: Vec<BFTNodeId> = Vec::new();
        participating_nodes.push(self.config.node_id.duplicate());
        BFTConsensusResult {
            operation_id,
            consensus_reached: false,
            execution_result: "fallback_result".as_bytes_vec(),
            participating_nodes,
            consensus_time_ms: ended_ms - submitted_ms,
            used_fallback: true,
        }
    }

    /// A node joins the network.
    pub fn add_node(&mut self, node_id: BFTNodeId)
        requires
            old(self).wf(),
        ensures
            final(self).wf(),
            final(self).members() == old(self).members().insert(node_id@),
            final(self).config == old(self).config,
            final(self).pending_operations == old(self).pending_operations,
            final(self).stats == old(self).stats.with_size(final(self).members().len()),
    {
        self.membership.insert(node_id, ());
        assert(self.members() =~= old(self).members().insert(node_id@));
        self.stats.record_size(self.membership.len());
    }

    /// A node leaves the network.
    pub fn remove_node(&mut self, node_id: &BFTNodeId)
        requires
            old(self).wf(),
        ensures
            final(self).wf(),
            final(self).members() == old(self).members().remove(node_id@),
            final(self).config == old(self).config,
            final(self).pending_operations == old(self).pending_operations,
            final(self).stats == old(self).stats.with_size(final(self).members().len()),
    {
        self.membership.remove(node_id);
        assert(self.members() =~= old(self).members().remove(node_id@));
        self.stats.record_size(self.membership.len());
    }

    /// The nodes of the network, each once.
    pub fn network_membership(&self) -> (nodes: Vec<BFTNodeId>)
        requires
            self.wf(),
        ensures
            names_of(nodes@) == self.members(),
            nodes@.len() == self.members().len(),
    {
        let mut nodes: Vec<BFTNodeId> = Vec::new();
        let mut i: usize = 0;
        while i < self.membership.entries.len()
            invariant
                i <= self.membership.entries@.len(),
                nodes@.len() == i,
                forall|j: int|
                    0 <= j < i ==> (#[trigger] nodes@[j])@ == self.membership.entries@[j].0@,
            decreases self.membership.entries@.len() - i,
        {
            nodes.push(self.membership.entries[i].0.duplicate());
            i += 1;
        }
        proof {
            let s = self.membership.entries@;
            lemma_entries_len(s);
            let names = nodes@.map_values(|n: BFTNodeId| n@);
            assert forall|k: Seq<char>| names.to_set().contains(k) <==> self.members().contains(
                k,
            ) by {
                lemma_entries_contains(s, k);
                if names.contains(k) {
                    let j = choose|j: int| 0 <= j < names.len() && names[j] == k;
                    assert(s[j].0@ == k);
                }
                if self.members().contains(k) {
                    let j = choose|j: int| 0 <= j < s.len() && #[trigger] s[j].0@ == k;
                    assert(nodes@[j]@ == k);
                    assert(names[j] == k);
                }
            }
            assert(names.to_set() =~= self.members());
        }
        nodes
    }

    /// What was done so far.
    pub fn stats(&self) -> (s: BFTStats)
        ensures
            s == self.stats,
    {
        self.stats
    }
}

/// A node that joins and leaves again leaves the others as they were.
pub proof fn join_then_leave(members: Set<Seq<char>>, node: Seq<char>)
    ensures
        members.insert(node).remove(node) == members.remove(node),
{
    assert(members.insert(node).remove(node) =~= members.remove(node));
}

/// A node whose operations can be ordered by consensus.
#[derive(Debug)]
pub struct BFTConsensus<B> {
    pub base: B,
    pub enhancement: Option<BFTEnhancer>,
    pub config: MLConfig,
}

/// What becomes of an operation that was submitted to a node.
#[derive(Debug)]
pub enum BFTSubmission {
    /// It was executed directly.
    Direct(BFTConsensusResult),
    /// The step is to be taken.
    Step(BFTStep),
}

impl<B> BFTConsensus<B> {
    pub open spec fn wf(&self) -> bool {
        self.enhancement is Some ==> self.enhancement->0.wf()
    }

    /// A node that is enhanced where the configuration enables it.
    pub fn new(base: B, config: BFTConfig) -> (b: Self)
        ensures
            b.wf(),
            b.base == base,
            b.enhancement is Some <==> config.enabled,
            b.enhancement is Some ==> b.enhancement->0.fresh(config),
            b.config.enabled == config.enabled,
            b.config.fallback_on_error == config.fallback_on_error,
            b.config.model_path is None,
            b.config.max_inference_latency_ms == 1000,
    {
        let ml_config = MLConfig {
            enabled: config.enabled,
            fallback_on_error: config.fallback_on_error,
            model_path: None,
            max_inference_latency_ms: 1000,
        };
        let enhancement = if config.enabled {
            Some(BFTEnhancer::new(config))
        } else {
            None
        };
        BFTConsensus { base, enhancement, config: ml_config }
    }

    /// Takes an operation: without enhancement it counts as executed directly.
    pub fn submit_for_consensus(&mut self, operation: BFTOperation) -> (r: Result<
        BFTSubmission,
        BFTError,
    >)
        requires
            old(self).wf(),
            old(self).enhancement is Some ==> old(self).enhancement->0.delay_spec() <= u64::MAX,
        ensures
            final(self).wf(),
            match old(self).enhancement {
                None => {
                    &&& *final(self) == *old(self)
                    &&& r matches Ok(BFTSubmission::Direct(d))
                    &&& d.operation_id@ == operation.id@
                    &&& d.consensus_reached
                    &&& d.execution_result@ == encode_utf8("direct_execution"@)
                    &&& d.participating_nodes@.len() == 0
                    &&& d.consensus_time_ms == 0
                    &&& d.used_fallback
                },
                Some(e) => {
                    &&& final(self).base == old(self).base
                    &&& final(self).config == old(self).config
                    &&& final(self).enhancement is Some
                    &&& final(self).enhancement->0.config == e.config
                    &&& final(self).enhancement->0.membership == e.membership
                    &&& final(self).enhancement->0.stats == e.stats
                    &&& final(self).enhancement->0.pending_operations@
                        == e.pending_operations@.push(operation)
                    &&& if e.members().len() >= e.config.min_network_size {
                        r == Ok::<BFTSubmission, BFTError>(
                            BFTSubmission::Step(
                                BFTStep::RunConsensus { delay_ms: e.delay_spec() as u64 },
                            ),
                        )
                    } else if e.config.fallback_on_error {
                        r == Ok::<BFTSubmission, BFTError>(BFTSubmission::Step(BFTStep::Fallback))
                    } else {
                        r == Err::<BFTSubmission, BFTError>(
                            BFTError::InsufficientNetwork {
                                size: e.members().len() as usize,
                                required: e.config.min_network_size,
                            },
                        )
                    }
                },
            },
    {
        match &mut self.enhancement {
            Some(e) => match e.submit_operation(operation) {
                Ok(step) => Ok(BFTSubmission::Step(step)),
                Err(x) => Err(x),
            },
            None => Ok(
                BFTSubmission::Direct(
                    BFTConsensusResult {
                        operation_id: operation.id,
                        consensus_reached: true,
                        execution_result: "direct_execution".as_bytes_vec(),
                        participating_nodes: Vec::new(),
                        consensus_time_ms: 0,
                        used_fallback: true,
                    },
                ),
            ),
        }
    }

    /// What was done so far.
    pub fn bft_stats(&self) -> (s: BFTStats)
        ensures
            s == (match self.enhancement {
                Some(e) => e.stats,
                None => BFTStats::none(),
            }),
    {
        match &self.enhancement {
            Some(e) => e.stats(),
            None => BFTStats::default(),
        }
    }

    /// The nodes of the network.
    pub fn network_membership(&self) -> (nodes: Vec<BFTNodeId>)
        requires
            self.wf(),
        ensures
            match self.enhancement {
                Some(e) => names_of(nodes@) == e.members() && nodes@.len() == e.members().len(),
                None => nodes@.len() == 0,
            },
    {
        match &self.enhancement {
            Some(e) => e.network_membership(),
            None => Vec::new(),
        }
    }
}

/// What is critical is more urgent than what is high, that than what is normal, and that
/// than what is low.
pub proof fn urgency_is_ordered(a: BFTOperationPriority, b: BFTOperationPriority)
    ensures
        a is Critical && !(b is Critical) ==> a.level_spec() > b.level_spec(),
        a is Low && !(b is Low) ==> a.level_spec() < b.level_spec(),
        a is High && b is Normal ==> a.level_spec() > b.level_spec(),
        a.level_spec() == b.level_spec() <==> a == b,
        a.level_spec() <= 3,
{
}

/// Each operation is counted once in all and once under what became of it, and under
/// nothing else; only a success takes time. The counts still add up.
pub proof fn operations_are_counted_once(s: BFTStats, millis: u64)
    requires
        s.adds_up(),
        s.has_room(millis as int),
    ensures
        ({
            let t = s.with_success(millis as int);
            &&& t.adds_up()
            &&& t.total_operations == s.total_operations + 1
            &&& t.successful_operations == s.successful_operations + 1
            &&& t.failed_operations == s.failed_operations
            &&& t.fallback_operations == s.fallback_operations
            &&& t.total_consensus_time_ms == s.total_consensus_time_ms + millis
            &&& t.current_network_size == s.current_network_size
            &&& t.max_network_size == s.max_network_size
        }),
        ({
            let t = s.with_failure();
            &&& t.adds_up()
            &&& t.total_operations == s.total_operations + 1
            &&& t.failed_operations == s.failed_operations + 1
            &&& t.successful_operations == s.successful_operations
            &&& t.fallback_operations == s.fallback_operations
            &&& t.total_consensus_time_ms == s.total_consensus_time_ms
        }),
        ({
            let t = s.with_fallback();
            &&& t.adds_up()
            &&& t.total_operations == s.total_operations + 1
            &&& t.fallback_operations == s.fallback_operations + 1
            &&& t.successful_operations == s.successful_operations
            &&& t.failed_operations == s.failed_operations
            &&& t.total_consensus_time_ms == s.total_consensus_time_ms
        }),
{
}

/// The largest size of the network is never forgotten, and is the size where that is
/// larger; nothing else changes with the size.
pub proof fn largest_size_is_kept(s: BFTStats, size: usize)
    ensures
        s.with_size(size as nat).current_network_size == size,
        s.with_size(size as nat).max_network_size >= s.max_network_size,
        s.with_size(size as nat).max_network_size >= size,
        s.with_size(size as nat).max_network_size == s.max_network_size || s.with_size(
            size as nat,
        ).max_network_size == size,
        s.with_size(size as nat).total_operations == s.total_operations,
        s.with_size(size as nat).successful_operations == s.successful_operations,
        s.with_size(size as nat).byzantine_faults_detected == s.byzantine_faults_detected,
{
}

/// Consensus takes a tenth of a second with one node, and a twentieth more with each
/// further one.
pub proof fn delay_grows_with_the_network(a: BFTEnhancer, b: BFTEnhancer)
    requires
        a.members().len() > 0,
        b.members().len() == a.members().len() + 1,
    ensures
        b.delay_spec() == a.delay_spec() + 50,
        a.members().len() == 1 ==> a.delay_spec() == 100,
{
}

/// A network that tolerates faults has more than three times as many nodes as may be
/// faulty: two thirds of them are not.
pub proof fn tolerant_networks_outvote_faults(c: BFTConfig)
    ensures
        c.tolerant() <==> 2 * c.max_byzantine_nodes < c.min_network_size - c.max_byzantine_nodes,
{
}

/// Consensus runs exactly where there are members enough. Where there are not, an
/// operation falls back where that is configured, and is refused otherwise, with both
/// sizes told.
pub proof fn consensus_needs_members(e: BFTEnhancer)
    requires
        e.wf(),
        e.members().len() <= usize::MAX,
        e.delay_spec() <= u64::MAX,
    ensures
        e.members().len() >= e.config.min_network_size <==> (e.next_step() is Ok
            && e.next_step()->Ok_0 is RunConsensus),
        e.members().len() < e.config.min_network_size ==> (e.next_step()
            == Ok::<BFTStep, BFTError>(BFTStep::Fallback) <==> e.config.fallback_on_error),
        e.next_step() is Err <==> e.members().len() < e.config.min_network_size
            && !e.config.fallback_on_error,
        e.next_step() matches Err(BFTError::InsufficientNetwork { size, required }) ==> size
            < required && size == e.members().len() && required == e.config.min_network_size,
        e.next_step() matches Ok(BFTStep::RunConsensus { delay_ms }) ==> delay_ms
            == e.delay_spec(),
{
}

/// Successes, fallbacks and faults are told per operation, and the time per success; where
/// none of these were counted, as zero.
pub proof fn rates_are_told_per_unit(s: BFTStats)
    ensures
        s.total_operations > 0 ==> s.success_rate_spec().is(s.successful_operations as int, s.total_operations as int),
        s.total_operations == 0 ==> s.success_rate_spec().is(0, 1),
        s.total_operations > 0 ==> s.fallback_rate_spec().is(s.fallback_operations as int, s.total_operations as int),
        s.total_operations == 0 ==> s.fallback_rate_spec().is(0, 1),
        s.successful_operations > 0 ==> s.average_consensus_time_ms_spec().is(s.total_consensus_time_ms as int, s.successful_operations as int),
        s.successful_operations == 0 ==> s.average_consensus_time_ms_spec().is(0, 1),
        s.total_operations > 0 ==> s.byzantine_fault_rate_spec().is(s.byzantine_faults_detected as int, s.total_operations as int),
        s.total_operations == 0 ==> s.byzantine_fault_rate_spec().is(0, 1),
{
}

/// Nothing counts before anything is done.
pub proof fn counters_start_at_zero()
    ensures
        BFTStats::none().total_operations == 0,
        BFTStats::none().successful_operations == 0,
        BFTStats::none().failed_operations == 0,
        BFTStats::none().fallback_operations == 0,
        BFTStats::none().total_consensus_time_ms == 0,
        BFTStats::none().current_network_size == 0,
        BFTStats::none().max_network_size == 0,
        BFTStats::none().byzantine_faults_detected == 0,
{
}

} // verus!

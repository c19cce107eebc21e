//! Threshold consensus, threshold signatures and secret sharing.
//!
//! An operation runs once enough participants have voted for it and none
//! against it. A secret is shared so that a threshold of the shares gives it
//! back.
use crate::clock::Stopwatch;
use crate::counters::{add_wrapping, wrapped_sum};
use crate::consensus::shamir::{
    recover, recovered_secret, share, share_selection, share_views, shares_recover, ShareBytes,
    ShareView,
};
use crate::linear_map::{lemma_entries_contains, lemma_entries_value, LinearMap};
use crate::ml::MLConfig;
use crate::ratio::Ratio;
use crate::text::{decimal, push_decimal};
use crate::time::{Duration, Instant};
use frost_secp256k1::rand_core::OsRng;
use frost_secp256k1::{SigningKey, VerifyingKey};
use vstd::prelude::*;

verus! {

/// The number of a participant.
pub type ParticipantId = u32;

/// Why something could not be done.
#[derive(Clone, Copy, Debug, PartialEq, Eq, Structural)]
pub enum ThresholdError {
    /// Fewer participants than the threshold.
    InsufficientParticipants { have: usize, need: u8 },
    /// Fewer votes than the threshold.
    ThresholdNotReached { votes: usize, required: u8 },
    /// Not every vote accepts.
    ConflictingVotes,
    /// There are no signing keys.
    SignaturesNotConfigured,
    /// There is no enhancement to sign with.
    SignaturesUnavailable,
    /// There is no enhancement to share secrets with.
    SharingUnavailable,
    /// There is no enhancement to put secrets together with.
    ReconstructionUnavailable,
    /// The threshold is zero, or there are not more shares than the threshold.
    InvalidScheme { threshold: u8, total_shares: u8 },
    /// Fewer shares than the threshold.
    InsufficientShares { have: usize },
    /// The shares do not belong together.
    InvalidShares,
}

impl ThresholdError {
    /// What the error says.
    pub open spec fn text(self) -> Seq<char> {
        match self {
            ThresholdError::InsufficientParticipants { have, need } =>
                "Insufficient participants for threshold consensus: "@ + decimal(have as nat)
                    + " < "@ + decimal(need as nat),
            ThresholdError::ThresholdNotReached { votes, required } => "Threshold not reached: "@
                + decimal(votes as nat) + " votes < "@ + decimal(required as nat) + " required"@,
            ThresholdError::ConflictingVotes => "Consensus not achieved: conflicting votes"@,
            ThresholdError::SignaturesNotConfigured => "Threshold signatures not configured"@,
            ThresholdError::SignaturesUnavailable =>
                "Threshold signatures not available without threshold-consensus feature"@,
            ThresholdError::SharingUnavailable =>
                "Secret sharing not available without threshold-consensus feature"@,
            ThresholdError::ReconstructionUnavailable =>
                "Secret reconstruction not available without threshold-consensus feature"@,
            ThresholdError::InvalidScheme { threshold, total_shares } =>
                "Invalid sharing scheme: "@ + decimal(threshold as nat) + " of "@ + decimal(
                    total_shares as nat,
                ),
            ThresholdError::InsufficientShares { have } => "Not enough shares: "@ + decimal(
                have as nat,
            ),
            ThresholdError::InvalidShares => "Shares do not belong together"@,
        }
    }

    /// What the error says.
    pub fn message(&self) -> (s: String)
        ensures
            s@ == self.text(),
    {
        let mut s = String::new();
        match *self {
            ThresholdError::InsufficientParticipants { have, need } => {
                s.append("Insufficient participants for threshold consensus: ");
                push_decimal(&mut s, have as u64);
                s.append(" < ");
                push_decimal(&mut s, need as u64);
            },
            ThresholdError::ThresholdNotReached { votes, required } => {
                s.append("Threshold not reached: ");
                push_decimal(&mut s, votes as u64);
                s.append(" votes < ");
                push_decimal(&mut s, required as u64);
                s.append(" required");
            },
            ThresholdError::ConflictingVotes => {
                s.append("Consensus not achieved: conflicting votes");
            },
            ThresholdError::SignaturesNotConfigured => {
                s.append("Threshold signatures not configured");
            },
            ThresholdError::SignaturesUnavailable => {
                s.append("Threshold signatures not available without threshold-consensus feature");
            },
            ThresholdError::SharingUnavailable => {
                s.append("Secret sharing not available without threshold-consensus feature");
            },
            ThresholdError::ReconstructionUnavailable => {
                s.append("Secret reconstruction not available without threshold-consensus feature");
            },
            ThresholdError::InvalidScheme { threshold, total_shares } => {
                s.append("Invalid sharing scheme: ");
                push_decimal(&mut s, threshold as u64);
                s.append(" of ");
                push_decimal(&mut s, total_shares as u64);
            },
            ThresholdError::InsufficientShares { have } => {
                s.append("Not enough shares: ");
                push_decimal(&mut s, have as u64);
            },
            ThresholdError::InvalidShares => {
                s.append("Shares do not belong together");
            },
        }
        assert(s@ =~= self.text());
        s
    }
}

/// How consensus is configured.
#[derive(Clone, Copy, Debug, PartialEq, Eq, Structural)]
pub struct ThresholdConfig {
    pub enabled: bool,
    /// How many participants are needed.
    pub threshold: u8,
    /// How many participants there are.
    pub total_participants: u8,
    pub enable_threshold_signatures: bool,
    pub consensus_timeout: Duration,
    /// Whether a single node serves where consensus fails.
    pub fallback_on_error: bool,
}

impl ThresholdConfig {
    /// How consensus is found where nothing else is said.
    pub open spec fn standard() -> ThresholdConfig {
        ThresholdConfig {
            enabled: true,
            threshold: 3,
            total_participants: 5,
            enable_threshold_signatures: true,
            consensus_timeout: Duration { nanos: 30_000_000_000 },
            fallback_on_error: true,
        }
    }
}

impl Default for ThresholdConfig {
    /// Three of five, within thirty seconds.
    fn default() -> (c: Self)
        ensures
            c == ThresholdConfig::standard(),
            c == (ThresholdConfig {
                enabled: true,
                threshold: 3,
                total_participants: 5,
                enable_threshold_signatures: true,
                consensus_timeout: Duration { nanos: 30_000_000_000 },
                fallback_on_error: true,
            }),
    {
        ThresholdConfig {
            enabled: true,
            threshold: 3,
            total_participants: 5,
            enable_threshold_signatures: true,
            consensus_timeout: Duration::from_secs(30),
            fallback_on_error: true,
        }
    }
}

/// The number of an operation.
#[derive(Clone, Copy, Debug, PartialEq, Eq, Structural)]
pub struct OperationId {
    pub id: u64,
}

/// Where the operation numbers of a process come from.
#[derive(Clone, Copy, Debug, PartialEq, Eq, Structural)]
pub struct OperationCounter {
    pub next: u64,
}

impl OperationCounter {
    /// A counter that starts at one.
    pub fn new() -> (c: Self)
        ensures
            c.next == 1,
    {
        OperationCounter { next: 1 }
    }
}

/// The number after a number, round the end.
pub open spec fn next_number(n: u64) -> u64 {
    if n < u64::MAX {
        (n + 1) as u64
    } else {
        0
    }
}

impl OperationId {
    /// A fresh number.
    pub fn new(counter: &mut OperationCounter) -> (id: Self)
        ensures
            id.id == old(counter).next,
            final(counter).next == next_number(old(counter).next),
    {
        let id: u64 = counter.next;
        counter.next = id.wrapping_add(1);
        OperationId { id }
    }
}

/// Operation numbers drawn from one counter differ, as long as fewer than 2^64 are
/// drawn from the one to the other. `counters` is the counter before each draw and
/// after the last.
pub proof fn operation_ids_differ(
    ids: Seq<OperationId>,
    counters: Seq<OperationCounter>,
    i: int,
    j: int,
)
    requires
        counters.len() == ids.len() + 1,
        forall|k: int|
            #![trigger ids[k]]
            0 <= k < ids.len() ==> ids[k].id == counters[k].next && counters[k + 1].next
                == next_number(counters[k].next),
        0 <= i < j < ids.len(),
        j - i < 0x1_0000_0000_0000_0000,
    ensures
        ids[i] != ids[j],
{
    lemma_counts_on(ids, counters, i, j);
    let n = counters[i].next as int;
    assert(ids[i].id == n && ids[j].id == counters[j].next);
    if n + (j - i) >= 0x1_0000_0000_0000_0000 {
        assert((n + (j - i)) % 0x1_0000_0000_0000_0000 == n + (j - i) - 0x1_0000_0000_0000_0000);
    }
}

proof fn lemma_counts_on(
    ids: Seq<OperationId>,
    counters: Seq<OperationCounter>,
    i: int,
    j: int,
)
    requires
        counters.len() == ids.len() + 1,
        forall|k: int|
            #![trigger ids[k]]
            0 <= k < ids.len() ==> ids[k].id == counters[k].next && counters[k + 1].next
                == next_number(counters[k].next),
        0 <= i <= j < ids.len(),
    ensures
        counters[j].next == (counters[i].next + (j - i)) % 0x1_0000_0000_0000_0000,
    decreases j - i,
{
    if i < j {
        lemma_counts_on(ids, counters, i, j - 1);
        assert(ids[j - 1].id == counters[j - 1].next);
        let n = counters[i].next + (j - 1 - i);
        vstd::arithmetic::div_mod::lemma_add_mod_noop(n, 1, 0x1_0000_0000_0000_0000);
    }
}

/// What can be decided by consensus.
pub trait ThresholdOperation: Sized {
    /// The name of the kind of operation.
    fn operation_type(&self) -> String;

    /// The operation as bytes, to be sent to participants.
    fn serialize(&self) -> Result<Vec<u8>, ThresholdError>;

    /// The operation from bytes.
    fn deserialize(data: &[u8]) -> Result<Self, ThresholdError>;
}

/// How a result came about.
#[derive(Clone, Copy, Debug, PartialEq, Eq, Structural)]
pub enum ConsensusProtocol {
    SingleNode,
    Threshold,
    Byzantine,
}

/// A result and how it came about.
#[derive(Debug)]
pub struct ConsensusResult<T> {
    pub result: T,
    pub participants: Vec<ParticipantId>,
    pub threshold_reached: bool,
    pub protocol_type: ConsensusProtocol,
}

/// What is known of a participant.
#[derive(Debug)]
pub struct ParticipantInfo {
    pub participant_id: ParticipantId,
    pub public_key: Vec<u8>,
    pub last_seen: Instant,
    /// The bits of an IEEE double.
    pub reputation_score_bits: u64,
}

/// How far an operation is.
#[derive(Clone, Copy, Debug, PartialEq, Eq, Structural)]
pub enum ThresholdOperationStatus {
    Collecting,
    Executing,
    Completed,
    Failed,
}

/// How a participant votes.
#[derive(Clone, Copy, Debug, PartialEq, Eq, Structural)]
pub enum VoteDecision {
    Accept,
    Reject,
    Abstain,
}

/// A vote.
#[derive(Debug)]
pub struct ParticipantVote {
    pub participant_id: ParticipantId,
    pub operation_id: OperationId,
    pub decision: VoteDecision,
    pub timestamp: Instant,
    pub signature: Option<Vec<u8>>,
}

/// An operation that is being decided.
#[derive(Debug)]
pub struct PendingThresholdOperation {
    pub operation_id: OperationId,
    pub operation_type: String,
    pub participants: Vec<ParticipantId>,
    pub started_at: Instant,
    pub votes: LinearMap<ParticipantId, ParticipantVote>,
    pub status: ThresholdOperationStatus,
}

/// A signature of several participants.
#[derive(Debug)]
pub struct ThresholdSignature {
    pub signature: Vec<u8>,
    pub signers: Vec<ParticipantId>,
    pub threshold: u8,
}

/// A share of a secret.
#[derive(Debug)]
pub struct SecretShare {
    /// The place of the share.
    pub participant_id: ParticipantId,
    pub share_data: Vec<u8>,
    /// How many shares are needed.
    pub threshold: u8,
    /// How many shares there are.
    pub total_shares: u8,
}

impl View for SecretShare {
    type V = ShareView;

    open spec fn view(&self) -> ShareView {
        (self.participant_id as nat, self.share_data@)
    }
}

/// The views of some shares.
pub open spec fn secret_share_views(shares: Seq<SecretShare>) -> Seq<ShareView> {
    shares.map_values(|s: SecretShare| s@)
}

/// A list of numbers once more.
fn copy_ids(ids: &[ParticipantId]) -> (r: Vec<ParticipantId>)
    ensures
        r@ == ids@,
{
    let mut r: Vec<ParticipantId> = Vec::new();
    let mut i: usize = 0;
    while i < ids.len()
        invariant
            i <= ids@.len(),
            r@ == ids@.subrange(0, i as int),
        decreases ids@.len() - i,
    {
        r.push(ids[i]);
        i += 1;
        assert(r@ =~= ids@.subrange(0, i as int));
    }
    assert(r@ =~= ids@);
    r
}

fn copy_bytes(bytes: &Vec<u8>) -> (r: Vec<u8>)
    ensures
        r@ == bytes@,
{
    let mut r: Vec<u8> = Vec::new();
    let mut i: usize = 0;
    while i < bytes.len()
        invariant
            i <= bytes@.len(),
            r@ == bytes@.subrange(0, i as int),
        decreases bytes@.len() - i,
    {
        r.push(bytes[i]);
        i += 1;
        assert(r@ =~= bytes@.subrange(0, i as int));
    }
    assert(r@ =~= bytes@);
    r
}

// ---------------------------------------------------------------------------
// Signing keys
// ---------------------------------------------------------------------------

/// What `VerifyingKey::from` and `VerifyingKey::serialize` make of the bytes of a
/// signing key, if `SigningKey::deserialize` takes them.
pub uninterp spec fn frost_verifying_bytes(signing_key: Seq<u8>) -> Option<Seq<u8>>;

/// `SigningKey::new` with the system's random numbers, written by
/// `SigningKey::serialize`: the 32 bytes of a scalar that is not zero, so that
/// there is a verifying key for it. Which one it is depends on chance.
#[verifier::external_body]
fn frost_signing_key() -> (key: Vec<u8>)
    ensures
        key@.len() == 32,
        frost_verifying_bytes(key@) is Some,
{
    SigningKey::new(&mut OsRng).serialize()
}

/// `VerifyingKey::from` the signing key that `SigningKey::deserialize` reads,
/// written by `VerifyingKey::serialize`; nothing where the bytes are no signing
/// key.
#[verifier::external_body]
fn frost_verifying_key(signing_key: &Vec<u8>) -> (key: Option<Vec<u8>>)
    ensures
        match key {
            Some(k) => frost_verifying_bytes(signing_key@) == Some(k@),
            None => frost_verifying_bytes(signing_key@) is None,
        },
{
    let signing_key = SigningKey::deserialize(signing_key).ok()?;
    VerifyingKey::from(&signing_key).serialize().ok()
}

/// A pair of keys for threshold signatures.
#[derive(Debug)]
pub struct FrostKeyPair {
    pub signing_key: Vec<u8>,
    pub verifying_key: Vec<u8>,
    pub threshold: u8,
    pub total_participants: u8,
}

impl FrostKeyPair {
    /// The verifying key belongs to the signing key.
    pub open spec fn wf(&self) -> bool {
        frost_verifying_bytes(self.signing_key@) == Some(self.verifying_key@)
    }

    /// The pair of a signing key, if it is one.
    pub fn from_signing_key(signing_key: Vec<u8>, threshold: u8, total_participants: u8) -> (r:
        Option<Self>)
        ensures
            r is Some <==> frost_verifying_bytes(signing_key@) is Some,
            r is Some ==> {
                &&& r->0.wf()
                &&& r->0.signing_key == signing_key
                &&& r->0.threshold == threshold
                &&& r->0.total_participants == total_participants
            },
    {
        match frost_verifying_key(&signing_key) {
            Some(verifying_key) => Some(
                FrostKeyPair { signing_key, verifying_key, threshold, total_participants },
            ),
            None => None,
        }
    }

    /// A fresh pair.
    pub fn generate(threshold: u8, total_participants: u8) -> (r: Option<Self>)
        ensures
            r is Some,
            r->0.wf(),
            r->0.threshold == threshold,
            r->0.total_participants == total_participants,
    {
        Self::from_signing_key(frost_signing_key(), threshold, total_participants)
    }

    /// A signature in the name of the signers: 64 zero bytes, in place of one that
    /// they would make together.
    pub fn threshold_sign(&self, message: &[u8], signers: &[ParticipantId]) -> (s:
        ThresholdSignature)
        ensures
            s.signature@ == Seq::new(64, |i: int| 0u8),
            s.signers@ == signers@,
            s.threshold == self.threshold,
    {
        let mut signature: Vec<u8> = Vec::new();
        let mut i: usize = 0;
        while i < 64
            invariant
                i <= 64,
                signature@ == Seq::new(i as nat, |i: int| 0u8),
            decreases 64 - i,
        {
            signature.push(0);
            i += 1;
            assert(signature@ =~= Seq::new(i as nat, |i: int| 0u8));
        }
        ThresholdSignature { signature, signers: copy_ids(signers), threshold: self.threshold }
    }

    /// Whether enough participants have signed.
    pub fn verify_threshold_signature(&self, signature: &ThresholdSignature, message: &[u8]) -> (b:
        bool)
        ensures
            b == (signature.signers@.len() >= self.threshold),
            b == enough_signers(self.threshold, signature.signers@),
    {
        signature.signers.len() >= self.threshold as usize
    }
}

// ---------------------------------------------------------------------------
// Statistics
// ---------------------------------------------------------------------------

/// What was done, and how long it took.
#[derive(Clone, Copy, Debug, PartialEq, Eq, Structural)]
pub struct ThresholdStats {
    pub consensus_operations: u64,
    pub consensus_time_ns: u64,
    pub threshold_signatures: u64,
    pub signature_time_ns: u64,
    pub secret_shares: u64,
    pub sharing_time_ns: u64,
    pub secret_reconstructions: u64,
    pub reconstruction_time_ns: u64,
}

impl Default for ThresholdStats {
    fn default() -> (s: Self)
        ensures
            s == ThresholdStats::none(),
    {
        ThresholdStats {
            consensus_operations: 0,
            consensus_time_ns: 0,
            threshold_signatures: 0,
            signature_time_ns: 0,
            secret_shares: 0,
            sharing_time_ns: 0,
            secret_reconstructions: 0,
            reconstruction_time_ns: 0,
        }
    }
}

impl ThresholdStats {
    /// Nothing was done.
    pub open spec fn none() -> Self {
        ThresholdStats {
            consensus_operations: 0,
            consensus_time_ns: 0,
            threshold_signatures: 0,
            signature_time_ns: 0,
            secret_shares: 0,
            sharing_time_ns: 0,
            secret_reconstructions: 0,
            reconstruction_time_ns: 0,
        }
    }

    /// One consensus more, that took so long.
    pub open spec fn with_consensus(self, nanos: u64) -> Self {
        ThresholdStats {
            consensus_operations: wrapped_sum(self.consensus_operations, 1),
            consensus_time_ns: wrapped_sum(self.consensus_time_ns, nanos),
            ..self
        }
    }

    /// One signature more, that took so long.
    pub open spec fn with_signature(self, nanos: u64) -> Self {
        ThresholdStats {
            threshold_signatures: wrapped_sum(self.threshold_signatures, 1),
            signature_time_ns: wrapped_sum(self.signature_time_ns, nanos),
            ..self
        }
    }

    /// One secret shared more, that took so long.
    pub open spec fn with_sharing(self, nanos: u64) -> Self {
        ThresholdStats {
            secret_shares: wrapped_sum(self.secret_shares, 1),
            sharing_time_ns: wrapped_sum(self.sharing_time_ns, nanos),
            ..self
        }
    }

    /// One secret put together more, that took so long.
    pub open spec fn with_reconstruction(self, nanos: u64) -> Self {
        ThresholdStats {
            secret_reconstructions: wrapped_sum(self.secret_reconstructions, 1),
            reconstruction_time_ns: wrapped_sum(self.reconstruction_time_ns, nanos),
            ..self
        }
    }

    /// Nanoseconds per consensus.
    pub open spec fn avg_consensus_latency_ns_spec(self) -> Ratio {
        Ratio::of_spec(self.consensus_time_ns as int, self.consensus_operations as int)
    }

    /// Nanoseconds per consensus.
    pub fn avg_consensus_latency_ns(&self) -> (r: Ratio)
        ensures
            r == self.avg_consensus_latency_ns_spec(),
            r == Ratio::of_spec(self.consensus_time_ns as int, self.consensus_operations as int),
    {
        Ratio::of(self.consensus_time_ns as u128, self.consensus_operations as u128)
    }

    /// Signatures per second over a span.
    pub open spec fn signature_rate_spec(self, duration: Duration) -> Ratio {
        Ratio::of_spec(self.threshold_signatures * 1_000_000_000, duration.nanos as int)
    }

    /// Signatures per second over a span.
    pub fn signature_rate(&self, duration: Duration) -> (r: Ratio)
        ensures
            r == self.signature_rate_spec(duration),
            r == Ratio::of_spec(
                self.threshold_signatures * 1_000_000_000,
                duration.nanos as int,
            ),
    {
        Ratio::of(self.threshold_signatures as u128 * 1_000_000_000, duration.nanos)
    }

    /// Secrets put together per secret shared.
    pub open spec fn sharing_efficiency_spec(self) -> Ratio {
        Ratio::of_spec(self.secret_reconstructions as int, self.secret_shares as int)
    }

    /// Secrets put together per secret shared.
    pub fn sharing_efficiency(&self) -> (r: Ratio)
        ensures
            r == self.sharing_efficiency_spec(),
            r == Ratio::of_spec(self.secret_reconstructions as int, self.secret_shares as int),
    {
        Ratio::of(self.secret_reconstructions as u128, self.secret_shares as u128)
    }
}

// ---------------------------------------------------------------------------
// Votes
// ---------------------------------------------------------------------------

/// Every vote accepts.
pub open spec fn all_accept(votes: Map<ParticipantId, ParticipantVote>) -> bool {
    forall|p: ParticipantId| #[trigger]
        votes.dom().contains(p) ==> votes[p].decision == VoteDecision::Accept
}

/// What some votes decide: there have to be enough, and all of them have to
/// accept.
pub open spec fn decided(votes: Map<ParticipantId, ParticipantVote>, threshold: u8) -> Result<
    (),
    ThresholdError,
> {
    if votes.dom().len() < threshold {
        Err(
            ThresholdError::ThresholdNotReached {
                votes: votes.dom().len() as usize,
                required: threshold,
            },
        )
    } else if all_accept(votes) {
        Ok(())
    } else {
        Err(ThresholdError::ConflictingVotes)
    }
}

/// What some votes decide.
pub fn decide(votes: &LinearMap<ParticipantId, ParticipantVote>, threshold: u8) -> (r: Result<
    (),
    ThresholdError,
>)
    requires
        votes.wf(),
    ensures
        r == decided(votes@, threshold),
{
    let count: usize = votes.len();
    if count < threshold as usize {
        return Err(ThresholdError::ThresholdNotReached { votes: count, required: threshold });
    }
    let mut i: usize = 0;
    while i < votes.entries.len()
        invariant
            votes.wf(),
            i <= votes.entries@.len(),
            votes@.dom().len() >= threshold,
            forall|j: int|
                0 <= j < i ==> (#[trigger] votes.entries@[j]).1.decision == VoteDecision::Accept,
        decreases votes.entries@.len() - i,
    {
        if votes.entries[i].1.decision != VoteDecision::Accept {
            proof {
                lemma_entries_value(votes.entries@, i as int);
                assert(votes@.dom().contains(votes.entries@[i as int].0));
            }
            return Err(ThresholdError::ConflictingVotes);
        }
        i += 1;
    }
    proof {
        assert forall|p: ParticipantId| #[trigger]
            votes@.dom().contains(p) implies votes@[p].decision == VoteDecision::Accept by {
            lemma_entries_contains(votes.entries@, p);
            let j = choose|j: int|
                0 <= j < votes.entries@.len() && #[trigger] votes.entries@[j].0@ == p;
            lemma_entries_value(votes.entries@, j);
        }
    }
    Ok(())
}

/// Votes decide for an operation only where a threshold of participants accepts
/// it; a single vote that does not accept stops it.
pub proof fn consensus_needs_agreement(votes: Map<ParticipantId, ParticipantVote>, threshold: u8)
    ensures
        decided(votes, threshold) is Ok <==> votes.dom().len() >= threshold && all_accept(votes),
{
}

/// Whether participants agree, and by how much they fall short where they do not.
pub open spec fn agreed(
    threshold: u8,
    participants: Seq<ParticipantId>,
    r: Result<(), ThresholdError>,
) -> bool {
    match r {
        Ok(_) => distinct(participants) >= threshold,
        Err(ThresholdError::ThresholdNotReached { votes, required }) => {
            &&& distinct(participants) < threshold
            &&& votes == distinct(participants)
            &&& required == threshold
        },
        Err(_) => false,
    }
}

/// Enough participants have signed.
pub open spec fn enough_signers(threshold: u8, signers: Seq<ParticipantId>) -> bool {
    signers.len() >= threshold
}

/// How many different participants a list names.
pub open spec fn distinct(participants: Seq<ParticipantId>) -> nat {
    participants.to_set().len()
}

/// A participant's vote, as it is taken to be.
pub fn simulate_participant_vote(
    participant_id: ParticipantId,
    operation_id: OperationId,
    now: Instant,
) -> (v: ParticipantVote)
    ensures
        v.participant_id == participant_id,
        v.operation_id == operation_id,
        v.decision == VoteDecision::Accept,
        v.timestamp == now,
        v.signature is None,
{
    ParticipantVote {
        participant_id,
        operation_id,
        decision: VoteDecision::Accept,
        timestamp: now,
        signature: None,
    }
}

proof fn lemma_distinct_push(s: Seq<ParticipantId>, p: ParticipantId)
    ensures
        s.push(p).to_set() == s.to_set().insert(p),
{
    assert forall|x: ParticipantId| s.push(p).to_set().contains(x) <==> s.to_set().insert(
        p,
    ).contains(x) by {
        if s.push(p).contains(x) {
            let i = choose|i: int| 0 <= i < s.push(p).len() && s.push(p)[i] == x;
            if i < s.len() {
                assert(s[i] == x);
            }
        }
        if s.contains(x) {
            let i = choose|i: int| 0 <= i < s.len() && s[i] == x;
            assert(s.push(p)[i] == x);
        }
        assert(s.push(p)[s.len() as int] == p);
    }
    assert(s.push(p).to_set() =~= s.to_set().insert(p));
}

proof fn lemma_distinct_grows(s: Seq<ParticipantId>, n: int)
    requires
        0 <= n <= s.len(),
    ensures
        s.subrange(0, n).to_set().finite(),
        s.to_set().finite(),
        distinct(s.subrange(0, n)) <= distinct(s),
{
    let p = s.subrange(0, n);
    vstd::seq_lib::seq_to_set_is_finite(s);
    vstd::seq_lib::seq_to_set_is_finite(p);
    assert forall|x: ParticipantId| p.to_set().contains(x) implies s.to_set().contains(x) by {
        let i = choose|i: int| 0 <= i < p.len() && p[i] == x;
        assert(s[i] == x);
    }
    vstd::set_lib::lemma_len_subset(p.to_set(), s.to_set());
}

/// The votes of the first so many participants.
pub open spec fn votes_of(
    votes: Map<ParticipantId, ParticipantVote>,
    participants: Seq<ParticipantId>,
    operation_id: OperationId,
) -> bool {
    &&& votes.dom() == participants.to_set()
    &&& forall|p: ParticipantId| #[trigger]
        votes.dom().contains(p) ==> {
            &&& votes[p].participant_id == p
            &&& votes[p].operation_id == operation_id
            &&& votes[p].decision == VoteDecision::Accept
        }
}

/// Participants are asked in turn until enough different ones have voted.
pub open spec fn asked_enough(participants: Seq<ParticipantId>, asked: int, threshold: u8) -> bool {
    &&& 0 <= asked <= participants.len()
    &&& participants.len() > 0 ==> asked > 0
    &&& asked < participants.len() ==> distinct(participants.subrange(0, asked)) >= threshold
    &&& forall|n: int|
        0 < n < asked ==> #[trigger] distinct(participants.subrange(0, n)) < threshold
}

// ---------------------------------------------------------------------------
// The enhancer
// ---------------------------------------------------------------------------

/// Threshold cryptography of a node.
#[derive(Debug)]
pub struct ThresholdEnhancer {
    pub config: ThresholdConfig,
    pub participant_keys: LinearMap<ParticipantId, ParticipantInfo>,
    pub pending_operations: LinearMap<u64, PendingThresholdOperation>,
    pub stats: ThresholdStats,
    pub frost_keys: Option<FrostKeyPair>,
}

/// What some shares give back: the first so many of them as their first one asks
/// for are put together.
pub open spec fn reconstructed(shares: Seq<SecretShare>) -> Result<Seq<u8>, ThresholdError> {
    if shares.len() == 0 || shares[0].threshold == 0 || shares.len() < shares[0].threshold {
        Err(ThresholdError::InsufficientShares { have: shares.len() as usize })
    } else {
        match recovered_secret(
            secret_share_views(shares.subrange(0, shares[0].threshold as int)),
        ) {
            Some(secret) => Ok(secret),
            None => Err(ThresholdError::InvalidShares),
        }
    }
}

/// What a vote of some participants on an operation comes to.
pub open spec fn vote_result(threshold: u8, participants: Seq<ParticipantId>, id: u64) -> Result<
    OperationId,
    ThresholdError,
> {
    if participants.len() < threshold {
        Err(
            ThresholdError::InsufficientParticipants {
                have: participants.len() as usize,
                need: threshold,
            },
        )
    } else if distinct(participants) < threshold {
        Err(
            ThresholdError::ThresholdNotReached {
                votes: distinct(participants) as usize,
                required: threshold,
            },
        )
    } else {
        Ok(OperationId { id })
    }
}

/// An operation was put to the vote under a number: it is pending where there were
/// participants enough to ask.
pub open spec fn put_to_vote(
    before: ThresholdEnhancer,
    after: ThresholdEnhancer,
    id: u64,
    participants: Seq<ParticipantId>,
    now: Instant,
) -> bool {
    &&& after.config == before.config
    &&& after.participant_keys == before.participant_keys
    &&& after.stats == before.stats
    &&& after.frost_keys == before.frost_keys
    &&& participants.len() < before.config.threshold ==> after.pending_operations@
        == before.pending_operations@
    &&& participants.len() >= before.config.threshold ==> {
        &&& after.pending_operations@.dom() == before.pending_operations@.dom().insert(id)
        &&& forall|k: u64|
            k != id && #[trigger] before.pending_operations@.dom().contains(k)
                ==> after.pending_operations@[k] == before.pending_operations@[k]
        &&& after.pending_operations@[id].operation_id.id == id
        &&& after.pending_operations@[id].participants@ == participants
        &&& after.pending_operations@[id].started_at == now
        &&& after.pending_operations@[id].votes@ == Map::<u32, ParticipantVote>::empty()
        &&& after.pending_operations@[id].status == ThresholdOperationStatus::Collecting
    }
}

impl ThresholdEnhancer {
    pub open spec fn wf(&self) -> bool {
        &&& self.pending_operations.wf()
        &&& self.participant_keys.wf()
        &&& self.frost_keys is Some ==> self.frost_keys->0.wf()
    }

    /// Nothing was done yet, and there are signing keys where they are enabled.
    pub open spec fn fresh(&self, config: ThresholdConfig) -> bool {
        &&& self.config == config
        &&& self.participant_keys@ == Map::<u32, ParticipantInfo>::empty()
        &&& self.pending_operations@ == Map::<u64, PendingThresholdOperation>::empty()
        &&& self.frost_keys is Some <==> config.enable_threshold_signatures
        &&& self.frost_keys is Some ==> self.frost_keys->0.threshold == config.threshold
            && self.frost_keys->0.total_participants == config.total_participants
        &&& self.stats == ThresholdStats::none()
    }

    /// Nothing is pending; there are signing keys where they are enabled.
    pub fn new(config: ThresholdConfig) -> (e: Self)
        ensures
            e.wf(),
            e.fresh(config),
    {
        let frost_keys = if config.enable_threshold_signatures {
            FrostKeyPair::generate(config.threshold, config.total_participants)
        } else {
            None
        };
        ThresholdEnhancer {
            config,
            participant_keys: LinearMap::new(),
            pending_operations: LinearMap::new(),
            stats: ThresholdStats::default(),
            frost_keys,
        }
    }

    /// The votes of participants, asked in turn until enough have voted.
    pub fn collect_participant_votes(
        &self,
        participants: &[ParticipantId],
        operation_id: OperationId,
        now: Instant,
    ) -> (votes: LinearMap<ParticipantId, ParticipantVote>)
        ensures
            votes.wf(),
            exists|asked: int|
                {
                    &&& #[trigger] asked_enough(participants@, asked, self.config.threshold)
                    &&& votes_of(votes@, participants@.subrange(0, asked), operation_id)
                },
    {
        let mut votes: LinearMap<ParticipantId, ParticipantVote> = LinearMap::new();
        let threshold: usize = self.config.threshold as usize;
        let mut i: usize = 0;
        proof {
            assert(participants@.subrange(0, 0) =~= Seq::<ParticipantId>::empty());
            assert(votes@.dom() =~= participants@.subrange(0, 0).to_set());
        }
        while i < participants.len()
            invariant
                i <= participants@.len(),
                votes.wf(),
                threshold == self.config.threshold,
                votes_of(votes@, participants@.subrange(0, i as int), operation_id),
                forall|n: int|
                    0 < n <= i ==> #[trigger] distinct(participants@.subrange(0, n)) < threshold,
            decreases participants@.len() - i,
        {
            let participant_id: ParticipantId = participants[i];
            let vote = simulate_participant_vote(participant_id, operation_id, now);
            let ghost before = votes@;
            votes.insert(participant_id, vote);
            proof {
                let p = participants@.subrange(0, i as int);
                lemma_distinct_push(p, participant_id);
                assert(p.push(participant_id) =~= participants@.subrange(0, i + 1));
                assert(votes@.dom() =~= participants@.subrange(0, i + 1).to_set());
                assert forall|q: ParticipantId| #[trigger] votes@.dom().contains(q) implies {
                    &&& votes@[q].participant_id == q
                    &&& votes@[q].operation_id == operation_id
                    &&& votes@[q].decision == VoteDecision::Accept
                } by {
                    if q != participant_id {
                        assert(before.dom().contains(q));
                    }
                }
            }
            i += 1;
            if votes.len() >= threshold {
                assert(asked_enough(participants@, i as int, self.config.threshold));
                return votes;
            }
        }
        assert(asked_enough(participants@, i as int, self.config.threshold));
        votes
    }

    /// Whether the participants agree: they do where enough different ones of
    /// them are asked, since each is taken to accept.
    pub fn coordinate_consensus(
        &self,
        participants: &[ParticipantId],
        operation_id: OperationId,
        now: Instant,
    ) -> (r: Result<(), ThresholdError>)
        ensures
            agreed(self.config.threshold, participants@, r),
            r == (if distinct(participants@) >= self.config.threshold {
                Ok(())
            } else {
                Err(
                    ThresholdError::ThresholdNotReached {
                        votes: distinct(participants@) as usize,
                        required: self.config.threshold,
                    },
                )
            }),
    {
        let votes = self.collect_participant_votes(participants, operation_id, now);
        proof {
            let asked = choose|asked: int|
                {
                    &&& #[trigger] asked_enough(participants@, asked, self.config.threshold)
                    &&& votes_of(votes@, participants@.subrange(0, asked), operation_id)
                };
            lemma_distinct_grows(participants@, asked);
            if asked == participants@.len() {
                assert(participants@.subrange(0, asked) =~= participants@);
            }
        }
        decide(&votes, self.config.threshold)
    }

    /// Puts an operation to the vote. On success it is to be executed, and then to
    /// be completed; it is pending until then. An operation that is voted down
    /// stays pending.
    pub fn execute_threshold_consensus<T: ThresholdOperation>(
        &mut self,
        counter: &mut OperationCounter,
        operation: &T,
        participants: &[ParticipantId],
        now: Instant,
    ) -> (r: Result<OperationId, ThresholdError>)
        requires
            old(self).wf(),
        ensures
            final(self).wf(),
            final(counter).next == next_number(old(counter).next),
            put_to_vote(*old(self), *final(self), old(counter).next, participants@, now),
            participants@.len() >= old(self).config.threshold ==> call_ensures(
                T::operation_type,
                (operation,),
                final(self).pending_operations@[old(counter).next].operation_type,
            ),
            r == vote_result(old(self).config.threshold, participants@, old(counter).next),
    {
        let operation_id = OperationId::new(counter);
        if participants.len() < self.config.threshold as usize {
            return Err(
                ThresholdError::InsufficientParticipants {
                    have: participants.len(),
                    need: self.config.threshold,
                },
            );
        }
        let pending = PendingThresholdOperation {
            operation_id,
            operation_type: operation.operation_type(),
            participants: copy_ids(participants),
            started_at: now,
            votes: LinearMap::new(),
            status: ThresholdOperationStatus::Collecting,
        };
        self.pending_operations.insert(operation_id.id, pending);
        match self.coordinate_consensus(participants, operation_id, now) {
            Ok(()) => Ok(operation_id),
            Err(e) => Err(e),
        }
    }

    /// Completes an operation that was executed: it is no longer pending, and it
    /// is counted with the time it took.
    pub fn complete_consensus<T>(
        &mut self,
        operation_id: OperationId,
        participants: &[ParticipantId],
        result: T,
        elapsed_ns: u64,
    ) -> (r: ConsensusResult<T>)
        requires
            old(self).wf(),
        ensures
            final(self).wf(),
            final(self).config == old(self).config,
            final(self).participant_keys == old(self).participant_keys,
            final(self).frost_keys == old(self).frost_keys,
            final(self).pending_operations@ == old(self).pending_operations@.remove(
                operation_id.id,
            ),
            final(self).stats == old(self).stats.with_consensus(elapsed_ns),
            r.result == result,
            r.participants@ == participants@,
            r.threshold_reached,
            r.protocol_type == ConsensusProtocol::Threshold,
    {
        self.pending_operations.remove(&operation_id.id);
        self.stats.consensus_operations = add_wrapping(self.stats.consensus_operations, 1);
        self.stats.consensus_time_ns = add_wrapping(self.stats.consensus_time_ns, elapsed_ns);
        ConsensusResult {
            result,
            participants: copy_ids(participants),
            threshold_reached: true,
            protocol_type: ConsensusProtocol::Threshold,
        }
    }

    /// A signature in the name of the signers, where there are signing keys.
    pub fn threshold_sign(&mut self, message: &[u8], signers: &[ParticipantId]) -> (r: Result<
        ThresholdSignature,
        ThresholdError,
    >)
        requires
            old(self).wf(),
        ensures
            final(self).wf(),
            final(self).config == old(self).config,
            final(self).participant_keys == old(self).participant_keys,
            final(self).frost_keys == old(self).frost_keys,
            final(self).pending_operations == old(self).pending_operations,
            match old(self).frost_keys {
                Some(keys) => {
                    &&& r is Ok
                    &&& r->Ok_0.signature@ == Seq::new(64, |i: int| 0u8)
                    &&& r->Ok_0.signers@ == signers@
                    &&& r->Ok_0.threshold == keys.threshold
                    &&& exists|nanos: u64|
                        final(self).stats == #[trigger] old(self).stats.with_signature(nanos)
                },
                None => {
                    &&& r is Err
                    &&& r->Err_0 == ThresholdError::SignaturesNotConfigured
                    &&& final(self).stats == old(self).stats
                },
            },
    {
        let watch = Stopwatch::start();
        let signature = match &self.frost_keys {
            Some(keys) => keys.threshold_sign(message, signers),
            None => {
                return Err(ThresholdError::SignaturesNotConfigured);
            },
        };
        let nanos: u64 = watch.elapsed_nanos();
        let ghost before = self.stats;
        self.stats.threshold_signatures = add_wrapping(self.stats.threshold_signatures, 1);
        self.stats.signature_time_ns = add_wrapping(self.stats.signature_time_ns, nanos);
        assert(self.stats == before.with_signature(nanos));
        Ok(signature)
    }

    /// Whether enough participants have signed; never without signing keys.
    pub fn verify_threshold_signature(&self, signature: &ThresholdSignature, message: &[u8]) -> (b:
        bool)
        ensures
            b == (self.frost_keys is Some && signature.signers@.len()
                >= self.frost_keys->0.threshold),
            self.frost_keys is Some ==> b == enough_signers(
                self.frost_keys->0.threshold,
                signature.signers@,
            ),
    {
        match &self.frost_keys {
            Some(keys) => keys.verify_threshold_signature(signature, message),
            None => false,
        }
    }

    /// Shares a secret, so that any `threshold` of the shares give it back.
    pub fn share_secret(&mut self, secret: &[u8], threshold: u8, total_shares: u8) -> (r: Result<
        Vec<SecretShare>,
        ThresholdError,
    >)
        requires
            old(self).wf(),
        ensures
            final(self).wf(),
            final(self).config == old(self).config,
            final(self).participant_keys == old(self).participant_keys,
            final(self).frost_keys == old(self).frost_keys,
            final(self).pending_operations == old(self).pending_operations,
            r is Ok <==> 1 <= threshold < total_shares,
            r is Err ==> {
                &&& r->Err_0 == ThresholdError::InvalidScheme { threshold, total_shares }
                &&& final(self).stats == old(self).stats
            },
            r is Ok ==> {
                let shares = r->Ok_0@;
                &&& shares.len() == total_shares
                &&& forall|i: int|
                    0 <= i < shares.len() ==> {
                        &&& (#[trigger] shares[i]).participant_id == i + 1
                        &&& shares[i].threshold == threshold
                        &&& shares[i].total_shares == total_shares
                    }
                &&& shares_recover(secret_share_views(shares), threshold as nat, secret@)
                &&& exists|nanos: u64|
                    final(self).stats == #[trigger] old(self).stats.with_sharing(nanos)
            },
    {
        if threshold == 0 || threshold >= total_shares {
            return Err(ThresholdError::InvalidScheme { threshold, total_shares });
        }
        let watch = Stopwatch::start();
        let shares = share(secret, threshold as usize, total_shares as usize);
        let nanos: u64 = watch.elapsed_nanos();
        let ghost before = self.stats;
        self.stats.secret_shares = add_wrapping(self.stats.secret_shares, 1);
        self.stats.sharing_time_ns = add_wrapping(self.stats.sharing_time_ns, nanos);
        assert(self.stats == before.with_sharing(nanos));
        let mut out: Vec<SecretShare> = Vec::new();
        let mut i: usize = 0;
        while i < shares.len()
            invariant
                i <= shares@.len(),
                shares@.len() == total_shares,
                out@.len() == i,
                forall|j: int|
                    0 <= j < shares@.len() ==> (#[trigger] shares@[j]).id == j + 1,
                forall|j: int|
                    0 <= j < i ==> {
                        &&& (#[trigger] out@[j]).participant_id == j + 1
                        &&& out@[j].threshold == threshold
                        &&& out@[j].total_shares == total_shares
                        &&& out@[j]@ == shares@[j]@
                    },
            decreases shares@.len() - i,
        {
            assert(shares@[i as int].id == i + 1);
            out.push(
                SecretShare {
                    participant_id: shares[i].id,
                    share_data: copy_bytes(&shares[i].data),
                    threshold,
                    total_shares,
                },
            );
            i += 1;
        }
        assert(secret_share_views(out@) =~= share_views(shares@));
        Ok(out)
    }

    /// Puts a secret together from its shares. The first share says how many are
    /// needed; so many from the front are used.
    pub fn reconstruct_secret(&mut self, shares: &[SecretShare]) -> (r: Result<
        Vec<u8>,
        ThresholdError,
    >)
        requires
            old(self).wf(),
        ensures
            final(self).wf(),
            final(self).config == old(self).config,
            final(self).participant_keys == old(self).participant_keys,
            final(self).frost_keys == old(self).frost_keys,
            final(self).pending_operations == old(self).pending_operations,
            match reconstructed(shares@) {
                Ok(secret) => {
                    &&& r is Ok
                    &&& r->Ok_0@ == secret
                    &&& exists|nanos: u64|
                        final(self).stats == #[trigger] old(self).stats.with_reconstruction(nanos)
                },
                Err(e) => {
                    &&& r is Err
                    &&& r->Err_0 == e
                    &&& final(self).stats == old(self).stats
                },
            },
    {
        let watch = Stopwatch::start();
        if shares.len() == 0 || shares[0].threshold == 0 || shares.len()
            < shares[0].threshold as usize {
            return Err(ThresholdError::InsufficientShares { have: shares.len() });
        }
        let needed: usize = shares[0].threshold as usize;
        let mut chosen: Vec<ShareBytes> = Vec::new();
        let mut i: usize = 0;
        while i < needed
            invariant
                i <= needed <= shares@.len(),
                chosen@.len() == i,
                forall|j: int| 0 <= j < i ==> (#[trigger] chosen@[j])@ == shares@[j]@,
            decreases needed - i,
        {
            chosen.push(
                ShareBytes {
                    id: shares[i].participant_id,
                    data: copy_bytes(&shares[i].share_data),
                },
            );
            i += 1;
        }
        assert(share_views(chosen@) =~= secret_share_views(shares@.subrange(0, needed as int)));
        let secret = match recover(&chosen) {
            Some(secret) => secret,
            None => {
                return Err(ThresholdError::InvalidShares);
            },
        };
        let nanos: u64 = watch.elapsed_nanos();
        let ghost before = self.stats;
        self.stats.secret_reconstructions = add_wrapping(self.stats.secret_reconstructions, 1);
        self.stats.reconstruction_time_ns =
        add_wrapping(self.stats.reconstruction_time_ns, nanos);
        assert(self.stats == before.with_reconstruction(nanos));
        Ok(secret)
    }

    /// What was done so far.
    pub fn get_stats(&self) -> (s: ThresholdStats)
        ensures
            s == self.stats,
    {
        self.stats
    }
}

/// A secret that was shared is given back by any list of its shares whose first
/// `threshold` ones are different.
pub proof fn shared_secret_is_reconstructed(
    all: Seq<SecretShare>,
    threshold: u8,
    secret: Seq<u8>,
    given: Seq<SecretShare>,
)
    requires
        threshold > 0,
        shares_recover(secret_share_views(all), threshold as nat, secret),
        forall|i: int| 0 <= i < all.len() ==> (#[trigger] all[i]).threshold == threshold,
        given.len() >= threshold,
        forall|i: int| 0 <= i < given.len() ==> all.contains(#[trigger] given[i]),
        forall|i: int, j: int|
            0 <= i < j < threshold ==> (#[trigger] given[i]).participant_id != (
            #[trigger] given[j]).participant_id,
    ensures
        reconstructed(given) == Ok::<Seq<u8>, ThresholdError>(secret),
{
    assert(all.contains(given[0]));
    let first = given.subrange(0, threshold as int);
    let pick = secret_share_views(first);
    let views = secret_share_views(all);
    assert forall|i: int| 0 <= i < pick.len() implies views.contains(#[trigger] pick[i]) by {
        assert(all.contains(given[i]));
        let k = choose|k: int| 0 <= k < all.len() && all[k] == given[i];
        assert(views[k] == pick[i]);
    }
    assert forall|i: int, j: int| 0 <= i < j < pick.len() implies (#[trigger] pick[i]).0 != (
    #[trigger] pick[j]).0 by {
        assert(given[i].participant_id != given[j].participant_id);
    }
    assert(share_selection(pick, views, threshold as nat));
}

// ---------------------------------------------------------------------------
// A node with threshold consensus
// ---------------------------------------------------------------------------

/// What is to be done with an operation.
#[derive(Clone, Copy, Debug, PartialEq, Eq, Structural)]
pub enum ConsensusPlan {
    /// Execute it: the participants agree.
    Agreed(OperationId),
    /// Execute it on this node alone.
    SingleNode,
}

/// A node whose operations can be decided by consensus.
#[derive(Debug)]
pub struct ThresholdConsensus<B> {
    pub base: B,
    pub enhancement: Option<ThresholdEnhancer>,
    pub config: MLConfig,
}

impl<B> ThresholdConsensus<B> {
    pub open spec fn wf(&self) -> bool {
        self.enhancement is Some ==> self.enhancement->0.wf()
    }

    /// Neither the node nor how it is configured differs, nor whether it is enhanced.
    pub open spec fn same_node(before: Self, after: Self) -> bool {
        &&& after.base == before.base
        &&& after.config == before.config
        &&& after.enhancement is Some <==> before.enhancement is Some
    }

    /// Only what the enhancement counts may differ.
    pub open spec fn same_but_stats(before: Self, after: Self) -> bool {
        &&& Self::same_node(before, after)
        &&& before.enhancement is Some ==> {
            &&& after.enhancement->0.config == before.enhancement->0.config
            &&& after.enhancement->0.participant_keys == before.enhancement->0.participant_keys
            &&& after.enhancement->0.pending_operations == before.enhancement->0.pending_operations
            &&& after.enhancement->0.frost_keys == before.enhancement->0.frost_keys
        }
    }

    /// A node that is enhanced where the configuration enables it.
    pub fn new(base: B, config: ThresholdConfig) -> (t: Self)
        ensures
            t.wf(),
            t.base == base,
            t.enhancement is Some <==> config.enabled,
            t.enhancement is Some ==> t.enhancement->0.fresh(config),
            t.config.enabled == config.enabled,
            t.config.fallback_on_error == config.fallback_on_error,
            t.config.model_path is None,
            t.config.max_inference_latency_ms == 200,
    {
        let enhancement = if config.enabled {
            Some(ThresholdEnhancer::new(config))
        } else {
            None
        };
        ThresholdConsensus {
            base,
            enhancement,
            config: MLConfig {
                enabled: config.enabled,
                fallback_on_error: config.fallback_on_error,
                model_path: None,
                max_inference_latency_ms: 200,
            },
        }
    }

    /// Decides on an operation: by consensus where the node is enhanced, by itself
    /// otherwise. A vote that fails leaves it to the node itself, or is an error, as
    /// the configuration says.
    pub fn threshold_consensus<T: ThresholdOperation>(
        &mut self,
        counter: &mut OperationCounter,
        operation: &T,
        participants: &[ParticipantId],
        now: Instant,
    ) -> (r: Result<ConsensusPlan, ThresholdError>)
        requires
            old(self).wf(),
        ensures
            final(self).wf(),
            match old(self).enhancement {
                None => {
                    &&& r == Ok::<ConsensusPlan, ThresholdError>(ConsensusPlan::SingleNode)
                    &&& *final(self) == *old(self)
                    &&& *final(counter) == *old(counter)
                },
                Some(e) => {
                    &&& Self::same_node(*old(self), *final(self))
                    &&& final(counter).next == next_number(old(counter).next)
                    &&& put_to_vote(
                        e,
                        final(self).enhancement->0,
                        old(counter).next,
                        participants@,
                        now,
                    )
                    &&& participants@.len() >= e.config.threshold ==> call_ensures(
                        T::operation_type,
                        (operation,),
                        final(self).enhancement->0.pending_operations@[old(counter).next].operation_type,
                    )
                    &&& r == (match vote_result(
                        e.config.threshold,
                        participants@,
                        old(counter).next,
                    ) {
                        Ok(id) => Ok(ConsensusPlan::Agreed(id)),
                        Err(x) => if e.config.fallback_on_error {
                            Ok(ConsensusPlan::SingleNode)
                        } else {
                            Err(x)
                        },
                    })
                },
            },
    {
        match &mut self.enhancement {
            Some(e) => match e.execute_threshold_consensus(counter, operation, participants, now) {
                Ok(id) => Ok(ConsensusPlan::Agreed(id)),
                Err(x) => if e.config.fallback_on_error {
                    Ok(ConsensusPlan::SingleNode)
                } else {
                    Err(x)
                },
            },
            None => Ok(ConsensusPlan::SingleNode),
        }
    }

    /// The result of an operation that was executed as planned.
    pub fn complete<T>(
        &mut self,
        plan: ConsensusPlan,
        participants: &[ParticipantId],
        result: T,
        elapsed_ns: u64,
    ) -> (r: ConsensusResult<T>)
        requires
            old(self).wf(),
            plan is Agreed ==> old(self).enhancement is Some,
        ensures
            final(self).wf(),
            r.result == result,
            r.participants@ == participants@,
            r.threshold_reached == (plan is Agreed),
            r.protocol_type == (if plan is Agreed {
                ConsensusProtocol::Threshold
            } else {
                ConsensusProtocol::SingleNode
            }),
            match plan {
                ConsensusPlan::SingleNode => *final(self) == *old(self),
                ConsensusPlan::Agreed(id) => {
                    &&& Self::same_node(*old(self), *final(self))
                    &&& final(self).enhancement->0.config == old(self).enhancement->0.config
                    &&& final(self).enhancement->0.participant_keys == old(self).enhancement->0.participant_keys
                    &&& final(self).enhancement->0.frost_keys == old(self).enhancement->0.frost_keys
                    &&& final(self).enhancement->0.pending_operations@ == old(self).enhancement->0.pending_operations@.remove(id.id)
                    &&& final(self).enhancement->0.stats == old(self).enhancement->0.stats.with_consensus(elapsed_ns)
                },
            },
    {
        if let ConsensusPlan::Agreed(id) = plan {
            if let Some(e) = &mut self.enhancement {
                return e.complete_consensus(id, participants, result, elapsed_ns);
            }
        }
        ConsensusResult {
            result,
            participants: copy_ids(participants),
            threshold_reached: false,
            protocol_type: ConsensusProtocol::SingleNode,
        }
    }

    /// A signature in the name of the signers.
    pub fn threshold_sign(&mut self, message: &[u8], signers: &[ParticipantId]) -> (r: Result<
        ThresholdSignature,
        ThresholdError,
    >)
        requires
            old(self).wf(),
        ensures
            final(self).wf(),
            Self::same_but_stats(*old(self), *final(self)),
            match old(self).enhancement {
                None => r == Err::<ThresholdSignature, ThresholdError>(
                    ThresholdError::SignaturesUnavailable,
                ),
                Some(e) => match e.frost_keys {
                    None => {
                        &&& r == Err::<ThresholdSignature, ThresholdError>(
                            ThresholdError::SignaturesNotConfigured,
                        )
                        &&& final(self).enhancement->0.stats == e.stats
                    },
                    Some(keys) => {
                        &&& r is Ok
                        &&& r->Ok_0.signature@ == Seq::new(64, |i: int| 0u8)
                        &&& r->Ok_0.signers@ == signers@
                        &&& r->Ok_0.threshold == keys.threshold
                        &&& exists|nanos: u64|
                            final(self).enhancement->0.stats == #[trigger] e.stats.with_signature(nanos)
                    },
                },
            },
    {
        match &mut self.enhancement {
            Some(e) => e.threshold_sign(message, signers),
            None => Err(ThresholdError::SignaturesUnavailable),
        }
    }

    /// Whether enough participants have signed; never without enhancement.
    pub fn verify_threshold_signature(&self, signature: &ThresholdSignature, message: &[u8]) -> (b:
        bool)
        ensures
            b == (self.enhancement is Some && self.enhancement->0.frost_keys is Some
                && signature.signers@.len() >= self.enhancement->0.frost_keys->0.threshold),
    {
        match &self.enhancement {
            Some(e) => e.verify_threshold_signature(signature, message),
            None => false,
        }
    }

    /// Shares a secret, so that any `threshold` of the shares give it back.
    pub fn share_secret(&mut self, secret: &[u8], threshold: u8, total_shares: u8) -> (r: Result<
        Vec<SecretShare>,
        ThresholdError,
    >)
        requires
            old(self).wf(),
        ensures
            final(self).wf(),
            Self::same_but_stats(*old(self), *final(self)),
            old(self).enhancement is None ==> r == Err::<Vec<SecretShare>, ThresholdError>(
                ThresholdError::SharingUnavailable,
            ),
            old(self).enhancement is Some ==> {
                &&& r is Ok <==> 1 <= threshold < total_shares
                &&& r is Err ==> {
                    &&& r->Err_0 == ThresholdError::InvalidScheme { threshold, total_shares }
                    &&& final(self).enhancement->0.stats == old(self).enhancement->0.stats
                }
                &&& r is Ok ==> {
                    let shares = r->Ok_0@;
                    &&& shares.len() == total_shares
                    &&& forall|i: int|
                        0 <= i < shares.len() ==> {
                            &&& (#[trigger] shares[i]).participant_id == i + 1
                            &&& shares[i].threshold == threshold
                            &&& shares[i].total_shares == total_shares
                        }
                    &&& shares_recover(secret_share_views(shares), threshold as nat, secret@)
                    &&& exists|nanos: u64|
                        final(self).enhancement->0.stats == #[trigger] old(self).enhancement->0.stats.with_sharing(nanos)
                }
            },
    {
        match &mut self.enhancement {
            Some(e) => e.share_secret(secret, threshold, total_shares),
            None => Err(ThresholdError::SharingUnavailable),
        }
    }

    /// Puts a secret together from its shares.
    pub fn reconstruct_secret(&mut self, shares: &[SecretShare]) -> (r: Result<
        Vec<u8>,
        ThresholdError,
    >)
        requires
            old(self).wf(),
        ensures
            final(self).wf(),
            Self::same_but_stats(*old(self), *final(self)),
            old(self).enhancement is None ==> r == Err::<Vec<u8>, ThresholdError>(
                ThresholdError::ReconstructionUnavailable,
            ),
            old(self).enhancement is Some ==> match reconstructed(shares@) {
                Ok(secret) => {
                    &&& r is Ok
                    &&& r->Ok_0@ == secret
                    &&& exists|nanos: u64|
                        final(self).enhancement->0.stats == #[trigger] old(self).enhancement->0.stats.with_reconstruction(nanos)
                },
                Err(e) => {
                    &&& r is Err
                    &&& r->Err_0 == e
                    &&& final(self).enhancement->0.stats == old(self).enhancement->0.stats
                },
            },
    {
        match &mut self.enhancement {
            Some(e) => e.reconstruct_secret(shares),
            None => Err(ThresholdError::ReconstructionUnavailable),
        }
    }
}

// ---------------------------------------------------------------------------
// What votes mean
// ---------------------------------------------------------------------------

/// One participant that does not accept stops an operation, and so do too few votes,
/// whatever they say; enough votes that all accept carry it.
pub proof fn one_refusal_stops_an_operation(
    votes: Map<ParticipantId, ParticipantVote>,
    threshold: u8,
    p: ParticipantId,
)
    ensures
        votes.dom().contains(p) && votes[p].decision != VoteDecision::Accept ==> decided(
            votes,
            threshold,
        ) is Err,
        votes.dom().len() < threshold ==> decided(votes, threshold) is Err,
        votes.dom().len() >= threshold && (forall|q: ParticipantId| #[trigger]
            votes.dom().contains(q) ==> votes[q].decision == VoteDecision::Accept) ==> decided(
            votes,
            threshold,
        ) is Ok,
        votes.dom().len() >= threshold && votes.dom().contains(p) && votes[p].decision
            != VoteDecision::Accept ==> decided(votes, threshold) == Err::<(), ThresholdError>(
            ThresholdError::ConflictingVotes,
        ),
{
}

/// A participant that is named again does not count again.
pub proof fn participants_count_once(participants: Seq<ParticipantId>, p: ParticipantId)
    ensures
        distinct(participants.push(p)) == distinct(participants) + (if participants.contains(p) {
            0nat
        } else {
            1nat
        }),
        distinct(Seq::empty()) == 0,
{
    lemma_distinct_push(participants, p);
    vstd::seq_lib::seq_to_set_is_finite(participants);
    assert(participants.to_set().contains(p) <==> participants.contains(p));
    assert(Seq::<ParticipantId>::empty().to_set() =~= Set::empty());
}

/// A vote succeeds, under the number of the operation, exactly where at least as many
/// different participants are named as are needed.
pub proof fn votes_need_different_participants(
    threshold: u8,
    participants: Seq<ParticipantId>,
    id: u64,
)
    ensures
        distinct(participants) <= participants.len(),
        vote_result(threshold, participants, id) is Ok <==> distinct(participants) >= threshold,
        vote_result(threshold, participants, id) is Ok ==> vote_result(
            threshold,
            participants,
            id,
        )->Ok_0.id == id,
        participants.len() < threshold ==> vote_result(
            threshold,
            participants,
            id,
        )->Err_0 is InsufficientParticipants,
        participants.len() >= threshold && distinct(participants) < threshold ==> vote_result(
            threshold,
            participants,
            id,
        )->Err_0 is ThresholdNotReached,
{
    vstd::seq_lib::seq_to_set_is_finite(participants);
    participants.lemma_cardinality_of_set();
}

/// Votes are those of the participants that were asked, on the operation that was put to
/// them.
pub proof fn votes_are_those_of_the_asked(
    votes: Map<ParticipantId, ParticipantVote>,
    participants: Seq<ParticipantId>,
    operation_id: OperationId,
    p: ParticipantId,
)
    requires
        votes_of(votes, participants, operation_id),
    ensures
        votes.dom().contains(p) <==> participants.contains(p),
        participants.contains(p) ==> votes[p].participant_id == p && votes[p].operation_id
            == operation_id && votes[p].decision is Accept,
        votes.dom().len() == distinct(participants),
{
    assert(participants.to_set().contains(p) <==> participants.contains(p));
}

/// No more participants are asked than it takes: one fewer would not have been enough, and
/// some are left only where those asked suffice.
pub proof fn no_more_are_asked_than_needed(
    participants: Seq<ParticipantId>,
    asked: int,
    threshold: u8,
)
    requires
        asked_enough(participants, asked, threshold),
    ensures
        asked <= participants.len(),
        asked > 1 ==> distinct(participants.subrange(0, asked - 1)) < threshold,
        asked < participants.len() ==> distinct(participants.subrange(0, asked)) >= threshold,
{
}

/// What is put to a vote is pending under its number with the participants and the time;
/// what was pending stays, and nothing else of the node changes. Too few participants put
/// nothing to a vote.
pub proof fn voting_touches_only_its_operation(
    before: ThresholdEnhancer,
    after: ThresholdEnhancer,
    id: u64,
    other: u64,
    participants: Seq<ParticipantId>,
    now: Instant,
)
    requires
        put_to_vote(before, after, id, participants, now),
        other != id,
    ensures
        after.config == before.config,
        after.frost_keys == before.frost_keys,
        after.participant_keys == before.participant_keys,
        after.stats == before.stats,
        after.pending_operations@.dom().contains(other)
            <==> before.pending_operations@.dom().contains(other),
        before.pending_operations@.dom().contains(other) ==> after.pending_operations@[other]
            == before.pending_operations@[other],
        participants.len() >= before.config.threshold ==> {
            let op = after.pending_operations@[id];
            &&& after.pending_operations@.dom().contains(id)
            &&& op.operation_id.id == id
            &&& op.participants@ == participants
            &&& op.started_at == now
            &&& op.status is Collecting
        },
{
}

/// Fewer shares than the first one asks for give nothing back, nor do none at all.
pub proof fn too_few_shares_give_nothing(shares: Seq<SecretShare>)
    ensures
        shares.len() == 0 ==> reconstructed(shares) is Err,
        shares.len() > 0 && shares.len() < shares[0].threshold ==> reconstructed(shares) is Err
            && reconstructed(shares)->Err_0 is InsufficientShares,
        reconstructed(shares) is Ok ==> shares.len() >= shares[0].threshold > 0,
{
}

/// Each kind of work counts under its own name, with its own time, and under no other.
pub proof fn work_is_counted_by_kind(s: ThresholdStats, nanos: u64)
    ensures
        ({
            let t = s.with_consensus(nanos);
            &&& t.consensus_operations == wrapped_sum(s.consensus_operations, 1)
            &&& t.consensus_time_ns == wrapped_sum(s.consensus_time_ns, nanos)
            &&& t.threshold_signatures == s.threshold_signatures
            &&& t.signature_time_ns == s.signature_time_ns
            &&& t.secret_shares == s.secret_shares
            &&& t.secret_reconstructions == s.secret_reconstructions
        }),
        ({
            let t = s.with_signature(nanos);
            &&& t.threshold_signatures == wrapped_sum(s.threshold_signatures, 1)
            &&& t.signature_time_ns == wrapped_sum(s.signature_time_ns, nanos)
            &&& t.consensus_operations == s.consensus_operations
            &&& t.secret_shares == s.secret_shares
            &&& t.secret_reconstructions == s.secret_reconstructions
        }),
        ({
            let t = s.with_sharing(nanos);
            &&& t.secret_shares == wrapped_sum(s.secret_shares, 1)
            &&& t.sharing_time_ns == wrapped_sum(s.sharing_time_ns, nanos)
            &&& t.secret_reconstructions == s.secret_reconstructions
            &&& t.consensus_operations == s.consensus_operations
            &&& t.threshold_signatures == s.threshold_signatures
        }),
        ({
            let t = s.with_reconstruction(nanos);
            &&& t.secret_reconstructions == wrapped_sum(s.secret_reconstructions, 1)
            &&& t.reconstruction_time_ns == wrapped_sum(s.reconstruction_time_ns, nanos)
            &&& t.secret_shares == s.secret_shares
            &&& t.consensus_operations == s.consensus_operations
            &&& t.threshold_signatures == s.threshold_signatures
        }),
{
}

/// Time is told per consensus, secrets put together per secret shared, and signatures per
/// second; where nothing was counted, as zero.
pub proof fn rates_are_told_per_unit(s: ThresholdStats, span: Duration, secs: u64)
    requires
        secs > 0,
    ensures
        s.consensus_operations > 0 ==> s.avg_consensus_latency_ns_spec().is(s.consensus_time_ns as int, s.consensus_operations as int),
        s.consensus_operations == 0 ==> s.avg_consensus_latency_ns_spec().is(0, 1),
        span.nanos == secs * 1_000_000_000 ==> s.signature_rate_spec(span).is(s.threshold_signatures as int, secs as int),
        span.nanos == 0 ==> s.signature_rate_spec(span).is(0, 1),
        s.secret_shares > 0 ==> s.sharing_efficiency_spec().is(s.secret_reconstructions as int, s.secret_shares as int),
        s.secret_shares == 0 ==> s.sharing_efficiency_spec().is(0, 1),
{
    assert((s.threshold_signatures) * 1_000_000_000 * secs == (s.threshold_signatures) * (secs * 1_000_000_000)) by (nonlinear_arith);
}

/// Participants agree where one more of them would not be needed: from the threshold
/// on, and not with one fewer. A participant who is named once more changes nothing,
/// and one who comes along never undoes an agreement.
pub proof fn agreement_needs_the_threshold(
    threshold: u8,
    participants: Seq<ParticipantId>,
    p: ParticipantId,
    r: Result<(), ThresholdError>,
    s: Result<(), ThresholdError>,
)
    requires
        agreed(threshold, participants, r),
        agreed(threshold, participants.push(p), s),
    ensures
        r is Ok <==> distinct(participants) >= threshold,
        r is Ok ==> s is Ok,
        participants.contains(p) ==> (r is Ok <==> s is Ok),
        r is Err && s is Ok ==> distinct(participants) + 1 == threshold && !participants.contains(
            p,
        ),
        r matches Err(ThresholdError::ThresholdNotReached { votes, required }) ==> votes
            < required && required == threshold,
        participants.len() < threshold ==> r is Err,
{
    lemma_distinct_push(participants, p);
    participants_count_once(participants, p);
    vstd::seq_lib::seq_to_set_is_finite(participants);
    participants.lemma_cardinality_of_set();
}

/// A signature stands from as many signers on as the threshold says, and more signers
/// never take that away.
pub proof fn signatures_need_the_threshold(
    threshold: u8,
    signers: Seq<ParticipantId>,
    p: ParticipantId,
)
    ensures
        enough_signers(threshold, signers) ==> enough_signers(threshold, signers.push(p)),
        signers.len() == threshold ==> enough_signers(threshold, signers),
        signers.len() + 1 == threshold ==> !enough_signers(threshold, signers) && enough_signers(
            threshold,
            signers.push(p),
        ),
        threshold > 0 ==> !enough_signers(threshold, Seq::empty()),
{
}

/// As it comes, more than half of five participants decide, and no more than needed for
/// that: two groups that decide have a participant in common. They have half a minute.
pub proof fn a_majority_decides()
    ensures
        2 * ThresholdConfig::standard().threshold > ThresholdConfig::standard().total_participants,
        2 * (ThresholdConfig::standard().threshold - 1)
            < ThresholdConfig::standard().total_participants,
        ThresholdConfig::standard().total_participants == 5,
        ThresholdConfig::standard().consensus_timeout.nanos == 30 * 1_000_000_000,
        ThresholdConfig::standard().enabled,
        ThresholdConfig::standard().enable_threshold_signatures,
        ThresholdConfig::standard().fallback_on_error,
{
}

/// Nothing counts before anything is done.
pub proof fn counters_start_at_zero()
    ensures
        ThresholdStats::none().consensus_operations == 0,
        ThresholdStats::none().consensus_time_ns == 0,
        ThresholdStats::none().threshold_signatures == 0,
        ThresholdStats::none().signature_time_ns == 0,
        ThresholdStats::none().secret_shares == 0,
        ThresholdStats::none().sharing_time_ns == 0,
        ThresholdStats::none().secret_reconstructions == 0,
        ThresholdStats::none().reconstruction_time_ns == 0,
{
}

/// What is signed or shared leaves the node as it was, enhanced or not, but for what is
/// counted: nothing pending and no key is lost.
pub proof fn nodes_keep_what_they_have<B>(
    a: ThresholdConsensus<B>,
    b: ThresholdConsensus<B>,
    c: ThresholdConsensus<B>,
)
    requires
        ThresholdConsensus::same_but_stats(a, b),
        ThresholdConsensus::same_but_stats(b, c),
    ensures
        ThresholdConsensus::same_but_stats(a, c),
        ThresholdConsensus::same_but_stats(a, a),
        a.enhancement is None ==> c == a,
        a.enhancement is Some ==> c.enhancement is Some && c.enhancement->0.pending_operations
            == a.enhancement->0.pending_operations && c.enhancement->0.participant_keys
            == a.enhancement->0.participant_keys,
{
}

} // verus!

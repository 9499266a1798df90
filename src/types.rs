use vstd::prelude::*;
use crate::codec::{current_timestamp, generate_id};
use crate::error::ConsensusError;

verus! {

/// A signed YES/NO vote on one proposal, as it travels between peers.
#[derive(Debug, Clone, PartialEq, Eq)]
pub struct Vote {
    pub vote_id: u32,
    /// Address bytes of the voter.
    pub vote_owner: Vec<u8>,
    pub proposal_id: u32,
    /// Unix seconds at signing.
    pub timestamp: u64,
    /// The choice: `true` is YES.
    pub vote: bool,
    /// Hash of this voter's previous vote in the chain (empty if none).
    pub parent_hash: Vec<u8>,
    /// Hash of the vote just before this one in the proposal (empty if first).
    pub received_hash: Vec<u8>,
    /// SHA-256 fingerprint of the fields above.
    pub vote_hash: Vec<u8>,
    /// 65-byte recoverable signature over the encoding with this field cleared.
    pub signature: Vec<u8>,
}

/// The mathematical content of a [`Vote`].
pub struct VoteView {
    pub vote_id: u32,
    pub vote_owner: Seq<u8>,
    pub proposal_id: u32,
    pub timestamp: u64,
    pub vote: bool,
    pub parent_hash: Seq<u8>,
    pub received_hash: Seq<u8>,
    pub vote_hash: Seq<u8>,
    pub signature: Seq<u8>,
}

impl View for Vote {
    type V = VoteView;

    open spec fn view(&self) -> VoteView {
        VoteView {
            vote_id: self.vote_id,
            vote_owner: self.vote_owner@,
            proposal_id: self.proposal_id,
            timestamp: self.timestamp,
            vote: self.vote,
            parent_hash: self.parent_hash@,
            received_hash: self.received_hash@,
            vote_hash: self.vote_hash@,
            signature: self.signature@,
        }
    }
}

/// The views of a sequence of votes.
pub open spec fn votes_view(votes: Seq<Vote>) -> Seq<VoteView> {
    votes.map_values(|v: Vote| v@)
}

/// A named YES/NO question put to a committee of a fixed size.
#[derive(Debug, Clone, PartialEq, Eq)]
pub struct Proposal {
    pub name: String,
    pub payload: Vec<u8>,
    pub proposal_id: u32,
    pub proposal_owner: Vec<u8>,
    /// Votes in the order they were accepted.
    pub votes: Vec<Vote>,
    pub expected_voters_count: u32,
    pub round: u32,
    /// Unix seconds at creation.
    pub timestamp: u64,
    /// Unix seconds after which votes are refused.
    pub expiration_timestamp: u64,
    pub liveness_criteria_yes: bool,
}

/// The mathematical content of a [`Proposal`].
pub struct ProposalView {
    pub name: Seq<char>,
    pub payload: Seq<u8>,
    pub proposal_id: u32,
    pub proposal_owner: Seq<u8>,
    pub votes: Seq<VoteView>,
    pub expected_voters_count: u32,
    pub round: u32,
    pub timestamp: u64,
    pub expiration_timestamp: u64,
    pub liveness_criteria_yes: bool,
}

impl View for Proposal {
    type V = ProposalView;

    open spec fn view(&self) -> ProposalView {
        ProposalView {
            name: self.name@,
            payload: self.payload@,
            proposal_id: self.proposal_id,
            proposal_owner: self.proposal_owner@,
            votes: votes_view(self.votes@),
            expected_voters_count: self.expected_voters_count,
            round: self.round,
            timestamp: self.timestamp,
            expiration_timestamp: self.expiration_timestamp,
            liveness_criteria_yes: self.liveness_criteria_yes,
        }
    }
}

/// Copies a byte vector.
pub fn copy_bytes(b: &Vec<u8>) -> (r: Vec<u8>)
    ensures
        r@ == b@,
{
    let mut r: Vec<u8> = Vec::with_capacity(b.len());
    let mut i: usize = 0;
    while i < b.len()
        invariant
            i <= b.len(),
            r@ == b@.subrange(0, i as int),
        decreases b.len() - i,
    {
        r.push(b[i]);
        i = i + 1;
        assert(r@ =~= b@.subrange(0, i as int));
    }
    assert(r@ =~= b@);
    r
}

/// Byte-wise equality of two byte vectors.
pub fn bytes_eq(a: &Vec<u8>, b: &Vec<u8>) -> (r: bool)
    ensures
        r == (a@ == b@),
{
    if a.len() != b.len() {
        return false;
    }
    let mut i: usize = 0;
    while i < a.len()
        invariant
            i <= a.len(),
            a.len() == b.len(),
            a@.subrange(0, i as int) == b@.subrange(0, i as int),
        decreases a.len() - i,
    {
        if a[i] != b[i] {
            assert(a@[i as int] != b@[i as int]);
            return false;
        }
        assert(a@.subrange(0, i + 1) =~= a@.subrange(0, i as int).push(a@[i as int]));
        assert(b@.subrange(0, i + 1) =~= b@.subrange(0, i as int).push(b@[i as int]));
        i = i + 1;
    }
    assert(a@ =~= a@.subrange(0, a.len() as int));
    assert(b@ =~= b@.subrange(0, b.len() as int));
    true
}

impl Vote {
    /// A copy of this vote.
    pub fn duplicate(&self) -> (r: Vote)
        ensures
            r@ == self@,
    {
        Vote {
            vote_id: self.vote_id,
            vote_owner: copy_bytes(&self.vote_owner),
            proposal_id: self.proposal_id,
            timestamp: self.timestamp,
            vote: self.vote,
            parent_hash: copy_bytes(&self.parent_hash),
            received_hash: copy_bytes(&self.received_hash),
            vote_hash: copy_bytes(&self.vote_hash),
            signature: copy_bytes(&self.signature),
        }
    }
}

/// Copies a sequence of votes.
pub fn copy_votes(votes: &Vec<Vote>) -> (r: Vec<Vote>)
    ensures
        votes_view(r@) == votes_view(votes@),
{
    let mut r: Vec<Vote> = Vec::new();
    let mut i: usize = 0;
    while i < votes.len()
        invariant
            i <= votes.len(),
            r@.len() == i,
            forall|k: int| 0 <= k < i ==> (#[trigger] r@[k])@ == votes@[k]@,
        decreases votes.len() - i,
    {
        let v = votes[i].duplicate();
        r.push(v);
        i = i + 1;
    }
    assert(votes_view(r@) =~= votes_view(votes@));
    r
}

impl Proposal {
    /// A copy of this proposal.
    pub fn duplicate(&self) -> (r: Proposal)
        ensures
            r@ == self@,
    {
        Proposal {
            name: self.name.clone(),
            payload: copy_bytes(&self.payload),
            proposal_id: self.proposal_id,
            proposal_owner: copy_bytes(&self.proposal_owner),
            votes: copy_votes(&self.votes),
            expected_voters_count: self.expected_voters_count,
            round: self.round,
            timestamp: self.timestamp,
            expiration_timestamp: self.expiration_timestamp,
            liveness_criteria_yes: self.liveness_criteria_yes,
        }
    }
}

/// A fraction `numerator / denominator` of the committee, such as the share of
/// voters needed before a decision is possible.
#[derive(Debug, Clone, Copy, PartialEq, Eq, Structural)]
pub struct Threshold {
    pub numerator: u32,
    pub denominator: u32,
}

impl Threshold {
    /// A threshold is usable when it lies in `[0, 1]`.
    pub open spec fn valid(self) -> bool {
        self.denominator > 0 && self.numerator <= self.denominator
    }

    /// The fraction `numerator / denominator`.
    pub fn new(numerator: u32, denominator: u32) -> (r: Threshold)
        ensures
            r.numerator == numerator,
            r.denominator == denominator,
    {
        Threshold { numerator, denominator }
    }

    /// The default threshold, two thirds.
    pub fn two_thirds() -> (r: Threshold)
        ensures
            r.numerator == 2,
            r.denominator == 3,
            r.valid(),
    {
        Threshold { numerator: 2, denominator: 3 }
    }
}

/// A lifecycle event published when a proposal leaves the active state.
#[derive(Debug, Clone, Copy, PartialEq, Eq, Structural)]
pub enum ConsensusEvent {
    /// The proposal was decided with the given result.
    ConsensusReached { proposal_id: u32, result: bool },
    /// Not enough votes were collected before the timeout.
    ConsensusFailed { proposal_id: u32 },
}

/// What a session reports after it took a vote or a batch of votes.
#[derive(Debug, Clone, Copy, PartialEq, Eq, Structural)]
pub enum SessionTransition {
    /// The session remains active with no outcome yet.
    StillActive,
    /// The session converged to a boolean result.
    ConsensusReached(bool),
}

/// A request to open a proposal.
#[derive(Debug, Clone)]
pub struct CreateProposalRequest {
    /// A short name for the proposal.
    pub name: String,
    /// What is being voted on.
    pub payload: Vec<u8>,
    /// Address bytes of the creator.
    pub proposal_owner: Vec<u8>,
    /// The committee size `n`.
    pub expected_voters_count: u32,
    /// Seconds from creation until votes are refused.
    pub expiration_timestamp: u64,
    /// Tie-break and silent-peer bias: `true` counts them as YES.
    pub liveness_criteria_yes: bool,
}

/// `a + b`, or `u64::MAX` when the sum does not fit.
pub open spec fn saturating_sum(a: u64, b: u64) -> u64 {
    if a + b > u64::MAX {
        u64::MAX
    } else {
        (a + b) as u64
    }
}

/// The proposal a request opens, with the given id, at time `now`.
pub open spec fn proposal_of(req: CreateProposalRequest, proposal_id: u32, now: u64) -> ProposalView {
    ProposalView {
        name: req.name@,
        payload: req.payload@,
        proposal_id,
        proposal_owner: req.proposal_owner@,
        votes: Seq::empty(),
        expected_voters_count: req.expected_voters_count,
        round: 1,
        timestamp: now,
        expiration_timestamp: saturating_sum(now, req.expiration_timestamp),
        liveness_criteria_yes: req.liveness_criteria_yes,
    }
}

impl CreateProposalRequest {
    /// A request, refused when the committee is empty or the expiry is zero seconds.
    pub fn new(
        name: String,
        payload: Vec<u8>,
        proposal_owner: Vec<u8>,
        expected_voters_count: u32,
        expiration_timestamp: u64,
        liveness_criteria_yes: bool,
    ) -> (r: Result<CreateProposalRequest, ConsensusError>)
        ensures
            expected_voters_count == 0 ==> r == Err::<CreateProposalRequest, _>(ConsensusError::InvalidExpectedVotersCount),
            expected_voters_count > 0 && expiration_timestamp == 0 ==> r == Err::<CreateProposalRequest, _>(ConsensusError::InvalidTimeout),
            expected_voters_count > 0 && expiration_timestamp > 0 ==> (r matches Ok(q) && q.name@ == name@
                && q.payload@ == payload@ && q.proposal_owner@ == proposal_owner@
                && q.expected_voters_count == expected_voters_count
                && q.expiration_timestamp == expiration_timestamp
                && q.liveness_criteria_yes == liveness_criteria_yes),
    {
        if expected_voters_count == 0 {
            return Err(ConsensusError::InvalidExpectedVotersCount);
        }
        if expiration_timestamp == 0 {
            return Err(ConsensusError::InvalidTimeout);
        }
        Ok(CreateProposalRequest {
            name,
            payload,
            proposal_owner,
            expected_voters_count,
            expiration_timestamp,
            liveness_criteria_yes,
        })
    }

    /// The proposal this request opens, with id `proposal_id`, created at `now`:
    /// round 1, no votes, expiring `expiration_timestamp` seconds later.
    pub fn into_proposal_at(self, proposal_id: u32, now: u64) -> (r: Proposal)
        ensures
            r@ == proposal_of(self, proposal_id, now),
    {
        let expiration = if self.expiration_timestamp > u64::MAX - now {
            u64::MAX
        } else {
            now + self.expiration_timestamp
        };
        let r = Proposal {
            name: self.name,
            payload: self.payload,
            proposal_id,
            proposal_owner: self.proposal_owner,
            votes: Vec::new(),
            expected_voters_count: self.expected_voters_count,
            round: 1,
            timestamp: now,
            expiration_timestamp: expiration,
            liveness_criteria_yes: self.liveness_criteria_yes,
        };
        assert(r@.votes =~= Seq::<VoteView>::empty());
        r
    }

    /// The proposal this request opens, with a random id, created now.
    pub fn into_proposal(self) -> (r: Result<Proposal, ConsensusError>)
        ensures
            match r {
                Ok(p) => p@ == proposal_of(self, p.proposal_id, p.timestamp),
                Err(e) => e == ConsensusError::FailedToGetCurrentTime,
            },
    {
        let proposal_id = generate_id();
        let now = current_timestamp()?;
        Ok(self.into_proposal_at(proposal_id, now))
    }
}

} // verus!

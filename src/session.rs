//! The per-proposal session: its configuration, state machine and round policy.
use vstd::prelude::*;
use crate::error::ConsensusError;
use crate::types::{
    bytes_eq, copy_votes, votes_view, Proposal, ProposalView, SessionTransition, Threshold, Vote,
    VoteView,
};
use crate::utils::{
    calculate_consensus_result, calculate_max_rounds, ceil_frac, chain_check, check_vote_integrity, consensus_of,
    proposal_check, validate_proposal_at, validate_vote_at, validate_vote_chain, vote_check,
    vote_integrity,
};

pub use crate::types::{ConsensusEvent, CreateProposalRequest};

verus! {

/// Another name for [`SessionTransition`].
pub type ConsensusTransition = SessionTransition;

/// The rules a session runs under.
#[derive(Debug, Clone, Copy, PartialEq, Eq, Structural)]
pub struct ConsensusConfig {
    /// Share of the committee that must vote before a decision is possible.
    pub consensus_threshold: Threshold,
    /// Seconds before an undecided session is finalized.
    pub consensus_timeout: u64,
    /// Round limit; in point-to-point mode 0 means `ceil(n * threshold)`.
    pub max_rounds: u32,
    /// Gossipsub round policy (every vote in round 2) instead of one round per vote.
    pub use_gossipsub_rounds: bool,
    /// Direction silent peers and ties are counted in.
    pub liveness_criteria: bool,
}

impl ConsensusConfig {
    /// A configuration whose threshold lies in `[0, 1]`.
    pub open spec fn wf(self) -> bool {
        self.consensus_threshold.valid()
    }

    /// A configuration with the given fields.
    pub fn new(
        consensus_threshold: Threshold,
        consensus_timeout: u64,
        max_rounds: u32,
        use_gossipsub_rounds: bool,
        liveness_criteria: bool,
    ) -> (r: ConsensusConfig)
        ensures
            r == (ConsensusConfig {
                consensus_threshold,
                consensus_timeout,
                max_rounds,
                use_gossipsub_rounds,
                liveness_criteria,
            }),
    {
        ConsensusConfig {
            consensus_threshold,
            consensus_timeout,
            max_rounds,
            use_gossipsub_rounds,
            liveness_criteria,
        }
    }

    /// Gossipsub defaults: threshold 2/3, 60 s, two rounds, liveness YES.
    pub fn gossipsub() -> (r: ConsensusConfig)
        ensures
            r.wf(),
            r == (ConsensusConfig {
                consensus_threshold: Threshold { numerator: 2, denominator: 3 },
                consensus_timeout: 60,
                max_rounds: 2,
                use_gossipsub_rounds: true,
                liveness_criteria: true,
            }),
    {
        ConsensusConfig::new(Threshold::two_thirds(), 60, 2, true, true)
    }

    /// Point-to-point defaults: threshold 2/3, 60 s, dynamic round limit, liveness YES.
    pub fn p2p() -> (r: ConsensusConfig)
        ensures
            r.wf(),
            r == (ConsensusConfig {
                consensus_threshold: Threshold { numerator: 2, denominator: 3 },
                consensus_timeout: 60,
                max_rounds: 0,
                use_gossipsub_rounds: false,
                liveness_criteria: true,
            }),
    {
        ConsensusConfig::new(Threshold::two_thirds(), 60, 0, false, true)
    }

    pub fn consensus_threshold(&self) -> (r: Threshold)
        ensures
            r == self.consensus_threshold,
    {
        self.consensus_threshold
    }

    pub fn consensus_timeout(&self) -> (r: u64)
        ensures
            r == self.consensus_timeout,
    {
        self.consensus_timeout
    }

    pub fn max_rounds(&self) -> (r: u32)
        ensures
            r == self.max_rounds,
    {
        self.max_rounds
    }

    pub fn use_gossipsub_rounds(&self) -> (r: bool)
        ensures
            r == self.use_gossipsub_rounds,
    {
        self.use_gossipsub_rounds
    }

    pub fn liveness_criteria(&self) -> (r: bool)
        ensures
            r == self.liveness_criteria,
    {
        self.liveness_criteria
    }
}

impl Default for ConsensusConfig {
    fn default() -> (r: ConsensusConfig)
        ensures
            r == (ConsensusConfig {
                consensus_threshold: Threshold { numerator: 2, denominator: 3 },
                consensus_timeout: 60,
                max_rounds: 2,
                use_gossipsub_rounds: true,
                liveness_criteria: true,
            }),
    {
        ConsensusConfig::gossipsub()
    }
}

/// Where a session stands. Both non-active states are terminal.
#[derive(Debug, Clone, Copy, PartialEq, Eq, Structural)]
pub enum ConsensusState {
    /// Votes still accepted.
    Active,
    /// Voting closed with a boolean result.
    ConsensusReached(bool),
    /// No decision could be made (round limit or timeout).
    Failed,
}

// ---------------------------------------------------------------------------
// Round policy.

/// The round of a session after `k` accepted votes.
pub open spec fn round_after(config: ConsensusConfig, k: nat) -> nat {
    if config.use_gossipsub_rounds {
        if k > 0 {
            2
        } else {
            1
        }
    } else {
        1 + k
    }
}

/// The highest round a committee of `n` may reach.
pub open spec fn round_limit(config: ConsensusConfig, n: nat) -> nat {
    if config.use_gossipsub_rounds || config.max_rounds != 0 {
        config.max_rounds as nat
    } else {
        ceil_frac(n, config.consensus_threshold)
    }
}

/// The round that adding `k` votes at round `round` is counted as.
pub open spec fn projected_round(config: ConsensusConfig, round: nat, k: nat) -> int {
    if config.use_gossipsub_rounds {
        if round > 1 || k > 0 {
            2
        } else {
            1
        }
    } else {
        round - 1 + k
    }
}

/// Adding `k` votes would pass the round limit (or a round that does not fit 32 bits).
pub open spec fn exceeds_round_limit(config: ConsensusConfig, n: nat, round: nat, k: nat) -> bool {
    projected_round(config, round, k) > round_limit(config, n) || (!config.use_gossipsub_rounds
        && round + k > u32::MAX)
}

// ---------------------------------------------------------------------------
// Sessions.

/// Whether no two votes share an owner.
pub open spec fn owners_distinct(votes: Seq<VoteView>) -> bool {
    forall|i: int, j: int|
        0 <= i < j < votes.len() ==> (#[trigger] votes[i]).vote_owner != (#[trigger] votes[j]).vote_owner
}

/// Whether some vote has the given owner.
pub open spec fn has_owner(votes: Seq<VoteView>, owner: Seq<u8>) -> bool {
    exists|i: int| 0 <= i < votes.len() && (#[trigger] votes[i]).vote_owner == owner
}

/// The set of owners of the votes.
pub open spec fn owner_set(votes: Seq<VoteView>) -> Set<Seq<u8>> {
    votes.map_values(|v: VoteView| v.vote_owner).to_set()
}

/// The mathematical content of a session.
pub struct SessionView {
    pub proposal: ProposalView,
    pub state: ConsensusState,
    pub created_at: u64,
    pub config: ConsensusConfig,
}

impl SessionView {
    /// The one-vote-per-owner map of accepted votes.
    pub open spec fn votes_map(self) -> Map<Seq<u8>, VoteView> {
        Map::new(
            |o: Seq<u8>| has_owner(self.proposal.votes, o),
            |o: Seq<u8>|
                self.proposal.votes[choose|i: int|
                    0 <= i < self.proposal.votes.len() && #[trigger] self.proposal.votes[i].vote_owner
                        == o],
        )
    }

    /// The session with `state` replaced.
    pub open spec fn with_state(self, state: ConsensusState) -> SessionView {
        SessionView { state, ..self }
    }

    /// The session after appending `batch` and advancing the round accordingly.
    pub open spec fn with_votes(self, batch: Seq<VoteView>) -> SessionView {
        let votes = self.proposal.votes + batch;
        SessionView {
            proposal: ProposalView {
                votes,
                round: round_after(self.config, votes.len()) as u32,
                ..self.proposal
            },
            ..self
        }
    }

    /// The tally over the session's votes.
    pub open spec fn decision(self) -> Option<bool> {
        consensus_of(
            self.proposal.votes,
            self.proposal.expected_voters_count as nat,
            self.config.consensus_threshold,
            self.proposal.liveness_criteria_yes,
        )
    }

    /// Runs the tally: a decision closes the session.
    pub open spec fn tally_step(self) -> (SessionView, SessionTransition) {
        match self.decision() {
            Some(b) => (self.with_state(ConsensusState::ConsensusReached(b)), SessionTransition::ConsensusReached(b)),
            None => (self, SessionTransition::StillActive),
        }
    }

    /// Adding `k` votes now would pass the round limit.
    pub open spec fn exceeds_rounds(self, k: nat) -> bool {
        exceeds_round_limit(
            self.config,
            self.proposal.expected_voters_count as nat,
            self.proposal.round as nat,
            k,
        )
    }

    /// What adding one vote at time `now` does: the new session and the result.
    pub open spec fn add_vote_outcome(self, v: VoteView, now: u64) -> (SessionView, Result<SessionTransition, ConsensusError>) {
        match self.state {
            ConsensusState::ConsensusReached(b) => (self, Ok(SessionTransition::ConsensusReached(b))),
            ConsensusState::Failed => (self, Err(ConsensusError::SessionNotActive)),
            ConsensusState::Active => {
                if now >= self.proposal.expiration_timestamp {
                    (self, Err(ConsensusError::VoteExpired))
                } else if self.exceeds_rounds(1) {
                    (self.with_state(ConsensusState::Failed), Err(ConsensusError::MaxRoundsExceeded))
                } else if has_owner(self.proposal.votes, v.vote_owner) {
                    (self, Err(ConsensusError::DuplicateVote))
                } else if vote_integrity(v) is Err {
                    (self, Err(vote_integrity(v)->Err_0))
                } else if chain_check(self.proposal.votes.push(v)) is Err {
                    (self, Err(chain_check(self.proposal.votes.push(v))->Err_0))
                } else {
                    let (s, t) = self.with_votes(seq![v]).tally_step();
                    (s, Ok(t))
                }
            },
        }
    }

    /// What ingesting a batch of votes at time `now` does.
    pub open spec fn initialize_outcome(
        self,
        batch: Seq<VoteView>,
        expiration_timestamp: u64,
        creation_time: u64,
        now: u64,
    ) -> (SessionView, Result<SessionTransition, ConsensusError>) {
        if self.state != ConsensusState::Active {
            (self, Err(ConsensusError::SessionNotActive))
        } else if now >= expiration_timestamp {
            (self, Err(ConsensusError::ProposalExpired))
        } else if batch.len() == 0 {
            let (s, t) = self.tally_step();
            (s, Ok(t))
        } else if !owners_distinct(self.proposal.votes + batch) {
            (self, Err(ConsensusError::DuplicateVote))
        } else if chain_check(self.proposal.votes + batch) is Err {
            (self, Err(chain_check(self.proposal.votes + batch)->Err_0))
        } else if batch_check_from(batch, expiration_timestamp, creation_time, now, 0) is Err {
            (self, Err(batch_check_from(batch, expiration_timestamp, creation_time, now, 0)->Err_0))
        } else if self.exceeds_rounds(batch.len()) {
            (self.with_state(ConsensusState::Failed), Err(ConsensusError::MaxRoundsExceeded))
        } else {
            let (s, t) = self.with_votes(batch).tally_step();
            (s, Ok(t))
        }
    }

    /// What the timeout does: keep a decision, else decide now or fail.
    pub open spec fn timeout_outcome(self) -> (SessionView, Result<bool, ConsensusError>) {
        match self.state {
            ConsensusState::ConsensusReached(b) => (self, Ok(b)),
            ConsensusState::Failed => (self, Err(ConsensusError::InsufficientVotesAtTimeout)),
            ConsensusState::Active => match self.decision() {
                Some(b) => (self.with_state(ConsensusState::ConsensusReached(b)), Ok(b)),
                None => (self.with_state(ConsensusState::Failed), Err(ConsensusError::InsufficientVotesAtTimeout)),
            },
        }
    }
}

/// The outcome of validating votes `i..` of a batch one by one.
pub open spec fn batch_check_from(
    batch: Seq<VoteView>,
    expiration_timestamp: u64,
    creation_time: u64,
    now: u64,
    i: int,
) -> Result<(), ConsensusError>
    decreases batch.len() - i,
{
    if i < 0 || i >= batch.len() {
        Ok(())
    } else {
        match vote_check(batch[i], expiration_timestamp, creation_time, now) {
            Err(e) => Err(e),
            Ok(_) => batch_check_from(batch, expiration_timestamp, creation_time, now, i + 1),
        }
    }
}

/// The state of one proposal in one scope.
#[derive(Debug, Clone)]
pub struct ConsensusSession {
    /// The proposal with the votes accepted so far, in order.
    pub proposal: Proposal,
    pub state: ConsensusState,
    /// Unix seconds when the session was created.
    pub created_at: u64,
    pub config: ConsensusConfig,
}

impl View for ConsensusSession {
    type V = SessionView;

    open spec fn view(&self) -> SessionView {
        SessionView {
            proposal: self.proposal@,
            state: self.state,
            created_at: self.created_at,
            config: self.config,
        }
    }
}

impl SessionView {
    /// Every accepted vote carries its own hash and a signature of its owner, the
    /// votes form a valid hash chain, no owner votes twice, the round matches the
    /// number of votes, a session that took votes is active only while its votes
    /// decide nothing, and a decided session holds the decision of its votes.
    pub open spec fn wf(self) -> bool {
        &&& self.wf_votes()
        &&& (self.state == ConsensusState::Active && self.proposal.votes.len() > 0 ==> self.decision() is None)
        &&& (self.state is ConsensusReached ==> self.decision() == Some(self.state->ConsensusReached_0))
    }

    /// [`SessionView::wf`] without the tie between state and votes: what holds
    /// between taking votes and running the tally.
    pub open spec fn wf_votes(self) -> bool {
        &&& self.config.wf()
        &&& owners_distinct(self.proposal.votes)
        &&& forall|i: int| 0 <= i < self.proposal.votes.len() ==> vote_integrity(#[trigger] self.proposal.votes[i]) is Ok
        &&& chain_check(self.proposal.votes) is Ok
        &&& self.proposal.round as nat == round_after(self.config, self.proposal.votes.len())
    }
}

/// The session a proposal starts as: its fields, no votes, round 1, active.
pub open spec fn fresh_session(p: ProposalView, config: ConsensusConfig, created_at: u64) -> SessionView {
    SessionView {
        proposal: ProposalView { votes: Seq::empty(), round: 1, ..p },
        state: ConsensusState::Active,
        created_at,
        config,
    }
}

proof fn lemma_batch_ok(batch: Seq<VoteView>, e: u64, c: u64, now: u64, i: int)
    requires
        0 <= i,
        batch_check_from(batch, e, c, now, i) is Ok,
    ensures
        forall|j: int| i <= j < batch.len() ==> vote_integrity(#[trigger] batch[j]) is Ok,
    decreases batch.len() - i,
{
    if i < batch.len() {
        lemma_batch_ok(batch, e, c, now, i + 1);
    }
}

/// The index of a vote among the first `upto` whose owner is `owner`, if any.
fn find_owner(votes: &Vec<Vote>, upto: usize, owner: &Vec<u8>) -> (r: Option<usize>)
    requires
        upto <= votes.len(),
    ensures
        match r {
            Some(j) => j < upto && votes@[j as int]@.vote_owner == owner@,
            None => forall|j: int| 0 <= j < upto ==> (#[trigger] votes@[j])@.vote_owner != owner@,
        },
{
    let mut j: usize = 0;
    while j < upto
        invariant
            j <= upto <= votes.len(),
            forall|k: int| 0 <= k < j ==> (#[trigger] votes@[k])@.vote_owner != owner@,
        decreases upto - j,
    {
        if bytes_eq(&votes[j].vote_owner, owner) {
            return Some(j);
        }
        j = j + 1;
    }
    None
}

/// Whether the owners of `existing` followed by `batch` are all distinct, given
/// that those of `existing` are.
fn owners_fresh(existing: &Vec<Vote>, batch: &Vec<Vote>) -> (r: bool)
    requires
        owners_distinct(votes_view(existing@)),
    ensures
        r == owners_distinct(votes_view(existing@) + votes_view(batch@)),
{
    let ghost ex = votes_view(existing@);
    let ghost bv = votes_view(batch@);
    let mut i: usize = 0;
    while i < batch.len()
        invariant
            i <= batch.len(),
            ex == votes_view(existing@),
            bv == votes_view(batch@),
            owners_distinct(ex + bv.subrange(0, i as int)),
        decreases batch.len() - i,
    {
        let ghost all = ex + bv;
        let owner = &batch[i].vote_owner;
        match find_owner(existing, existing.len(), owner) {
            Some(e) => {
                assert(all[e as int] == ex[e as int]);
                assert(all[ex.len() + i] == bv[i as int]);
                return false;
            },
            None => {},
        }
        match find_owner(batch, i, owner) {
            Some(j) => {
                assert(all[ex.len() + j] == bv[j as int]);
                assert(all[ex.len() + i] == bv[i as int]);
                return false;
            },
            None => {},
        }
        let ghost next = ex + bv.subrange(0, i + 1);
        assert forall|a: int, b: int| 0 <= a < b < next.len() implies (#[trigger] next[a]).vote_owner
            != (#[trigger] next[b]).vote_owner by {
            let prev = ex + bv.subrange(0, i as int);
            if b < next.len() - 1 {
                assert(next[a] == prev[a] && next[b] == prev[b]);
            } else if a < ex.len() {
                assert(next[a] == ex[a]);
                assert(existing@[a]@ == ex[a]);
            } else {
                assert(next[a] == bv[a - ex.len()]);
                assert(batch@[a - ex.len()]@ == bv[a - ex.len()]);
            }
        }
        i = i + 1;
    }
    assert(bv.subrange(0, batch.len() as int) =~= bv);
    true
}

impl ConsensusSession {
    /// Whether adding `k` votes now would pass the round limit.
    fn exceeds_rounds(&self, k: usize) -> (r: bool)
        requires
            self@.wf(),
        ensures
            r == self@.exceeds_rounds(k as nat),
    {
        if self.config.use_gossipsub_rounds {
            let projected: u32 = if self.proposal.round > 1 || k > 0 { 2 } else { 1 };
            projected > self.config.max_rounds
        } else {
            let limit: u32 = if self.config.max_rounds != 0 {
                self.config.max_rounds
            } else {
                calculate_max_rounds(self.proposal.expected_voters_count, self.config.consensus_threshold)
            };
            let projected: u128 = (self.proposal.round as u128) - 1 + (k as u128);
            projected > limit as u128 || (self.proposal.round as u128) + (k as u128) > u32::MAX as u128
        }
    }

    /// Runs the tally and closes the session on a decision.
    fn tally(&mut self) -> (r: SessionTransition)
        requires
            old(self)@.wf_votes(),
            old(self).state == ConsensusState::Active,
        ensures
            (final(self)@, r) == old(self)@.tally_step(),
            final(self)@.wf(),
    {
        match calculate_consensus_result(
            &self.proposal.votes,
            self.proposal.expected_voters_count,
            self.config.consensus_threshold,
            self.proposal.liveness_criteria_yes,
        ) {
            Some(b) => {
                self.state = ConsensusState::ConsensusReached(b);
                SessionTransition::ConsensusReached(b)
            },
            None => SessionTransition::StillActive,
        }
    }

    /// Accepts one vote at time `now`: it must carry its own hash, a signature of
    /// its owner, and link correctly onto the votes already accepted.
    pub fn add_vote(&mut self, vote: Vote, now: u64) -> (r: Result<SessionTransition, ConsensusError>)
        requires
            old(self)@.wf(),
        ensures
            (final(self)@, r) == old(self)@.add_vote_outcome(vote@, now),
            final(self)@.wf(),
    {
        match self.state {
            ConsensusState::ConsensusReached(b) => {
                return Ok(SessionTransition::ConsensusReached(b));
            },
            ConsensusState::Failed => {
                return Err(ConsensusError::SessionNotActive);
            },
            ConsensusState::Active => {},
        }
        if now >= self.proposal.expiration_timestamp {
            return Err(ConsensusError::VoteExpired);
        }
        if self.exceeds_rounds(1) {
            self.state = ConsensusState::Failed;
            return Err(ConsensusError::MaxRoundsExceeded);
        }
        if let Some(j) = find_owner(&self.proposal.votes, self.proposal.votes.len(), &vote.vote_owner) {
            assert(self@.proposal.votes[j as int].vote_owner == vote@.vote_owner);
            return Err(ConsensusError::DuplicateVote);
        }
        check_vote_integrity(&vote)?;
        let ghost before = self@;
        let ghost orig = self.proposal.votes@;
        let ghost v = vote@;
        self.proposal.votes.push(vote);
        assert(votes_view(self.proposal.votes@) =~= before.proposal.votes.push(v));
        if let Err(e) = validate_vote_chain(&self.proposal.votes) {
            let _ = self.proposal.votes.pop();
            assert(self.proposal.votes@ =~= orig);
            return Err(e);
        }
        self.proposal.round = if self.config.use_gossipsub_rounds {
            2
        } else {
            self.proposal.round + 1
        };
        proof {
            assert(self@.proposal.votes =~= before.proposal.votes + seq![v]);
            assert(!has_owner(before.proposal.votes, v.vote_owner));
            let vs = self@.proposal.votes;
            assert forall|a: int, b: int| 0 <= a < b < vs.len() implies (#[trigger] vs[a]).vote_owner
                != (#[trigger] vs[b]).vote_owner by {
                if b == vs.len() - 1 {
                    assert(before.proposal.votes[a] == vs[a]);
                } else {
                    assert(before.proposal.votes[a] == vs[a] && before.proposal.votes[b] == vs[b]);
                }
            }
            assert forall|a: int| 0 <= a < vs.len() implies vote_integrity(#[trigger] vs[a]) is Ok by {
                if a < vs.len() - 1 {
                    assert(before.proposal.votes[a] == vs[a]);
                }
            }
            assert(self@ == before.with_votes(seq![v]));
        }
        Ok(self.tally())
    }

    /// Ingests a batch of votes all at once, as when a proposal arrives with votes:
    /// nothing is committed unless every check passes.
    pub fn initialize_with_votes(
        &mut self,
        votes: Vec<Vote>,
        expiration_timestamp: u64,
        creation_time: u64,
        now: u64,
    ) -> (r: Result<SessionTransition, ConsensusError>)
        requires
            old(self)@.wf(),
        ensures
            (final(self)@, r) == old(self)@.initialize_outcome(
                votes_view(votes@),
                expiration_timestamp,
                creation_time,
                now,
            ),
            final(self)@.wf(),
    {
        let ghost batch = votes_view(votes@);
        if self.state != ConsensusState::Active {
            return Err(ConsensusError::SessionNotActive);
        }
        if now >= expiration_timestamp {
            return Err(ConsensusError::ProposalExpired);
        }
        if votes.len() == 0 {
            return Ok(self.tally());
        }
        if !owners_fresh(&self.proposal.votes, &votes) {
            return Err(ConsensusError::DuplicateVote);
        }
        let mut combined = copy_votes(&self.proposal.votes);
        let mut extra = copy_votes(&votes);
        let ghost c1 = combined@;
        let ghost c2 = extra@;
        combined.append(&mut extra);
        assert(votes_view(combined@) =~= self@.proposal.votes + batch) by {
            assert forall|k: int| 0 <= k < combined@.len() implies #[trigger] votes_view(combined@)[k]
                == (self@.proposal.votes + batch)[k] by {
                if k < c1.len() {
                    assert(votes_view(c1)[k] == c1[k]@);
                } else {
                    assert(votes_view(c2)[k - c1.len()] == c2[k - c1.len()]@);
                }
            }
        }
        validate_vote_chain(&combined)?;
        let mut i: usize = 0;
        while i < votes.len()
            invariant
                i <= votes.len(),
                batch == votes_view(votes@),
                self@ == old(self)@,
                old(self)@.wf(),
                self.state == ConsensusState::Active,
                now < expiration_timestamp,
                votes.len() > 0,
                owners_distinct(self@.proposal.votes + batch),
                chain_check(self@.proposal.votes + batch) is Ok,
                batch_check_from(batch, expiration_timestamp, creation_time, now, 0)
                    == batch_check_from(batch, expiration_timestamp, creation_time, now, i as int),
            decreases votes.len() - i,
        {
            assert(batch[i as int] == votes@[i as int]@);
            validate_vote_at(&votes[i], expiration_timestamp, creation_time, now)?;
            i = i + 1;
        }
        if self.exceeds_rounds(votes.len()) {
            self.state = ConsensusState::Failed;
            return Err(ConsensusError::MaxRoundsExceeded);
        }
        proof {
            lemma_batch_ok(batch, expiration_timestamp, creation_time, now, 0);
        }
        let ghost before = self@;
        let k = votes.len();
        let mut votes = votes;
        self.proposal.votes.append(&mut votes);
        self.proposal.round = if self.config.use_gossipsub_rounds {
            2
        } else {
            self.proposal.round + k as u32
        };
        proof {
            let vs = self@.proposal.votes;
            assert(vs =~= before.proposal.votes + batch);
            assert forall|a: int| 0 <= a < vs.len() implies vote_integrity(#[trigger] vs[a]) is Ok by {
                if a < before.proposal.votes.len() {
                    assert(before.proposal.votes[a] == vs[a]);
                } else {
                    assert(batch[a - before.proposal.votes.len()] == vs[a]);
                }
            }
            assert(self@ == before.with_votes(batch));
        }
        Ok(self.tally())
    }

    /// Finalizes the session at its timeout: a decision stands, an active session
    /// is decided now if the votes allow it, and fails otherwise.
    pub fn handle_timeout(&mut self) -> (r: Result<bool, ConsensusError>)
        requires
            old(self)@.wf(),
        ensures
            (final(self)@, r) == old(self)@.timeout_outcome(),
            final(self)@.wf(),
    {
        match self.state {
            ConsensusState::ConsensusReached(b) => Ok(b),
            ConsensusState::Failed => Err(ConsensusError::InsufficientVotesAtTimeout),
            ConsensusState::Active => {
                match calculate_consensus_result(
                    &self.proposal.votes,
                    self.proposal.expected_voters_count,
                    self.config.consensus_threshold,
                    self.proposal.liveness_criteria_yes,
                ) {
                    Some(b) => {
                        self.state = ConsensusState::ConsensusReached(b);
                        Ok(b)
                    },
                    None => {
                        self.state = ConsensusState::Failed;
                        Err(ConsensusError::InsufficientVotesAtTimeout)
                    },
                }
            },
        }
    }

    /// A fresh, active session for a proposal that holds no votes yet.
    pub fn new(proposal: Proposal, config: ConsensusConfig, created_at: u64) -> (r: ConsensusSession)
        requires
            proposal@.votes.len() == 0,
            proposal.round == 1,
            config.wf(),
        ensures
            r@ == fresh_session(proposal@, config, created_at),
            r@.wf(),
    {
        let r = ConsensusSession { proposal, state: ConsensusState::Active, created_at, config };
        assert(r@.proposal.votes =~= Seq::<VoteView>::empty());
        assert(r@ == fresh_session(proposal@, config, created_at));
        r
    }

    /// Builds a session from a proposal received whole (or just created), checking
    /// the proposal and every vote in it at time `now` before taking the votes.
    pub fn from_proposal(proposal: Proposal, config: ConsensusConfig, created_at: u64, now: u64) -> (r: Result<
        (ConsensusSession, SessionTransition),
        ConsensusError,
    >)
        requires
            config.wf(),
        ensures
            ({
                let fresh = fresh_session(proposal@, config, created_at);
                let out = fresh.initialize_outcome(
                    proposal@.votes,
                    proposal.expiration_timestamp,
                    proposal.timestamp,
                    now,
                );
                match r {
                    Ok((s, t)) => proposal_check(proposal@, now) is Ok && s@ == out.0 && out.1 == Ok::<
                        SessionTransition,
                        ConsensusError,
                    >(t) && s@.wf(),
                    Err(e) => proposal_check(proposal@, now) == Err::<(), ConsensusError>(e) || (
                    proposal_check(proposal@, now) is Ok && out.1 == Err::<SessionTransition, ConsensusError>(e)),
                }
            }),
    {
        validate_proposal_at(&proposal, now)?;
        let expiration_timestamp = proposal.expiration_timestamp;
        let creation_time = proposal.timestamp;
        let Proposal {
            name,
            payload,
            proposal_id,
            proposal_owner,
            votes,
            expected_voters_count,
            round: _,
            timestamp,
            expiration_timestamp: _,
            liveness_criteria_yes,
        } = proposal;
        let clean = Proposal {
            name,
            payload,
            proposal_id,
            proposal_owner,
            votes: Vec::new(),
            expected_voters_count,
            round: 1,
            timestamp,
            expiration_timestamp,
            liveness_criteria_yes,
        };
        let mut session = ConsensusSession {
            proposal: clean,
            state: ConsensusState::Active,
            created_at,
            config,
        };
        assert(session@.proposal.votes =~= Seq::<VoteView>::empty());
        assert(session@ == fresh_session(proposal@, config, created_at));
        let t = session.initialize_with_votes(votes, expiration_timestamp, creation_time, now)?;
        Ok((session, t))
    }

    /// Whether the session still accepts votes.
    pub fn is_active(&self) -> (r: bool)
        ensures
            r == (self.state == ConsensusState::Active),
    {
        match self.state {
            ConsensusState::Active => true,
            _ => false,
        }
    }

    /// The decision, if one was reached.
    pub fn is_reached(&self) -> (r: Option<bool>)
        ensures
            r == (match self.state {
                ConsensusState::ConsensusReached(b) => Some(b),
                _ => None,
            }),
    {
        match self.state {
            ConsensusState::ConsensusReached(b) => Some(b),
            _ => None,
        }
    }

    /// The decision, or why there is none.
    pub fn get_consensus_result(&self) -> (r: Result<bool, ConsensusError>)
        ensures
            r == session_result(self.state),
    {
        match self.state {
            ConsensusState::ConsensusReached(b) => Ok(b),
            ConsensusState::Failed => Err(ConsensusError::ConsensusFailed),
            ConsensusState::Active => Err(ConsensusError::ConsensusNotReached),
        }
    }

    /// A copy of this session.
    pub fn duplicate(&self) -> (r: ConsensusSession)
        ensures
            r@ == self@,
    {
        ConsensusSession {
            proposal: self.proposal.duplicate(),
            state: self.state,
            created_at: self.created_at,
            config: self.config,
        }
    }

    /// How many votes were accepted.
    pub fn votes_count(&self) -> (r: usize)
        ensures
            r == self@.proposal.votes.len(),
    {
        self.proposal.votes.len()
    }

    /// Whether the owner has a vote in this session.
    pub fn has_voted(&self, owner: &Vec<u8>) -> (r: bool)
        ensures
            r == has_owner(self@.proposal.votes, owner@),
    {
        match find_owner(&self.proposal.votes, self.proposal.votes.len(), owner) {
            Some(j) => {
                assert(self@.proposal.votes[j as int].vote_owner == owner@);
                true
            },
            None => {
                assert forall|i: int| 0 <= i < self@.proposal.votes.len() implies (#[trigger] self@.proposal.votes[i]).vote_owner != owner@ by {
                    assert(self@.proposal.votes[i] == self.proposal.votes@[i]@);
                }
                false
            },
        }
    }
}

/// The answer to "what was decided" for a session in the given state.
pub open spec fn session_result(state: ConsensusState) -> Result<bool, ConsensusError> {
    match state {
        ConsensusState::ConsensusReached(b) => Ok(b),
        ConsensusState::Failed => Err(ConsensusError::ConsensusFailed),
        ConsensusState::Active => Err(ConsensusError::ConsensusNotReached),
    }
}

} // verus!

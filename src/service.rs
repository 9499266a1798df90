//! The consensus service: the public operations over the session registry.
//!
//! Every operation is one synchronous step on the registry; the caller supplies the
//! clock reading, fresh identifiers and signatures, runs timers, and publishes the
//! events that the returned transitions call for.
use vstd::prelude::*;
use std::collections::HashMap;
use crate::error::ConsensusError;
use crate::scope_config::{consensus_config_of, scope_config_check, ScopeConfig, ScopeConfigBuilder};
use crate::session::{
    fresh_session, has_owner, session_result, ConsensusConfig, ConsensusSession, ConsensusState,
    SessionView,
};
use crate::storage::{
    list_of, lookup, position_of, replaced, trimmed, upsert, ConsensusStorage, InMemoryConsensusStorage,
};
use crate::types::{
    proposal_of, saturating_sum, ConsensusEvent, CreateProposalRequest, Proposal, ProposalView,
    SessionTransition, Threshold, Vote,
};
use crate::utils::{
    built_vote, build_vote_at, check_proposal_timestamp, proposal_check, has_sufficient_votes, required_votes, validate_expected_voters_count, validate_threshold, validate_timeout,
    validate_vote_at, vote_check,
};

verus! {

broadcast use vstd::std_specs::hash::group_hash_axioms;

/// The global defaults: Gossipsub rounds, threshold 2/3, 60 s, liveness YES.
pub open spec fn default_consensus_config() -> ConsensusConfig {
    ConsensusConfig {
        consensus_threshold: Threshold { numerator: 2, denominator: 3 },
        consensus_timeout: 60,
        max_rounds: 2,
        use_gossipsub_rounds: true,
        liveness_criteria: true,
    }
}

/// Resolution order: explicit override, then the scope's configuration, then the
/// global defaults; a proposal then sets the timeout to its own lifetime and the
/// liveness bias to its own.
pub open spec fn resolved_config(
    override_config: Option<ConsensusConfig>,
    scope_config: Option<ScopeConfig>,
    proposal: Option<ProposalView>,
) -> ConsensusConfig {
    let base = match override_config {
        Some(c) => c,
        None => match scope_config {
            Some(sc) => consensus_config_of(sc),
            None => default_consensus_config(),
        },
    };
    match proposal {
        Some(p) => ConsensusConfig {
            consensus_timeout: if p.expiration_timestamp > p.timestamp {
                (p.expiration_timestamp - p.timestamp) as u64
            } else {
                base.consensus_timeout
            },
            liveness_criteria: p.liveness_criteria_yes,
            ..base
        },
        None => base,
    }
}

impl ConsensusService<InMemoryConsensusStorage> {
    /// A service holding at most `max_sessions_per_scope` sessions per scope.
    pub fn new_with_max_sessions(max_sessions_per_scope: usize) -> (r: ConsensusService<InMemoryConsensusStorage>)
        ensures
            r.wf(),
            r.max_sessions() == max_sessions_per_scope,
            r.sessions() == Map::<Seq<char>, Seq<SessionView>>::empty(),
            r.configs() == Map::<Seq<char>, ScopeConfig>::empty(),
    {
        ConsensusService::new_with_components(InMemoryConsensusStorage::new(), max_sessions_per_scope)
    }

    /// A service holding at most ten sessions per scope.
    pub fn new() -> (r: ConsensusService<InMemoryConsensusStorage>)
        ensures
            r.wf(),
            r.max_sessions() == 10,
            r.sessions() == Map::<Seq<char>, Seq<SessionView>>::empty(),
            r.configs() == Map::<Seq<char>, ScopeConfig>::empty(),
    {
        ConsensusService::new_with_max_sessions(10)
    }

}

/// The configuration stored for scope `s`, if any.
pub open spec fn config_for(m: Map<Seq<char>, ScopeConfig>, s: Seq<char>) -> Option<ScopeConfig> {
    if m.contains_key(s) {
        Some(m[s])
    } else {
        None
    }
}

/// Why a request cannot open a proposal at time `now` under `cfg`, if it cannot.
pub open spec fn creation_error(req: CreateProposalRequest, cfg: ConsensusConfig, now: u64) -> Option<ConsensusError> {
    if req.expected_voters_count == 0 {
        Some(ConsensusError::InvalidExpectedVotersCount)
    } else if req.expiration_timestamp == 0 {
        Some(ConsensusError::InvalidTimeout)
    } else if !cfg.wf() {
        Some(ConsensusError::InvalidConsensusThreshold)
    } else if now >= saturating_sum(now, req.expiration_timestamp) {
        Some(ConsensusError::ProposalExpired)
    } else {
        None
    }
}

/// Shortening (or keeping) one scope's list keeps every scope within the bound.
proof fn lemma_bound_kept(
    before: Map<Seq<char>, Seq<SessionView>>,
    after: Map<Seq<char>, Seq<SessionView>>,
    scope: Seq<char>,
    max: nat,
)
    requires
        forall|k: Seq<char>| #[trigger] before.contains_key(k) ==> before[k].len() <= max,
        after == before || (before.contains_key(scope) && after == before.insert(scope, after[scope])
            && after[scope].len() <= before[scope].len()),
    ensures
        forall|k: Seq<char>| #[trigger] after.contains_key(k) ==> after[k].len() <= max,
{
    assert forall|k: Seq<char>| #[trigger] after.contains_key(k) implies after[k].len() <= max by {
        assert(before.contains_key(k));
    }
}

/// The event a transition calls for, if any.
pub open spec fn transition_event_of(proposal_id: u32, t: SessionTransition) -> Option<ConsensusEvent> {
    match t {
        SessionTransition::ConsensusReached(result) => Some(ConsensusEvent::ConsensusReached { proposal_id, result }),
        SessionTransition::StillActive => None,
    }
}

/// The proposals of the still-active sessions, in order.
pub open spec fn active_proposals(list: Seq<SessionView>) -> Seq<ProposalView>
    decreases list.len(),
{
    if list.len() == 0 {
        Seq::empty()
    } else {
        let rest = active_proposals(list.drop_last());
        if list.last().state == ConsensusState::Active {
            rest.push(list.last().proposal)
        } else {
            rest
        }
    }
}

/// `(proposal_id, result)` of the decided sessions, in order.
pub open spec fn reached_results(list: Seq<SessionView>) -> Seq<(u32, bool)>
    decreases list.len(),
{
    if list.len() == 0 {
        Seq::empty()
    } else {
        let rest = reached_results(list.drop_last());
        match list.last().state {
            ConsensusState::ConsensusReached(b) => rest.push((list.last().proposal.proposal_id, b)),
            _ => rest,
        }
    }
}

/// 0 for an active state, 1 for a failed one, 2 for a decided one.
pub open spec fn state_class(st: ConsensusState) -> nat {
    match st {
        ConsensusState::Active => 0,
        ConsensusState::Failed => 1,
        ConsensusState::ConsensusReached(_) => 2,
    }
}

/// The decided sessions' results, by proposal id.
pub open spec fn reached_map(list: Seq<SessionView>) -> Map<u32, bool>
    decreases list.len(),
{
    if list.len() == 0 {
        Map::empty()
    } else {
        let rest = reached_map(list.drop_last());
        match list.last().state {
            ConsensusState::ConsensusReached(b) => rest.insert(list.last().proposal.proposal_id, b),
            _ => rest,
        }
    }
}

/// How many sessions of the list are in a state of class `c`.
pub open spec fn count_in_state(list: Seq<SessionView>, c: nat) -> nat
    decreases list.len(),
{
    if list.len() == 0 {
        0
    } else {
        count_in_state(list.drop_last(), c) + if state_class(list.last().state) == c { 1nat } else { 0nat }
    }
}

/// Counts of the sessions of one scope.
#[derive(Debug, Clone, Copy, PartialEq, Eq, Structural)]
pub struct ConsensusStats {
    pub total_sessions: usize,
    pub active_sessions: usize,
    pub failed_sessions: usize,
    pub consensus_reached: usize,
}

/// The consensus service over a session registry, by default the in-memory one.
pub struct ConsensusService<S: ConsensusStorage = InMemoryConsensusStorage> {
    storage: S,
    max_sessions_per_scope: usize,
}

impl<S: ConsensusStorage> ConsensusService<S> {
    /// The sessions of each known scope.
    pub closed spec fn sessions(self) -> Map<Seq<char>, Seq<SessionView>> {
        self.storage.sessions()
    }

    /// The configuration of each configured scope.
    pub closed spec fn configs(self) -> Map<Seq<char>, ScopeConfig> {
        self.storage.configs()
    }

    /// The bound on the number of sessions per scope.
    pub closed spec fn max_sessions(self) -> nat {
        self.max_sessions_per_scope as nat
    }

    /// The registry is well formed, no scope holds more sessions than the bound,
    /// and every stored scope configuration is valid.
    pub closed spec fn wf(self) -> bool {
        &&& self.storage.wf()
        &&& forall|k: Seq<char>| #[trigger] self.storage.sessions().contains_key(k)
            ==> self.storage.sessions()[k].len() <= self.max_sessions_per_scope
        &&& forall|k: Seq<char>| #[trigger] self.storage.configs().contains_key(k)
            ==> scope_config_check(self.storage.configs()[k]) is Ok
    }

    /// Every stored session is well formed and ids are unique within a scope.
    pub proof fn lemma_sessions_wf(self)
        requires
            self.wf(),
        ensures
            forall|k: Seq<char>| #[trigger] self.sessions().contains_key(k) ==> crate::storage::scope_list_wf(self.sessions()[k]),
    {
        self.storage.lemma_lists_wf();
    }

    /// No scope ever holds more sessions than the service's bound.
    pub proof fn lemma_scope_bound(self, scope: Seq<char>)
        requires
            self.wf(),
            self.sessions().contains_key(scope),
        ensures
            self.sessions()[scope].len() <= self.max_sessions(),
    {
    }

    /// A service over `storage`, holding at most `max_sessions_per_scope` sessions
    /// per scope; the registry must already be within that bound and hold only
    /// valid scope configurations.
    pub fn new_with_components(storage: S, max_sessions_per_scope: usize) -> (r: ConsensusService<S>)
        requires
            storage.wf(),
            forall|k: Seq<char>| #[trigger] storage.sessions().contains_key(k)
                ==> storage.sessions()[k].len() <= max_sessions_per_scope,
            forall|k: Seq<char>| #[trigger] storage.configs().contains_key(k)
                ==> scope_config_check(storage.configs()[k]) is Ok,
        ensures
            r.wf(),
            r.max_sessions() == max_sessions_per_scope,
            r.sessions() == storage.sessions(),
            r.configs() == storage.configs(),
    {
        ConsensusService { storage, max_sessions_per_scope }
    }

    /// The configuration a proposal of `scope` runs under.
    pub fn resolve_config(
        &self,
        scope: &String,
        proposal_override: Option<ConsensusConfig>,
        proposal: Option<&Proposal>,
    ) -> (r: ConsensusConfig)
        requires
            self.wf(),
        ensures
            r == resolved_config(
                proposal_override,
                config_for(self.configs(), scope@),
                match proposal { Some(p) => Some(p@), None => None },
            ),
    {
        let base = match proposal_override {
            Some(c) => c,
            None => match self.storage.get_scope_config(scope) {
                Some(sc) => sc.to_consensus_config(),
                None => ConsensusConfig::gossipsub(),
            },
        };
        match proposal {
            Some(p) => {
                let timeout = if p.expiration_timestamp > p.timestamp {
                    p.expiration_timestamp - p.timestamp
                } else {
                    base.consensus_timeout
                };
                ConsensusConfig::new(
                    base.consensus_threshold,
                    timeout,
                    base.max_rounds,
                    base.use_gossipsub_rounds,
                    p.liveness_criteria_yes,
                )
            },
            None => base,
        }
    }

    /// Stores a session and trims its scope back to the bound.
    fn insert_session(&mut self, scope: &String, session: ConsensusSession)
        requires
            old(self).wf(),
            session@.wf(),
        ensures
            final(self).wf(),
            final(self).max_sessions() == old(self).max_sessions(),
            final(self).configs() == old(self).configs(),
            final(self).sessions().dom() == old(self).sessions().dom().insert(scope@),
            forall|k: Seq<char>| k != scope@ ==> #[trigger] list_of(final(self).sessions(), k) == list_of(old(self).sessions(), k),
            trimmed(
                upsert(list_of(old(self).sessions(), scope@), session@),
                list_of(final(self).sessions(), scope@),
                old(self).max_sessions(),
            ),
    {
        let ghost mid_target = old(self).sessions().insert(scope@, upsert(list_of(old(self).sessions(), scope@), session@));
        self.storage.save_session(scope, session);
        assert(self.storage.sessions() == mid_target);
        self.storage.trim_scope_sessions(scope, self.max_sessions_per_scope);
        proof {
            assert forall|k: Seq<char>| #[trigger] self.storage.sessions().contains_key(k) implies self.storage.sessions()[k].len()
                <= self.max_sessions_per_scope by {
                if k != scope@ {
                    assert(list_of(self.storage.sessions(), k) == list_of(mid_target, k));
                    assert(mid_target[k] == old(self).storage.sessions()[k]);
                } else {
                    assert(list_of(self.storage.sessions(), k) == self.storage.sessions()[k]);
                }
            }
            assert forall|k: Seq<char>| k != scope@ implies #[trigger] list_of(self.sessions(), k) == list_of(old(self).sessions(), k) by {
                assert(list_of(self.storage.sessions(), k) == list_of(mid_target, k));
            }
            assert(self.sessions().dom() =~= old(self).sessions().dom().insert(scope@));
        }
    }
}

impl<S: ConsensusStorage> ConsensusService<S> {
    proof fn lemma_resolved_wf(self, scope: Seq<char>, p: ProposalView)
        requires
            self.wf(),
        ensures
            resolved_config(None, config_for(self.configs(), scope), Some(p)).wf(),
    {
        if self.configs().contains_key(scope) {
            assert(scope_config_check(self.storage.configs()[scope]) is Ok);
        }
    }

    /// Opens a proposal in `scope` with id `proposal_id` at time `now`, under the
    /// given configuration or else the scope's or the global one.
    pub fn create_proposal_with_config(
        &mut self,
        scope: &String,
        request: CreateProposalRequest,
        config: Option<ConsensusConfig>,
        proposal_id: u32,
        now: u64,
    ) -> (r: Result<Proposal, ConsensusError>)
        requires
            old(self).wf(),
        ensures
            final(self).wf(),
            final(self).max_sessions() == old(self).max_sessions(),
            final(self).configs() == old(self).configs(),
            ({
                let p = proposal_of(request, proposal_id, now);
                let cfg = resolved_config(config, config_for(old(self).configs(), scope@), Some(p));
                match r {
                    Ok(q) => {
                        &&& creation_error(request, cfg, now) is None
                        &&& q@ == p
                        &&& final(self).sessions().dom() == old(self).sessions().dom().insert(scope@)
                        &&& forall|k: Seq<char>| k != scope@ ==> #[trigger] list_of(final(self).sessions(), k) == list_of(old(self).sessions(), k)
                        &&& trimmed(
                            upsert(list_of(old(self).sessions(), scope@), fresh_session(p, cfg, now)),
                            list_of(final(self).sessions(), scope@),
                            old(self).max_sessions(),
                        )
                    },
                    Err(e) => final(self).sessions() == old(self).sessions() && creation_error(request, cfg, now) == Some(e),
                }
            }),
    {
        let ghost req = request;
        validate_expected_voters_count(request.expected_voters_count)?;
        validate_timeout(request.expiration_timestamp)?;
        let proposal = request.into_proposal_at(proposal_id, now);
        let cfg = self.resolve_config(scope, config, Some(&proposal));
        validate_threshold(cfg.consensus_threshold)?;
        check_proposal_timestamp(proposal.expiration_timestamp, now)?;
        let session = ConsensusSession::new(proposal.duplicate(), cfg, now);
        self.insert_session(scope, session);
        Ok(proposal)
    }

    /// Opens a proposal under the scope's (or the global) configuration.
    pub fn create_proposal(&mut self, scope: &String, request: CreateProposalRequest, proposal_id: u32, now: u64) -> (r:
        Result<Proposal, ConsensusError>)
        requires
            old(self).wf(),
        ensures
            final(self).wf(),
            final(self).max_sessions() == old(self).max_sessions(),
            final(self).configs() == old(self).configs(),
            ({
                let p = proposal_of(request, proposal_id, now);
                let cfg = resolved_config(None, config_for(old(self).configs(), scope@), Some(p));
                &&& cfg.wf()
                &&& match r {
                    Ok(q) => {
                        &&& creation_error(request, cfg, now) is None
                        &&& q@ == p
                        &&& final(self).sessions().dom() == old(self).sessions().dom().insert(scope@)
                        &&& forall|k: Seq<char>| k != scope@ ==> #[trigger] list_of(final(self).sessions(), k) == list_of(old(self).sessions(), k)
                        &&& trimmed(
                            upsert(list_of(old(self).sessions(), scope@), fresh_session(p, cfg, now)),
                            list_of(final(self).sessions(), scope@),
                            old(self).max_sessions(),
                        )
                    },
                    Err(e) => final(self).sessions() == old(self).sessions() && creation_error(request, cfg, now) == Some(e),
                }
            }),
    {
        proof {
            self.lemma_resolved_wf(scope@, proposal_of(request, proposal_id, now));
        }
        self.create_proposal_with_config(scope, request, None, proposal_id, now)
    }

    /// The first half of casting a vote: checks that `voter` may vote on the
    /// proposal at time `now` and builds the vote, hashed but not yet signed.
    pub fn prepare_vote(
        &self,
        scope: &String,
        proposal_id: u32,
        choice: bool,
        voter: Vec<u8>,
        vote_id: u32,
        now: u64,
    ) -> (r: Result<Vote, ConsensusError>)
        requires
            self.wf(),
        ensures
            match lookup(self.sessions(), scope@, proposal_id) {
                None => r == Err::<Vote, _>(ConsensusError::SessionNotFound),
                Some(s) => if now >= s.proposal.expiration_timestamp {
                    r == Err::<Vote, _>(ConsensusError::VoteExpired)
                } else if has_owner(s.proposal.votes, voter@) {
                    r == Err::<Vote, _>(ConsensusError::UserAlreadyVoted)
                } else {
                    r matches Ok(v) && v@ == built_vote(s.proposal, choice, voter@, vote_id, now)
                },
            },
    {
        let session = match self.storage.get_session(scope, proposal_id) {
            None => {
                return Err(ConsensusError::SessionNotFound);
            },
            Some(s) => s,
        };
        if now >= session.proposal.expiration_timestamp {
            return Err(ConsensusError::VoteExpired);
        }
        if session.has_voted(&voter) {
            return Err(ConsensusError::UserAlreadyVoted);
        }
        Ok(build_vote_at(&session.proposal, choice, voter, vote_id, now))
    }

    /// The second half of casting a vote: checks the signed vote's hash and
    /// signature, then adds it to its session as one step.
    pub fn cast_signed_vote(&mut self, scope: &String, vote: Vote, now: u64) -> (r: Result<SessionTransition, ConsensusError>)
        requires
            old(self).wf(),
        ensures
            final(self).wf(),
            final(self).max_sessions() == old(self).max_sessions(),
            final(self).configs() == old(self).configs(),
            match lookup(old(self).sessions(), scope@, vote.proposal_id) {
                None => r == Err::<SessionTransition, _>(ConsensusError::SessionNotFound)
                    && final(self).sessions() == old(self).sessions(),
                Some(s) => {
                    let (s2, out) = s.add_vote_outcome(vote@, now);
                    r == out && final(self).sessions() == replaced(old(self).sessions(), scope@, vote.proposal_id, s2)
                },
            },
    {
        let pid = vote.proposal_id;
        self.apply_vote(scope, pid, vote, now)
    }

    fn apply_vote(&mut self, scope: &String, pid: u32, vote: Vote, now: u64) -> (r: Result<SessionTransition, ConsensusError>)
        requires
            old(self).wf(),
        ensures
            final(self).wf(),
            final(self).max_sessions() == old(self).max_sessions(),
            final(self).configs() == old(self).configs(),
            match lookup(old(self).sessions(), scope@, pid) {
                None => r == Err::<SessionTransition, _>(ConsensusError::SessionNotFound)
                    && final(self).sessions() == old(self).sessions(),
                Some(s) => {
                    let (s2, out) = s.add_vote_outcome(vote@, now);
                    r == out && final(self).sessions() == replaced(old(self).sessions(), scope@, pid, s2)
                },
            },
    {
        let r = self.storage.add_vote(scope, pid, vote, now);
        proof {
            lemma_bound_kept(old(self).storage.sessions(), self.storage.sessions(), scope@, self.max_sessions_per_scope as nat);
        }
        r
    }

    /// Ingests a proposal received from another peer, with its votes, at time `now`.
    pub fn process_incoming_proposal(&mut self, scope: &String, proposal: Proposal, now: u64) -> (r: Result<
        SessionTransition,
        ConsensusError,
    >)
        requires
            old(self).wf(),
        ensures
            final(self).wf(),
            final(self).max_sessions() == old(self).max_sessions(),
            final(self).configs() == old(self).configs(),
            lookup(old(self).sessions(), scope@, proposal.proposal_id) is Some ==> r == Err::<SessionTransition, _>(
                ConsensusError::ProposalAlreadyExist,
            ) && final(self).sessions() == old(self).sessions(),
            lookup(old(self).sessions(), scope@, proposal.proposal_id) is None ==> ({
                let cfg = resolved_config(None, config_for(old(self).configs(), scope@), Some(proposal@));
                let out = fresh_session(proposal@, cfg, now).initialize_outcome(
                    proposal@.votes,
                    proposal.expiration_timestamp,
                    proposal.timestamp,
                    now,
                );
                match r {
                    Ok(t) => {
                        &&& proposal_check(proposal@, now) is Ok
                        &&& out.1 == Ok::<SessionTransition, ConsensusError>(t)
                        &&& final(self).sessions().dom() == old(self).sessions().dom().insert(scope@)
                        &&& forall|k: Seq<char>| k != scope@ ==> #[trigger] list_of(final(self).sessions(), k) == list_of(old(self).sessions(), k)
                        &&& trimmed(
                            upsert(list_of(old(self).sessions(), scope@), out.0),
                            list_of(final(self).sessions(), scope@),
                            old(self).max_sessions(),
                        )
                    },
                    Err(e) => final(self).sessions() == old(self).sessions() && (proposal_check(proposal@, now)
                        == Err::<(), ConsensusError>(e) || (proposal_check(proposal@, now) is Ok && out.1
                        == Err::<SessionTransition, ConsensusError>(e))),
                }
            }),
    {
        if self.storage.get_session(scope, proposal.proposal_id).is_some() {
            return Err(ConsensusError::ProposalAlreadyExist);
        }
        let cfg = self.resolve_config(scope, None, Some(&proposal));
        proof {
            self.lemma_resolved_wf(scope@, proposal@);
        }
        let (session, t) = ConsensusSession::from_proposal(proposal, cfg, now, now)?;
        self.insert_session(scope, session);
        Ok(t)
    }

    /// Ingests a single vote received from another peer, at time `now`.
    pub fn process_incoming_vote(&mut self, scope: &String, vote: Vote, now: u64) -> (r: Result<
        SessionTransition,
        ConsensusError,
    >)
        requires
            old(self).wf(),
        ensures
            final(self).wf(),
            final(self).max_sessions() == old(self).max_sessions(),
            final(self).configs() == old(self).configs(),
            match lookup(old(self).sessions(), scope@, vote.proposal_id) {
                None => r == Err::<SessionTransition, _>(ConsensusError::SessionNotFound)
                    && final(self).sessions() == old(self).sessions(),
                Some(s) => {
                    let check = vote_check(vote@, s.proposal.expiration_timestamp, s.proposal.timestamp, now);
                    if check is Err {
                        r == Err::<SessionTransition, _>(check->Err_0) && final(self).sessions() == old(self).sessions()
                    } else {
                        let (s2, out) = s.add_vote_outcome(vote@, now);
                        r == out && final(self).sessions() == replaced(old(self).sessions(), scope@, vote.proposal_id, s2)
                    }
                },
            },
    {
        let session = match self.storage.get_session(scope, vote.proposal_id) {
            None => {
                return Err(ConsensusError::SessionNotFound);
            },
            Some(s) => s,
        };
        validate_vote_at(&vote, session.proposal.expiration_timestamp, session.proposal.timestamp, now)?;
        let pid = vote.proposal_id;
        self.apply_vote(scope, pid, vote, now)
    }
}

impl<S: ConsensusStorage> ConsensusService<S> {
    /// The decision on a proposal, or why there is none.
    pub fn get_consensus_result(&self, scope: &String, proposal_id: u32) -> (r: Result<bool, ConsensusError>)
        requires
            self.wf(),
        ensures
            match lookup(self.sessions(), scope@, proposal_id) {
                None => r == Err::<bool, _>(ConsensusError::SessionNotFound),
                Some(s) => r == session_result(s.state),
            },
    {
        match self.storage.get_session(scope, proposal_id) {
            None => Err(ConsensusError::SessionNotFound),
            Some(s) => s.get_consensus_result(),
        }
    }

    /// The proposal with the votes accepted so far.
    pub fn get_proposal(&self, scope: &String, proposal_id: u32) -> (r: Result<Proposal, ConsensusError>)
        requires
            self.wf(),
        ensures
            match lookup(self.sessions(), scope@, proposal_id) {
                None => r == Err::<Proposal, _>(ConsensusError::SessionNotFound),
                Some(s) => r matches Ok(p) && p@ == s.proposal,
            },
    {
        match self.storage.get_session(scope, proposal_id) {
            None => Err(ConsensusError::SessionNotFound),
            Some(s) => Ok(s.proposal),
        }
    }

    /// The payload of a proposal.
    pub fn get_proposal_payload(&self, scope: &String, proposal_id: u32) -> (r: Result<Vec<u8>, ConsensusError>)
        requires
            self.wf(),
        ensures
            match lookup(self.sessions(), scope@, proposal_id) {
                None => r == Err::<Vec<u8>, _>(ConsensusError::SessionNotFound),
                Some(s) => r matches Ok(b) && b@ == s.proposal.payload,
            },
    {
        match self.storage.get_session(scope, proposal_id) {
            None => Err(ConsensusError::SessionNotFound),
            Some(s) => Ok(s.proposal.payload),
        }
    }

    /// Whether a proposal has as many votes as a decision needs.
    pub fn has_sufficient_votes_for_proposal(&self, scope: &String, proposal_id: u32) -> (r: Result<bool, ConsensusError>)
        requires
            self.wf(),
        ensures
            match lookup(self.sessions(), scope@, proposal_id) {
                None => r == Err::<bool, _>(ConsensusError::SessionNotFound),
                Some(s) => r == Ok::<bool, ConsensusError>(
                    s.proposal.votes.len() >= required_votes(s.proposal.expected_voters_count as nat, s.config.consensus_threshold),
                ),
            },
    {
        proof {
            self.lemma_sessions_wf();
        }
        match self.storage.get_session(scope, proposal_id) {
            None => Err(ConsensusError::SessionNotFound),
            Some(s) => {
                proof {
                    let list = self.sessions()[scope@];
                    let j = position_of(list, proposal_id)->Some_0;
                    assert(list[j].wf());
                }
                let total = s.votes_count();
                if total > u32::MAX as usize {
                    proof {
                        crate::utils::lemma_required_at_most_n(
                            s.proposal.expected_voters_count as nat,
                            s.config.consensus_threshold,
                        );
                    }
                    Ok(true)
                } else {
                    Ok(has_sufficient_votes(total as u32, s.proposal.expected_voters_count, s.config.consensus_threshold))
                }
            },
        }
    }

    /// Finalizes a proposal at its timeout: a decision stands; an active session is
    /// decided from its votes if they allow it, and fails otherwise.
    pub fn handle_consensus_timeout(&mut self, scope: &String, proposal_id: u32) -> (r: Result<bool, ConsensusError>)
        requires
            old(self).wf(),
        ensures
            final(self).wf(),
            final(self).max_sessions() == old(self).max_sessions(),
            final(self).configs() == old(self).configs(),
            match lookup(old(self).sessions(), scope@, proposal_id) {
                None => r == Err::<bool, _>(ConsensusError::SessionNotFound) && final(self).sessions()
                    == old(self).sessions(),
                Some(s) => {
                    let (s2, out) = s.timeout_outcome();
                    r == out && final(self).sessions() == replaced(old(self).sessions(), scope@, proposal_id, s2)
                },
            },
    {
        let r = self.storage.handle_timeout(scope, proposal_id);
        proof {
            lemma_bound_kept(old(self).storage.sessions(), self.storage.sessions(), scope@, self.max_sessions_per_scope as nat);
        }
        r
    }

    /// The proposals of the scope that still accept votes; `None` when there are none.
    pub fn get_active_proposals(&self, scope: &String) -> (r: Result<Option<Vec<Proposal>>, ConsensusError>)
        requires
            self.wf(),
        ensures
            !self.sessions().contains_key(scope@) ==> r == Err::<Option<Vec<Proposal>>, _>(ConsensusError::ScopeNotFound),
            self.sessions().contains_key(scope@) ==> {
                let want = active_proposals(self.sessions()[scope@]);
                match r {
                    Ok(Some(v)) => want.len() > 0 && v@.map_values(|p: Proposal| p@) == want,
                    Ok(None) => want.len() == 0,
                    Err(_) => false,
                }
            },
    {
        let sessions = match self.storage.list_scope_sessions(scope) {
            None => {
                return Err(ConsensusError::ScopeNotFound);
            },
            Some(v) => v,
        };
        let ghost list = crate::storage::sessions_view(sessions@);
        let mut out: Vec<Proposal> = Vec::new();
        let mut i: usize = 0;
        while i < sessions.len()
            invariant
                i <= sessions.len(),
                list == crate::storage::sessions_view(sessions@),
                out@.map_values(|p: Proposal| p@) == active_proposals(list.subrange(0, i as int)),
            decreases sessions.len() - i,
        {
            assert(list.subrange(0, i + 1).drop_last() =~= list.subrange(0, i as int));
            assert(list[i as int] == sessions@[i as int]@);
            if sessions[i].is_active() {
                let ghost before = out@;
                out.push(sessions[i].proposal.duplicate());
                assert(out@.map_values(|p: Proposal| p@) =~= before.map_values(|p: Proposal| p@).push(sessions@[i as int].proposal@));
            }
            i = i + 1;
        }
        assert(list.subrange(0, sessions.len() as int) =~= list);
        if out.len() == 0 {
            return Ok(None);
        }
        Ok(Some(out))
    }

    /// `(proposal_id, result)` of the scope's decided proposals; `None` when there are none.
    pub fn get_reached_proposals(&self, scope: &String) -> (r: Result<Option<HashMap<u32, bool>>, ConsensusError>)
        requires
            self.wf(),
        ensures
            !self.sessions().contains_key(scope@) ==> r == Err::<Option<HashMap<u32, bool>>, _>(ConsensusError::ScopeNotFound),
            self.sessions().contains_key(scope@) ==> {
                let list = self.sessions()[scope@];
                match r {
                    Ok(Some(m)) => reached_results(list).len() > 0 && m@ == reached_map(list),
                    Ok(None) => reached_results(list).len() == 0,
                    Err(_) => false,
                }
            },
    {
        let sessions = match self.storage.list_scope_sessions(scope) {
            None => {
                return Err(ConsensusError::ScopeNotFound);
            },
            Some(v) => v,
        };
        let ghost list = crate::storage::sessions_view(sessions@);
        let mut out: Vec<(u32, bool)> = Vec::new();
        let mut results: HashMap<u32, bool> = HashMap::new();
        let mut i: usize = 0;
        while i < sessions.len()
            invariant
                i <= sessions.len(),
                list == crate::storage::sessions_view(sessions@),
                out@ == reached_results(list.subrange(0, i as int)),
                results@ == reached_map(list.subrange(0, i as int)),
            decreases sessions.len() - i,
        {
            assert(list.subrange(0, i + 1).drop_last() =~= list.subrange(0, i as int));
            assert(list[i as int] == sessions@[i as int]@);
            if let Some(b) = sessions[i].is_reached() {
                out.push((sessions[i].proposal.proposal_id, b));
                results.insert(sessions[i].proposal.proposal_id, b);
            }
            i = i + 1;
        }
        assert(list.subrange(0, sessions.len() as int) =~= list);
        if out.len() == 0 {
            return Ok(None);
        }
        Ok(Some(results))
    }

    /// Counts of the scope's sessions by state; all zero for an unknown scope.
    pub fn get_scope_stats(&self, scope: &String) -> (r: ConsensusStats)
        requires
            self.wf(),
        ensures
            ({
                let list = list_of(self.sessions(), scope@);
                &&& r.total_sessions == list.len()
                &&& r.active_sessions == count_in_state(list, 0)
                &&& r.failed_sessions == count_in_state(list, 1)
                &&& r.consensus_reached == count_in_state(list, 2)
            }),
    {
        let sessions = match self.storage.list_scope_sessions(scope) {
            None => {
                return ConsensusStats { total_sessions: 0, active_sessions: 0, failed_sessions: 0, consensus_reached: 0 };
            },
            Some(v) => v,
        };
        let ghost list = crate::storage::sessions_view(sessions@);
        let mut active: usize = 0;
        let mut failed: usize = 0;
        let mut reached: usize = 0;
        let mut i: usize = 0;
        while i < sessions.len()
            invariant
                i <= sessions.len(),
                list == crate::storage::sessions_view(sessions@),
                active == count_in_state(list.subrange(0, i as int), 0),
                failed == count_in_state(list.subrange(0, i as int), 1),
                reached == count_in_state(list.subrange(0, i as int), 2),
                active <= i && failed <= i && reached <= i,
            decreases sessions.len() - i,
        {
            assert(list.subrange(0, i + 1).drop_last() =~= list.subrange(0, i as int));
            assert(list[i as int] == sessions@[i as int]@);
            match sessions[i].state {
                ConsensusState::Active => {
                    active = active + 1;
                },
                ConsensusState::Failed => {
                    failed = failed + 1;
                },
                ConsensusState::ConsensusReached(_) => {
                    reached = reached + 1;
                },
            }
            i = i + 1;
        }
        assert(list.subrange(0, sessions.len() as int) =~= list);
        ConsensusStats {
            total_sessions: sessions.len(),
            active_sessions: active,
            failed_sessions: failed,
            consensus_reached: reached,
        }
    }

    /// Sets the scope's configuration, once it validates.
    pub fn initialize_scope(&mut self, scope: &String, config: ScopeConfig) -> (r: Result<(), ConsensusError>)
        requires
            old(self).wf(),
        ensures
            final(self).wf(),
            final(self).max_sessions() == old(self).max_sessions(),
            final(self).sessions() == old(self).sessions(),
            r == scope_config_check(config),
            r is Ok ==> final(self).configs() == old(self).configs().insert(scope@, config),
            r is Err ==> final(self).configs() == old(self).configs(),
    {
        config.validate()?;
        self.storage.set_scope_config(scope, config);
        Ok(())
    }

    /// Replaces the scope's configuration, once the new one validates.
    pub fn update_scope_config(&mut self, scope: &String, config: ScopeConfig) -> (r: Result<(), ConsensusError>)
        requires
            old(self).wf(),
        ensures
            final(self).wf(),
            final(self).max_sessions() == old(self).max_sessions(),
            final(self).sessions() == old(self).sessions(),
            r == scope_config_check(config),
            r is Ok ==> final(self).configs() == old(self).configs().insert(scope@, config),
            r is Err ==> final(self).configs() == old(self).configs(),
    {
        self.initialize_scope(scope, config)
    }

    /// The configuration set for the scope, if any.
    pub fn get_scope_config(&self, scope: &String) -> (r: Option<ScopeConfig>)
        requires
            self.wf(),
        ensures
            r == config_for(self.configs(), scope@),
    {
        self.storage.get_scope_config(scope)
    }

    /// A builder that starts from the scope's configuration, or the defaults.
    pub fn scope(&self, scope: &String) -> (r: ScopeConfigBuilder)
        requires
            self.wf(),
        ensures
            r.current() == match config_for(self.configs(), scope@) {
                Some(c) => c,
                None => crate::scope_config::default_scope_config(crate::scope_config::NetworkType::Gossipsub),
            },
    {
        match self.storage.get_scope_config(scope) {
            Some(c) => ScopeConfigBuilder::from_existing(c),
            None => ScopeConfigBuilder::new(),
        }
    }

    /// Drops the session with id `proposal_id` from `scope`; later operations on it
    /// find no session.
    pub fn remove_session(&mut self, scope: &String, proposal_id: u32) -> (r: Option<ConsensusSession>)
        requires
            old(self).wf(),
        ensures
            final(self).wf(),
            final(self).max_sessions() == old(self).max_sessions(),
            final(self).configs() == old(self).configs(),
            match lookup(old(self).sessions(), scope@, proposal_id) {
                None => r is None && final(self).sessions() == old(self).sessions(),
                Some(s) => r matches Some(x) && x@ == s && final(self).sessions() == old(self).sessions().insert(
                    scope@,
                    old(self).sessions()[scope@].remove(position_of(old(self).sessions()[scope@], proposal_id)->Some_0),
                ),
            },
    {
        let r = self.storage.remove_session(scope, proposal_id);
        proof {
            lemma_bound_kept(old(self).storage.sessions(), self.storage.sessions(), scope@, self.max_sessions_per_scope as nat);
        }
        r
    }

    /// The state of the session with id `proposal_id` in `scope`, if there is one.
    pub fn session_state(&self, scope: &String, proposal_id: u32) -> (r: Option<ConsensusState>)
        requires
            self.wf(),
        ensures
            r == match lookup(self.sessions(), scope@, proposal_id) {
                Some(s) => Some(s.state),
                None => None::<ConsensusState>,
            },
    {
        match self.storage.get_session(scope, proposal_id) {
            Some(s) => Some(s.state),
            None => None,
        }
    }

    /// The bound on sessions per scope.
    pub fn max_sessions_per_scope(&self) -> (r: usize)
        ensures
            r == self.max_sessions(),
    {
        self.max_sessions_per_scope
    }
}

/// The event to publish after a vote or an ingested proposal, if any.
pub fn transition_event(proposal_id: u32, transition: SessionTransition) -> (r: Option<ConsensusEvent>)
    ensures
        r == transition_event_of(proposal_id, transition),
{
    match transition {
        SessionTransition::ConsensusReached(result) => Some(ConsensusEvent::ConsensusReached { proposal_id, result }),
        SessionTransition::StillActive => None,
    }
}

/// The event a vote calls for, given the session's state before it: a decision,
/// or a failure at the round limit, of a session that was active.
pub open spec fn vote_event_of(
    proposal_id: u32,
    previous: Option<ConsensusState>,
    outcome: Result<SessionTransition, ConsensusError>,
) -> Option<ConsensusEvent> {
    if previous == Some(ConsensusState::Active) {
        match outcome {
            Ok(SessionTransition::ConsensusReached(result)) => Some(ConsensusEvent::ConsensusReached { proposal_id, result }),
            Err(ConsensusError::MaxRoundsExceeded) => Some(ConsensusEvent::ConsensusFailed { proposal_id }),
            _ => None,
        }
    } else {
        None
    }
}

/// The event a timeout calls for, given the session's state before it: its
/// outcome, when the session was active.
pub open spec fn timeout_event_of(
    proposal_id: u32,
    previous: Option<ConsensusState>,
    outcome: Result<bool, ConsensusError>,
) -> Option<ConsensusEvent> {
    if previous == Some(ConsensusState::Active) {
        match outcome {
            Ok(result) => Some(ConsensusEvent::ConsensusReached { proposal_id, result }),
            Err(ConsensusError::InsufficientVotesAtTimeout) => Some(ConsensusEvent::ConsensusFailed { proposal_id }),
            Err(_) => None,
        }
    } else {
        None
    }
}

/// The event that a change of state from `before` to `after` calls for: one
/// exactly when an active session becomes decided or failed.
pub open spec fn state_change_event(proposal_id: u32, before: ConsensusState, after: ConsensusState) -> Option<
    ConsensusEvent,
> {
    if before == ConsensusState::Active {
        match after {
            ConsensusState::ConsensusReached(result) => Some(ConsensusEvent::ConsensusReached { proposal_id, result }),
            ConsensusState::Failed => Some(ConsensusEvent::ConsensusFailed { proposal_id }),
            ConsensusState::Active => None,
        }
    } else {
        None
    }
}

/// The event to publish after a vote on a session whose state was `previous`
/// (`None`: no such session).
pub fn vote_event(
    proposal_id: u32,
    previous: Option<ConsensusState>,
    outcome: &Result<SessionTransition, ConsensusError>,
) -> (r: Option<ConsensusEvent>)
    ensures
        r == vote_event_of(proposal_id, previous, *outcome),
{
    match previous {
        Some(ConsensusState::Active) => match outcome {
            Ok(SessionTransition::ConsensusReached(result)) => Some(ConsensusEvent::ConsensusReached { proposal_id, result: *result }),
            Err(ConsensusError::MaxRoundsExceeded) => Some(ConsensusEvent::ConsensusFailed { proposal_id }),
            _ => None,
        },
        _ => None,
    }
}

/// The event to publish after a timeout on a session whose state was `previous`
/// (`None`: no such session).
pub fn timeout_event(
    proposal_id: u32,
    previous: Option<ConsensusState>,
    outcome: &Result<bool, ConsensusError>,
) -> (r: Option<ConsensusEvent>)
    ensures
        r == timeout_event_of(proposal_id, previous, *outcome),
{
    match previous {
        Some(ConsensusState::Active) => match outcome {
            Ok(result) => Some(ConsensusEvent::ConsensusReached { proposal_id, result: *result }),
            Err(ConsensusError::InsufficientVotesAtTimeout) => Some(ConsensusEvent::ConsensusFailed { proposal_id }),
            Err(_) => None,
        },
        _ => None,
    }
}

} // verus!

use alloy::signers::local::PrivateKeySigner;
use alloy::signers::SignerSync;
use hashgraph_like_consensus::codec::encode_for_signing;
use hashgraph_like_consensus::error::ConsensusError;
use hashgraph_like_consensus::service::{timeout_event, transition_event, vote_event, ConsensusService};
use hashgraph_like_consensus::session::ConsensusConfig;
use hashgraph_like_consensus::types::{ConsensusEvent, CreateProposalRequest, SessionTransition, Vote};
use hashgraph_like_consensus::utils::compute_vote_hash;

const NOW: u64 = 1_700_000_000;
const EXPIRATION: u64 = 120;

fn signer(k: u8) -> PrivateKeySigner {
    PrivateKeySigner::from_slice(&[k; 32]).unwrap()
}

fn addr(s: &PrivateKeySigner) -> Vec<u8> {
    s.address().as_slice().to_vec()
}

fn sign(v: &mut Vote, s: &PrivateKeySigner) {
    let msg = encode_for_signing(v);
    v.signature = s.sign_message_sync(&msg).unwrap().as_bytes().to_vec();
}

fn request(n: u32, liveness: bool) -> CreateProposalRequest {
    CreateProposalRequest::new("Proposal".to_string(), b"payload".to_vec(), vec![0u8; 20], n, EXPIRATION, liveness)
        .expect("valid proposal request")
}

fn cast(
    svc: &mut ConsensusService,
    scope: &String,
    pid: u32,
    choice: bool,
    s: &PrivateKeySigner,
    now: u64,
) -> Result<(Vote, SessionTransition), ConsensusError> {
    let mut v = svc.prepare_vote(scope, pid, choice, addr(s), 7, now)?;
    sign(&mut v, s);
    let t = svc.cast_signed_vote(scope, v.clone(), now)?;
    Ok((v, t))
}

fn create(svc: &mut ConsensusService, scope: &String, n: u32, liveness: bool, cfg: Option<ConsensusConfig>, pid: u32) -> u32 {
    svc.create_proposal_with_config(scope, request(n, liveness), cfg, pid, NOW).expect("proposal should be created").proposal_id
}

#[test]
fn test_proposal_initialization_round_is_one() {
    let mut svc = ConsensusService::new();
    let scope = "scope".to_string();
    let p = svc.create_proposal(&scope, request(3, true), 1, NOW).expect("proposal should be created");
    assert_eq!(p.round, 1);
    assert!(p.votes.is_empty());
    assert_eq!(p.timestamp, NOW);
    assert_eq!(p.expiration_timestamp, NOW + EXPIRATION);
}

#[test]
fn test_round_increments_on_vote_p2p() {
    let mut svc = ConsensusService::new();
    let scope = "scope".to_string();
    let pid = create(&mut svc, &scope, 5, true, Some(ConsensusConfig::p2p()), 1);
    cast(&mut svc, &scope, pid, true, &signer(1), NOW + 1).unwrap();
    assert_eq!(svc.get_proposal(&scope, pid).unwrap().round, 2);
    cast(&mut svc, &scope, pid, true, &signer(2), NOW + 2).unwrap();
    assert_eq!(svc.get_proposal(&scope, pid).unwrap().round, 3);
}

#[test]
fn test_gossipsub_rounds_stay_at_two() {
    let mut svc = ConsensusService::new();
    let scope = "scope".to_string();
    let pid = create(&mut svc, &scope, 10, true, Some(ConsensusConfig::gossipsub()), 1);
    assert_eq!(svc.get_proposal(&scope, pid).unwrap().round, 1);
    for k in 1..=3u8 {
        cast(&mut svc, &scope, pid, k % 2 == 0, &signer(k), NOW + 1).unwrap();
        let p = svc.get_proposal(&scope, pid).unwrap();
        assert_eq!(p.round, 2);
        assert_eq!(p.votes.len(), k as usize);
    }
}

#[test]
fn test_gossipsub_allows_multiple_votes_in_round_two() {
    let mut svc = ConsensusService::new();
    let scope = "scope".to_string();
    let pid = create(&mut svc, &scope, 20, true, Some(ConsensusConfig::gossipsub()), 1);
    for k in 1..=12u8 {
        let (_, t) = cast(&mut svc, &scope, pid, k % 2 == 0, &signer(k), NOW + 1).expect("vote should be added");
        assert_eq!(t, SessionTransition::StillActive);
    }
    let p = svc.get_proposal(&scope, pid).unwrap();
    assert_eq!(p.votes.len(), 12);
    assert_eq!(p.round, 2);
}

#[test]
fn test_p2p_dynamic_max_rounds() {
    let mut svc = ConsensusService::new();
    let scope = "scope".to_string();
    let pid = create(&mut svc, &scope, 9, true, Some(ConsensusConfig::p2p()), 1);
    for k in 1..=6u8 {
        cast(&mut svc, &scope, pid, true, &signer(k), NOW + 1).expect("vote should be added");
        assert_eq!(svc.get_proposal(&scope, pid).unwrap().round, k as u32 + 1);
    }
    let p = svc.get_proposal(&scope, pid).unwrap();
    assert_eq!(p.votes.len(), 6);
    assert_eq!(p.round, 7);
    assert_eq!(svc.get_consensus_result(&scope, pid), Ok(true));
}

#[test]
fn p2p_seventh_vote_exceeds_round_limit() {
    let mut svc = ConsensusService::new();
    let scope = "scope".to_string();
    let pid = create(&mut svc, &scope, 9, true, Some(ConsensusConfig::p2p()), 1);
    let choices = [true, true, false, false, false, false];
    for (k, c) in choices.iter().enumerate() {
        let (_, t) = cast(&mut svc, &scope, pid, *c, &signer(k as u8 + 1), NOW + 1).unwrap();
        assert_eq!(t, SessionTransition::StillActive);
    }
    let before = svc.session_state(&scope, pid);
    let outcome = cast(&mut svc, &scope, pid, true, &signer(7), NOW + 1).map(|(_, t)| t);
    assert_eq!(outcome, Err(ConsensusError::MaxRoundsExceeded));
    assert_eq!(vote_event(pid, before, &outcome), Some(ConsensusEvent::ConsensusFailed { proposal_id: pid }));
    assert_eq!(svc.get_consensus_result(&scope, pid), Err(ConsensusError::ConsensusFailed));
    assert_eq!(svc.get_proposal(&scope, pid).unwrap().votes.len(), 6);
}

#[test]
fn test_n_le_2_requires_unanimous_yes() {
    let mut svc = ConsensusService::new();
    let s1 = "scope1".to_string();
    let pid = create(&mut svc, &s1, 1, true, None, 1);
    let (_, t) = cast(&mut svc, &s1, pid, true, &signer(1), NOW + 1).unwrap();
    assert_eq!(t, SessionTransition::ConsensusReached(true));

    let s2 = "scope2".to_string();
    let pid = create(&mut svc, &s2, 2, true, None, 2);
    let (_, t) = cast(&mut svc, &s2, pid, true, &signer(1), NOW + 1).unwrap();
    assert_eq!(t, SessionTransition::StillActive);
    let (_, t) = cast(&mut svc, &s2, pid, true, &signer(2), NOW + 1).unwrap();
    assert_eq!(t, SessionTransition::ConsensusReached(true));

    let s3 = "scope3".to_string();
    let pid = create(&mut svc, &s3, 2, true, None, 3);
    cast(&mut svc, &s3, pid, true, &signer(1), NOW + 1).unwrap();
    let (_, t) = cast(&mut svc, &s3, pid, false, &signer(2), NOW + 1).unwrap();
    assert_eq!(t, SessionTransition::ConsensusReached(false));
    assert_eq!(svc.get_consensus_result(&s3, pid), Ok(false));
}

#[test]
fn test_n_gt_2_consensus_requirements() {
    let mut svc = ConsensusService::new();
    let scope = "scope".to_string();
    let pid = create(&mut svc, &scope, 3, true, None, 1);
    cast(&mut svc, &scope, pid, true, &signer(1), NOW + 1).unwrap();
    assert_eq!(svc.get_consensus_result(&scope, pid), Err(ConsensusError::ConsensusNotReached));
    let (_, t) = cast(&mut svc, &scope, pid, true, &signer(2), NOW + 1).unwrap();
    assert_eq!(t, SessionTransition::ConsensusReached(true));
    assert_eq!(transition_event(pid, t), Some(ConsensusEvent::ConsensusReached { proposal_id: pid, result: true }));
}

#[test]
fn test_equality_of_votes_handling() {
    for liveness in [true, false] {
        let mut svc = ConsensusService::new();
        let scope = "scope".to_string();
        let pid = create(&mut svc, &scope, 4, liveness, None, 1);
        for (k, c) in [true, false, true, false].iter().enumerate() {
            cast(&mut svc, &scope, pid, *c, &signer(k as u8 + 1), NOW + 1).unwrap();
        }
        assert_eq!(svc.handle_consensus_timeout(&scope, pid), Ok(liveness));
        assert_eq!(svc.get_consensus_result(&scope, pid), Ok(liveness));
    }
}

#[test]
fn test_expired_proposal_rejected() {
    let mut svc = ConsensusService::new();
    let scope = "scope".to_string();
    let pid = create(&mut svc, &scope, 3, true, None, 1);
    let err = cast(&mut svc, &scope, pid, true, &signer(1), NOW + EXPIRATION).unwrap_err();
    assert_eq!(err, ConsensusError::VoteExpired);
}

#[test]
fn test_timestamp_replay_attack_protection() {
    let mut svc = ConsensusService::new();
    let scope = "scope".to_string();
    let pid = create(&mut svc, &scope, 3, true, None, 1);
    let s = signer(1);
    let mut v = svc.prepare_vote(&scope, pid, true, addr(&s), 9, NOW + 1).unwrap();
    v.timestamp = NOW - 4000;
    v.vote_hash = compute_vote_hash(&v);
    sign(&mut v, &s);
    assert_eq!(svc.process_incoming_vote(&scope, v, NOW + 1), Err(ConsensusError::TimestampOlderThanCreationTime));
    assert!(svc.get_proposal(&scope, pid).unwrap().votes.is_empty());
}

#[test]
fn test_handle_consensus_timeout_already_reached() {
    let mut svc = ConsensusService::new();
    let scope = "scope".to_string();
    let pid = create(&mut svc, &scope, 2, true, None, 1);
    cast(&mut svc, &scope, pid, true, &signer(1), NOW + 1).unwrap();
    cast(&mut svc, &scope, pid, true, &signer(2), NOW + 1).unwrap();
    assert_eq!(svc.handle_consensus_timeout(&scope, pid), Ok(true));
}

#[test]
fn test_handle_consensus_timeout_reaches_consensus() {
    let mut svc = ConsensusService::new();
    let scope = "scope".to_string();
    let pid = create(&mut svc, &scope, 3, true, None, 1);
    cast(&mut svc, &scope, pid, true, &signer(1), NOW + 1).unwrap();
    assert_eq!(svc.get_consensus_result(&scope, pid), Err(ConsensusError::ConsensusNotReached));
    let before = svc.session_state(&scope, pid);
    let outcome = cast(&mut svc, &scope, pid, true, &signer(2), NOW + 1).map(|(_, t)| t);
    assert_eq!(vote_event(pid, before, &outcome), Some(ConsensusEvent::ConsensusReached { proposal_id: pid, result: true }));
    let before = svc.session_state(&scope, pid);
    let r = svc.handle_consensus_timeout(&scope, pid);
    assert_eq!(r, Ok(true));
    assert_eq!(timeout_event(pid, before, &r), None);
}

#[test]
fn test_handle_consensus_timeout_insufficient_votes() {
    let mut svc = ConsensusService::new();
    let scope = "scope".to_string();
    let pid = create(&mut svc, &scope, 4, true, None, 1);
    cast(&mut svc, &scope, pid, true, &signer(1), NOW + 1).unwrap();
    let before = svc.session_state(&scope, pid);
    let r = svc.handle_consensus_timeout(&scope, pid);
    assert_eq!(r, Err(ConsensusError::InsufficientVotesAtTimeout));
    assert_eq!(timeout_event(pid, before, &r), Some(ConsensusEvent::ConsensusFailed { proposal_id: pid }));
    let before = svc.session_state(&scope, pid);
    let again = svc.handle_consensus_timeout(&scope, pid);
    assert_eq!(again, r);
    assert_eq!(timeout_event(pid, before, &again), None);
    assert_eq!(svc.get_consensus_result(&scope, pid), Err(ConsensusError::ConsensusFailed));
    assert_eq!(svc.get_active_proposals(&scope), Ok(None));
}

#[test]
fn test_handle_consensus_timeout_no_votes() {
    let mut svc = ConsensusService::new();
    let scope = "scope".to_string();
    let pid = create(&mut svc, &scope, 4, true, None, 1);
    assert_eq!(svc.handle_consensus_timeout(&scope, pid), Err(ConsensusError::InsufficientVotesAtTimeout));
    assert_eq!(svc.get_active_proposals(&scope), Ok(None));
}

#[test]
fn timeout_twice_answers_the_same() {
    let mut svc = ConsensusService::new();
    let scope = "scope".to_string();
    let pid = create(&mut svc, &scope, 4, true, None, 1);
    cast(&mut svc, &scope, pid, true, &signer(1), NOW + 1).unwrap();
    let first = svc.handle_consensus_timeout(&scope, pid);
    let second = svc.handle_consensus_timeout(&scope, pid);
    assert_eq!(first, second);
    let pid2 = create(&mut svc, &scope, 1, true, None, 2);
    cast(&mut svc, &scope, pid2, true, &signer(1), NOW + 1).unwrap();
    assert_eq!(svc.handle_consensus_timeout(&scope, pid2), Ok(true));
    assert_eq!(svc.handle_consensus_timeout(&scope, pid2), Ok(true));
    assert_eq!(svc.handle_consensus_timeout(&scope, 99), Err(ConsensusError::SessionNotFound));
}

#[test]
fn terminal_session_ignores_votes() {
    let mut svc = ConsensusService::new();
    let scope = "scope".to_string();
    let pid = create(&mut svc, &scope, 1, true, None, 1);
    cast(&mut svc, &scope, pid, true, &signer(1), NOW + 1).unwrap();
    let (_, t) = cast(&mut svc, &scope, pid, false, &signer(2), NOW + 1).unwrap();
    assert_eq!(t, SessionTransition::ConsensusReached(true));
    assert_eq!(svc.get_proposal(&scope, pid).unwrap().votes.len(), 1);

    let pid2 = create(&mut svc, &scope, 4, true, None, 2);
    assert!(svc.handle_consensus_timeout(&scope, pid2).is_err());
    assert_eq!(cast(&mut svc, &scope, pid2, true, &signer(3), NOW + 1).unwrap_err(), ConsensusError::SessionNotActive);
}

#[test]
fn test_concurrent_duplicate_vote_rejection() {
    let mut svc = ConsensusService::new();
    let scope = "scope".to_string();
    let pid = create(&mut svc, &scope, 5, true, None, 1);
    let s = signer(1);
    // five calls that all passed the first half before any of them committed
    let mut prepared = Vec::new();
    for _ in 0..5 {
        let mut v = svc.prepare_vote(&scope, pid, true, addr(&s), 1, NOW + 1).unwrap();
        sign(&mut v, &s);
        prepared.push(v);
    }
    let results: Vec<_> = prepared.into_iter().map(|v| svc.cast_signed_vote(&scope, v, NOW + 1)).collect();
    assert_eq!(results.iter().filter(|r| r.is_ok()).count(), 1);
    assert_eq!(results.iter().filter(|r| **r == Err(ConsensusError::DuplicateVote)).count(), 4);
    assert_eq!(svc.prepare_vote(&scope, pid, true, addr(&s), 1, NOW + 1).unwrap_err(), ConsensusError::UserAlreadyVoted);
    let p = svc.get_proposal(&scope, pid).unwrap();
    assert_eq!(p.votes.iter().filter(|v| v.vote_owner == addr(&s)).count(), 1);
}

#[test]
fn reprocessing_a_proposal_is_refused() {
    let mut a = ConsensusService::new();
    let mut b = ConsensusService::new();
    let scope = "scope".to_string();
    let pid = create(&mut a, &scope, 1, true, None, 1);
    cast(&mut a, &scope, pid, true, &signer(1), NOW + 1).unwrap();
    let p = a.get_proposal(&scope, pid).unwrap();
    assert_eq!(b.process_incoming_proposal(&scope, p.clone(), NOW + 2), Ok(SessionTransition::ConsensusReached(true)));
    assert_eq!(b.process_incoming_proposal(&scope, p, NOW + 2), Err(ConsensusError::ProposalAlreadyExist));
    assert_eq!(b.get_consensus_result(&scope, pid), Ok(true));
}

#[test]
fn test_multi_scope_isolation() {
    let mut svc = ConsensusService::new();
    let s1 = "scope1".to_string();
    let s2 = "scope2".to_string();
    let p1 = create(&mut svc, &s1, 2, true, None, 1);
    let p2 = create(&mut svc, &s2, 2, true, None, 2);
    cast(&mut svc, &s1, p1, true, &signer(1), NOW + 1).unwrap();
    assert_eq!(svc.get_proposal(&s1, p1).unwrap().votes.len(), 1);
    assert_eq!(svc.get_proposal(&s2, p2).unwrap().votes.len(), 0);
    assert_eq!(svc.get_proposal(&s1, p2).unwrap_err(), ConsensusError::SessionNotFound);
    assert_eq!(svc.get_active_proposals(&"other".to_string()), Err(ConsensusError::ScopeNotFound));
}

#[test]
fn scope_keeps_newest_sessions() {
    let mut svc = ConsensusService::new_with_max_sessions(3);
    let scope = "scope".to_string();
    for pid in 1..=5u32 {
        svc.create_proposal(&scope, request(3, true), pid, NOW + pid as u64).unwrap();
        assert!(svc.get_scope_stats(&scope).total_sessions <= 3);
    }
    assert_eq!(svc.get_proposal(&scope, 1).unwrap_err(), ConsensusError::SessionNotFound);
    assert_eq!(svc.get_proposal(&scope, 2).unwrap_err(), ConsensusError::SessionNotFound);
    for pid in 3..=5u32 {
        assert!(svc.get_proposal(&scope, pid).is_ok());
    }
    assert_eq!(svc.handle_consensus_timeout(&scope, 1), Err(ConsensusError::SessionNotFound));
}

#[test]
fn stats_and_listings() {
    let mut svc = ConsensusService::new();
    let scope = "scope".to_string();
    let a = create(&mut svc, &scope, 1, true, None, 1);
    let b = create(&mut svc, &scope, 4, true, None, 2);
    let _c = create(&mut svc, &scope, 4, true, None, 3);
    cast(&mut svc, &scope, a, false, &signer(1), NOW + 1).unwrap();
    let _ = svc.handle_consensus_timeout(&scope, b);
    let st = svc.get_scope_stats(&scope);
    assert_eq!((st.total_sessions, st.active_sessions, st.failed_sessions, st.consensus_reached), (3, 1, 1, 1));
    let reached = svc.get_reached_proposals(&scope).unwrap().unwrap();
    assert_eq!(reached.len(), 1);
    assert_eq!(reached.get(&a), Some(&false));
    let active = svc.get_active_proposals(&scope).unwrap().unwrap();
    assert_eq!(active.len(), 1);
    assert_eq!(active[0].proposal_id, 3);
    assert_eq!(svc.get_proposal_payload(&scope, a), Ok(b"payload".to_vec()));
    assert_eq!(svc.has_sufficient_votes_for_proposal(&scope, a), Ok(true));
    assert_eq!(svc.has_sufficient_votes_for_proposal(&scope, b), Ok(false));
    let empty = svc.get_scope_stats(&"none".to_string());
    assert_eq!(empty.total_sessions, 0);
}

#[test]
fn invalid_threshold_override_is_refused() {
    let mut svc = ConsensusService::new();
    let scope = "scope".to_string();
    let mut cfg = ConsensusConfig::p2p();
    cfg.consensus_threshold = hashgraph_like_consensus::types::Threshold::new(5, 4);
    let r = svc.create_proposal_with_config(&scope, request(3, true), Some(cfg), 1, NOW);
    assert_eq!(r.unwrap_err(), ConsensusError::InvalidConsensusThreshold);
    assert_eq!(svc.get_active_proposals(&scope), Err(ConsensusError::ScopeNotFound));
}

#[test]
fn vote_with_a_broken_received_link_is_refused() {
    let mut svc = ConsensusService::new();
    let scope = "scope".to_string();
    let pid = create(&mut svc, &scope, 5, true, None, 1);
    cast(&mut svc, &scope, pid, true, &signer(1), NOW + 1).unwrap();
    let s = signer(2);
    let mut v = svc.prepare_vote(&scope, pid, true, addr(&s), 2, NOW + 1).unwrap();
    v.received_hash = vec![7u8; 32];
    v.vote_hash = compute_vote_hash(&v);
    sign(&mut v, &s);
    assert_eq!(svc.process_incoming_vote(&scope, v.clone(), NOW + 1), Err(ConsensusError::ReceivedHashMismatch));
    assert_eq!(svc.cast_signed_vote(&scope, v, NOW + 1), Err(ConsensusError::ReceivedHashMismatch));
    assert_eq!(svc.get_proposal(&scope, pid).unwrap().votes.len(), 1);
}

#[test]
fn unsigned_vote_is_refused() {
    let mut svc = ConsensusService::new();
    let scope = "scope".to_string();
    let pid = create(&mut svc, &scope, 5, true, None, 1);
    let v = svc.prepare_vote(&scope, pid, true, addr(&signer(1)), 2, NOW + 1).unwrap();
    assert_eq!(svc.cast_signed_vote(&scope, v, NOW + 1), Err(ConsensusError::EmptySignature));
    assert!(svc.get_proposal(&scope, pid).unwrap().votes.is_empty());
}

#[test]
fn request_fields_are_checked_at_creation() {
    let mut svc = ConsensusService::new();
    let scope = "scope".to_string();
    let mut req = request(3, true);
    req.expected_voters_count = 0;
    assert_eq!(svc.create_proposal(&scope, req, 1, NOW).unwrap_err(), ConsensusError::InvalidExpectedVotersCount);
    let mut req = request(3, true);
    req.expiration_timestamp = 0;
    assert_eq!(svc.create_proposal(&scope, req, 1, NOW).unwrap_err(), ConsensusError::InvalidTimeout);
    assert_eq!(svc.get_active_proposals(&scope), Err(ConsensusError::ScopeNotFound));
}

#[test]
fn zero_threshold_proposal_starts_active() {
    let mut svc = ConsensusService::new();
    let scope = "scope".to_string();
    let mut cfg = ConsensusConfig::gossipsub();
    cfg.consensus_threshold = hashgraph_like_consensus::types::Threshold::new(0, 1);
    let pid = create(&mut svc, &scope, 3, true, Some(cfg), 1);
    assert_eq!(svc.get_consensus_result(&scope, pid), Err(ConsensusError::ConsensusNotReached));
    let before = svc.session_state(&scope, pid);
    let r = svc.handle_consensus_timeout(&scope, pid);
    assert_eq!(r, Ok(true));
    assert_eq!(timeout_event(pid, before, &r), Some(ConsensusEvent::ConsensusReached { proposal_id: pid, result: true }));
}

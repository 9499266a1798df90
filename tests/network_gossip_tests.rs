use alloy::signers::local::PrivateKeySigner;
use alloy::signers::SignerSync;
use hashgraph_like_consensus::codec::encode_for_signing;
use hashgraph_like_consensus::error::ConsensusError;
use hashgraph_like_consensus::service::{timeout_event, ConsensusService};
use hashgraph_like_consensus::types::{ConsensusEvent, CreateProposalRequest, Vote};

const NOW: u64 = 1_700_000_000;

fn signer(k: u8) -> PrivateKeySigner {
    PrivateKeySigner::from_slice(&[k; 32]).unwrap()
}

fn cast(svc: &mut ConsensusService, scope: &String, pid: u32, choice: bool, s: &PrivateKeySigner) -> Vote {
    let mut v = svc.prepare_vote(scope, pid, choice, s.address().as_slice().to_vec(), 3, NOW + 1).unwrap();
    let msg = encode_for_signing(&v);
    v.signature = s.sign_message_sync(&msg).unwrap().as_bytes().to_vec();
    svc.cast_signed_vote(scope, v.clone(), NOW + 1).unwrap();
    v
}

fn open(n: u32, liveness: bool, peers: usize, scope: &String) -> (Vec<ConsensusService>, u32) {
    let mut services: Vec<ConsensusService> = (0..peers).map(|_| ConsensusService::new()).collect();
    let req = CreateProposalRequest::new("P".to_string(), vec![], vec![1u8; 20], n, 60, liveness).unwrap();
    let p = services[0].create_proposal(scope, req, 42, NOW).unwrap();
    for s in services.iter_mut().skip(1) {
        s.process_incoming_proposal(scope, p.clone(), NOW).expect("peer accepts proposal");
    }
    (services, p.proposal_id)
}

#[test]
fn test_two_peers_gossip_reaches_unanimous_yes_for_n2() {
    let scope = "gossip".to_string();
    let (mut peers, pid) = open(2, true, 2, &scope);
    let va = cast(&mut peers[0], &scope, pid, true, &signer(1));
    peers[1].process_incoming_vote(&scope, va, NOW + 1).expect("peer_b accepts peer_a vote");
    let vb = cast(&mut peers[1], &scope, pid, true, &signer(2));
    peers[0].process_incoming_vote(&scope, vb, NOW + 1).expect("peer_a accepts peer_b vote");
    assert_eq!(peers[0].get_consensus_result(&scope, pid), Ok(true));
    assert_eq!(peers[1].get_consensus_result(&scope, pid), Ok(true));
}

#[test]
fn test_three_peers_gossip_converges_with_out_of_order_delivery() {
    let scope = "gossip_3p".to_string();
    let (mut peers, pid) = open(3, true, 3, &scope);
    let va = cast(&mut peers[0], &scope, pid, true, &signer(1));
    let vb = cast(&mut peers[1], &scope, pid, true, &signer(2));
    peers[2].process_incoming_vote(&scope, vb.clone(), NOW + 1).expect("peer_c accepts vote_b");
    peers[2].process_incoming_vote(&scope, va.clone(), NOW + 1).expect("peer_c accepts vote_a");
    peers[0].process_incoming_vote(&scope, vb, NOW + 1).expect("peer_a accepts vote_b");
    peers[1].process_incoming_vote(&scope, va, NOW + 1).expect("peer_b accepts vote_a");
    for p in &peers {
        assert_eq!(p.get_consensus_result(&scope, pid), Ok(true));
    }
}

#[test]
fn test_multi_peer_timeout_task_converges_to_failed() {
    let scope = "gossip_timeout".to_string();
    let (mut peers, pid) = open(4, true, 3, &scope);
    let va = cast(&mut peers[0], &scope, pid, true, &signer(1));
    peers[1].process_incoming_vote(&scope, va.clone(), NOW + 1).unwrap();
    peers[2].process_incoming_vote(&scope, va, NOW + 1).unwrap();
    for p in peers.iter_mut() {
        let before = p.session_state(&scope, pid);
        let r = p.handle_consensus_timeout(&scope, pid);
        assert_eq!(r, Err(ConsensusError::InsufficientVotesAtTimeout));
        assert_eq!(timeout_event(pid, before, &r), Some(ConsensusEvent::ConsensusFailed { proposal_id: pid }));
        assert_eq!(p.get_consensus_result(&scope, pid), Err(ConsensusError::ConsensusFailed));
    }
}

#[test]
fn test_multi_peer_timeout_task_resolves_tie_by_liveness_criteria_yes() {
    let scope = "gossip_timeout_tie".to_string();
    let (mut peers, pid) = open(4, true, 4, &scope);
    let choices = [true, true, false, false];
    let mut votes = Vec::new();
    for (i, c) in choices.iter().enumerate() {
        let v = cast(&mut peers[i], &scope, pid, *c, &signer(i as u8 + 1));
        votes.push((i, v));
    }
    for (from, v) in &votes {
        for (i, p) in peers.iter_mut().enumerate() {
            if i != *from {
                p.process_incoming_vote(&scope, v.clone(), NOW + 1).expect("peer accepts vote");
            }
        }
    }
    for p in peers.iter_mut() {
        assert_eq!(p.handle_consensus_timeout(&scope, pid), Ok(true));
        assert_eq!(p.get_consensus_result(&scope, pid), Ok(true));
    }
}

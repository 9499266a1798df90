use alloy::signers::local::PrivateKeySigner;
use alloy::signers::SignerSync;
use hashgraph_like_consensus::codec::{current_timestamp, encode_for_signing, encode_vote, vote_hash_input};
use hashgraph_like_consensus::error::ConsensusError;
use hashgraph_like_consensus::service::ConsensusService;
use hashgraph_like_consensus::types::{CreateProposalRequest, Proposal, Vote};
use hashgraph_like_consensus::utils::{
    check_proposal_timestamp, validate_proposal_timestamp,
    build_vote_at, compute_vote_hash, validate_proposal, validate_proposal_at, validate_vote, validate_vote_at,
    validate_vote_chain, verify_vote_hash,
};

const NOW: u64 = 1_700_000_000;

fn signer(k: u8) -> PrivateKeySigner {
    PrivateKeySigner::from_slice(&[k; 32]).unwrap()
}

fn addr(s: &PrivateKeySigner) -> Vec<u8> {
    s.address().as_slice().to_vec()
}

fn sign(v: &mut Vote, s: &PrivateKeySigner) {
    let msg = encode_for_signing(v);
    v.signature = s.sign_message_sync(&msg).unwrap().as_bytes().to_vec();
}

fn proposal(now: u64) -> Proposal {
    CreateProposalRequest::new("Proposal".to_string(), vec![], vec![0u8; 20], 3, 120, true)
        .unwrap()
        .into_proposal_at(5, now)
}

fn signed_vote(p: &Proposal, s: &PrivateKeySigner, choice: bool, now: u64) -> Vote {
    let mut v = build_vote_at(p, choice, addr(s), 11, now);
    sign(&mut v, s);
    v
}

#[test]
fn test_vote_created_with_helper_is_valid() {
    let now = current_timestamp().unwrap();
    let mut p = proposal(now);
    let v = signed_vote(&p, &signer(1), true, now);
    validate_vote(&v, p.expiration_timestamp, p.timestamp).expect("vote should validate");
    p.votes.push(v);
    validate_proposal(&p).expect("proposal should validate");
}

#[test]
fn test_invalid_signature_is_rejected() {
    let p = proposal(NOW);
    let mut v = build_vote_at(&p, true, addr(&signer(1)), 11, NOW + 1);
    sign(&mut v, &signer(2));
    assert_eq!(validate_vote_at(&v, p.expiration_timestamp, p.timestamp, NOW + 1), Err(ConsensusError::InvalidVoteSignature));
}

#[test]
fn test_vote_chain_validation_rejects_bad_received_hash() {
    let p0 = proposal(NOW);
    let mut p = p0.clone();
    let v1 = signed_vote(&p, &signer(1), true, NOW + 1);
    p.votes.push(v1.clone());
    let mut v2 = build_vote_at(&p, false, addr(&signer(2)), 12, NOW + 2);
    v2.received_hash = vec![9u8; 32];
    v2.vote_hash = compute_vote_hash(&v2);
    sign(&mut v2, &signer(2));
    p.votes.push(v2);
    assert_eq!(validate_vote_chain(&p.votes), Err(ConsensusError::ReceivedHashMismatch));
    assert_eq!(validate_proposal_at(&p, NOW + 3), Err(ConsensusError::ReceivedHashMismatch));
}

#[test]
fn vote_after_expiration_is_refused() {
    let p = proposal(NOW);
    let v = signed_vote(&p, &signer(1), true, p.expiration_timestamp + 1);
    assert_eq!(validate_vote_at(&v, p.expiration_timestamp, p.timestamp, NOW + 1), Err(ConsensusError::VoteExpired));
    let v = signed_vote(&p, &signer(1), true, NOW + 1);
    assert_eq!(validate_vote_at(&v, p.expiration_timestamp, p.timestamp, p.expiration_timestamp + 1), Err(ConsensusError::VoteExpired));
    assert_eq!(validate_vote_at(&v, p.expiration_timestamp, p.timestamp, NOW + 1), Ok(()));
}

#[test]
fn malformed_votes_are_refused_in_order() {
    let p = proposal(NOW);
    let good = signed_vote(&p, &signer(1), true, NOW + 1);
    let check = |v: &Vote| validate_vote_at(v, p.expiration_timestamp, p.timestamp, NOW + 1);
    let mut v = good.clone();
    v.vote_owner.clear();
    assert_eq!(check(&v), Err(ConsensusError::EmptyVoteOwner));
    let mut v = good.clone();
    v.vote_hash.clear();
    assert_eq!(check(&v), Err(ConsensusError::EmptyVoteHash));
    let mut v = good.clone();
    v.signature.clear();
    assert_eq!(check(&v), Err(ConsensusError::EmptySignature));
    let mut v = good.clone();
    v.signature.pop();
    assert_eq!(check(&v), Err(ConsensusError::MismatchedLength { expect: 65, actual: 64 }));
    let mut v = good.clone();
    v.vote = false;
    assert_eq!(check(&v), Err(ConsensusError::InvalidVoteHash));
    let mut v = good.clone();
    v.signature[64] = 9;
    assert_eq!(check(&v), Err(ConsensusError::InvalidSignature));
    assert_eq!(check(&good), Ok(()));
}

#[test]
fn proposal_checks() {
    let mut p = proposal(NOW);
    assert_eq!(validate_proposal_at(&p, p.expiration_timestamp), Err(ConsensusError::ProposalExpired));
    let mut v = signed_vote(&p, &signer(1), true, NOW + 1);
    v.proposal_id = 77;
    v.vote_hash = compute_vote_hash(&v);
    sign(&mut v, &signer(1));
    p.votes.push(v);
    assert_eq!(validate_proposal_at(&p, NOW + 1), Err(ConsensusError::VoteProposalIdMismatch));
}

#[test]
fn parent_hash_must_name_an_earlier_vote_of_the_owner() {
    let mut p = proposal(NOW);
    let v1 = signed_vote(&p, &signer(1), true, NOW + 1);
    p.votes.push(v1.clone());
    let mut v2 = build_vote_at(&p, true, addr(&signer(2)), 12, NOW + 2);
    v2.parent_hash = v1.vote_hash.clone();
    v2.vote_hash = compute_vote_hash(&v2);
    sign(&mut v2, &signer(2));
    p.votes.push(v2);
    assert_eq!(validate_vote_chain(&p.votes), Err(ConsensusError::ParentHashMismatch));
    assert_eq!(validate_vote_chain(&p.votes[..1].to_vec()), Ok(()));
}

#[test]
fn signature_check_reports_length_and_owner() {
    let s = signer(3);
    let msg = b"hello".to_vec();
    let sig = s.sign_message_sync(&msg).unwrap().as_bytes().to_vec();
    assert_eq!(verify_vote_hash(&sig, &addr(&s), &msg), Ok(true));
    assert_eq!(verify_vote_hash(&sig, &addr(&signer(4)), &msg), Ok(false));
    assert_eq!(verify_vote_hash(&sig[..10].to_vec(), &addr(&s), &msg), Err(ConsensusError::MismatchedLength { expect: 65, actual: 10 }));
}

#[test]
fn hash_is_sha256_of_the_field_concatenation() {
    let v = Vote {
        vote_id: 0x0403_0201,
        vote_owner: vec![0xaa, 0xbb],
        proposal_id: 7,
        timestamp: 0x0102,
        vote: true,
        parent_hash: vec![],
        received_hash: vec![0xcc],
        vote_hash: vec![1, 2, 3],
        signature: vec![4, 5],
    };
    let input = vote_hash_input(&v);
    assert_eq!(
        input,
        vec![1, 2, 3, 4, 0xaa, 0xbb, 7, 0, 0, 0, 2, 1, 0, 0, 0, 0, 0, 0, 1, 0xcc]
    );
    let h = compute_vote_hash(&v);
    assert_eq!(h.len(), 32);
    assert_ne!(h, input);
    let mut w = v.clone();
    w.vote_hash = vec![];
    w.signature = vec![];
    assert_eq!(compute_vote_hash(&w), h);
}

#[test]
fn wire_encoding_of_a_vote() {
    let v = Vote {
        vote_id: 300,
        vote_owner: vec![0xaa],
        proposal_id: 0,
        timestamp: 1,
        vote: true,
        parent_hash: vec![],
        received_hash: vec![],
        vote_hash: vec![0x01, 0x02],
        signature: vec![0x09],
    };
    assert_eq!(
        encode_vote(&v),
        vec![0x08, 0xac, 0x02, 0x12, 0x01, 0xaa, 0x20, 0x01, 0x28, 0x01, 0x42, 0x02, 0x01, 0x02, 0x4a, 0x01, 0x09]
    );
    assert_eq!(
        encode_for_signing(&v),
        vec![0x08, 0xac, 0x02, 0x12, 0x01, 0xaa, 0x20, 0x01, 0x28, 0x01, 0x42, 0x02, 0x01, 0x02]
    );
}

#[test]
fn test_received_hash_for_new_voter() {
    let mut svc = ConsensusService::new();
    let scope = "scope".to_string();
    let req = CreateProposalRequest::new("P".to_string(), vec![], vec![0u8; 20], 3, 120, true).unwrap();
    let pid = svc.create_proposal(&scope, req, 1, NOW).unwrap().proposal_id;
    let mut first = svc.prepare_vote(&scope, pid, true, addr(&signer(1)), 1, NOW + 1).unwrap();
    assert!(first.received_hash.is_empty() && first.parent_hash.is_empty());
    sign(&mut first, &signer(1));
    svc.cast_signed_vote(&scope, first.clone(), NOW + 1).unwrap();
    let second = svc.prepare_vote(&scope, pid, true, addr(&signer(2)), 2, NOW + 2).unwrap();
    assert!(second.parent_hash.is_empty());
    assert_eq!(second.received_hash, first.vote_hash);
    assert_eq!(second.vote_hash, compute_vote_hash(&second));
}

#[test]
fn test_parent_hash_for_same_voter() {
    let mut p = proposal(NOW);
    let s = signer(1);
    let first = signed_vote(&p, &s, true, NOW + 1);
    p.votes.push(first.clone());
    let second = signed_vote(&p, &s, false, NOW + 2);
    assert_eq!(second.received_hash, first.vote_hash);
    assert_eq!(second.parent_hash, first.vote_hash);
    p.votes.push(second);
    validate_proposal_at(&p, NOW + 3).expect("proposal with parent hash chain should validate");
}

#[test]
fn proposal_timestamp_checks() {
    assert_eq!(check_proposal_timestamp(10, 9), Ok(()));
    assert_eq!(check_proposal_timestamp(10, 10), Err(ConsensusError::ProposalExpired));
    assert_eq!(validate_proposal_timestamp(5), Err(ConsensusError::ProposalExpired));
    assert_eq!(validate_proposal_timestamp(u64::MAX), Ok(()));
}

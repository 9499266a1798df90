//! Validators, vote hashing and signature checks, and the tally.
use vstd::prelude::*;
use vstd::arithmetic::div_mod::{lemma_div_is_ordered, lemma_fundamental_div_mod_converse};
use vstd::arithmetic::mul::lemma_mul_inequality;
use crate::codec::{
    current_timestamp, encode_for_signing, hash_input, recover_address, recovered_address,
    sha256, sha256_of, signing_bytes, vote_hash_input,
};
use crate::error::ConsensusError;
use crate::types::{bytes_eq, copy_bytes, votes_view, Proposal, ProposalView, Threshold, Vote, VoteView};

pub use crate::codec::generate_id;

verus! {

/// Length of a recoverable signature.
pub const SIGNATURE_LENGTH: usize = 65;

// ---------------------------------------------------------------------------
// Hashing and signatures.

/// The fingerprint a vote must carry in `vote_hash`.
pub open spec fn expected_vote_hash(v: VoteView) -> Seq<u8> {
    sha256_of(hash_input(v))
}

/// SHA-256 over the vote's fields in their fixed order (`vote_hash` and `signature`
/// excluded).
pub fn compute_vote_hash(vote: &Vote) -> (r: Vec<u8>)
    ensures
        r@ == expected_vote_hash(vote@),
        r@.len() == 32,
{
    let input = vote_hash_input(vote);
    sha256(&input)
}

/// What checking `signature` over `message` against `public_key` gives.
pub open spec fn signature_check(signature: Seq<u8>, public_key: Seq<u8>, message: Seq<u8>) -> Result<
    bool,
    ConsensusError,
> {
    if signature.len() != SIGNATURE_LENGTH {
        Err(ConsensusError::MismatchedLength { expect: SIGNATURE_LENGTH, actual: signature.len() as usize })
    } else {
        match recovered_address(signature, message) {
            Some(a) => Ok(a == public_key),
            None => Err(ConsensusError::InvalidSignature),
        }
    }
}

/// Whether `signature` over `message` recovers to the address `public_key`.
pub fn verify_vote_hash(signature: &Vec<u8>, public_key: &Vec<u8>, message: &Vec<u8>) -> (r: Result<
    bool,
    ConsensusError,
>)
    ensures
        r == signature_check(signature@, public_key@, message@),
{
    if signature.len() != SIGNATURE_LENGTH {
        return Err(ConsensusError::MismatchedLength { expect: SIGNATURE_LENGTH, actual: signature.len() });
    }
    match recover_address(signature, message) {
        Ok(address) => Ok(bytes_eq(&address, public_key)),
        Err(_) => Err(ConsensusError::InvalidSignature),
    }
}

// ---------------------------------------------------------------------------
// Single-vote validation.

/// The checks on a vote that need no clock: fields present, hash and signature.
pub open spec fn vote_integrity(v: VoteView) -> Result<(), ConsensusError> {
    if v.vote_owner.len() == 0 {
        Err(ConsensusError::EmptyVoteOwner)
    } else if v.vote_hash.len() == 0 {
        Err(ConsensusError::EmptyVoteHash)
    } else if v.signature.len() == 0 {
        Err(ConsensusError::EmptySignature)
    } else if v.signature.len() != SIGNATURE_LENGTH {
        Err(ConsensusError::MismatchedLength { expect: SIGNATURE_LENGTH, actual: v.signature.len() as usize })
    } else if v.vote_hash != expected_vote_hash(v) {
        Err(ConsensusError::InvalidVoteHash)
    } else {
        match signature_check(v.signature, v.vote_owner, signing_bytes(v)) {
            Err(e) => Err(e),
            Ok(false) => Err(ConsensusError::InvalidVoteSignature),
            Ok(true) => Ok(()),
        }
    }
}

/// The checks on a vote's timestamp, at time `now`.
pub open spec fn vote_timing(v: VoteView, expiration_timestamp: u64, creation_time: u64, now: u64) -> Result<
    (),
    ConsensusError,
> {
    if v.timestamp < creation_time {
        Err(ConsensusError::TimestampOlderThanCreationTime)
    } else if v.timestamp > expiration_timestamp || now > expiration_timestamp {
        Err(ConsensusError::VoteExpired)
    } else {
        Ok(())
    }
}

/// The outcome of validating a vote at time `now`.
pub open spec fn vote_check(v: VoteView, expiration_timestamp: u64, creation_time: u64, now: u64) -> Result<
    (),
    ConsensusError,
> {
    match vote_integrity(v) {
        Err(e) => Err(e),
        Ok(_) => vote_timing(v, expiration_timestamp, creation_time, now),
    }
}

pub(crate) fn check_vote_integrity(vote: &Vote) -> (r: Result<(), ConsensusError>)
    ensures
        r == vote_integrity(vote@),
{
    if vote.vote_owner.len() == 0 {
        return Err(ConsensusError::EmptyVoteOwner);
    }
    if vote.vote_hash.len() == 0 {
        return Err(ConsensusError::EmptyVoteHash);
    }
    if vote.signature.len() == 0 {
        return Err(ConsensusError::EmptySignature);
    }
    if vote.signature.len() != SIGNATURE_LENGTH {
        return Err(ConsensusError::MismatchedLength { expect: SIGNATURE_LENGTH, actual: vote.signature.len() });
    }
    let expected_hash = compute_vote_hash(vote);
    if !bytes_eq(&vote.vote_hash, &expected_hash) {
        return Err(ConsensusError::InvalidVoteHash);
    }
    let message = encode_for_signing(vote);
    match verify_vote_hash(&vote.signature, &vote.vote_owner, &message) {
        Err(e) => Err(e),
        Ok(false) => Err(ConsensusError::InvalidVoteSignature),
        Ok(true) => Ok(()),
    }
}

/// Validates a vote against the proposal's expiration and creation time, with the
/// clock reading `now`.
pub fn validate_vote_at(vote: &Vote, expiration_timestamp: u64, creation_time: u64, now: u64) -> (r: Result<
    (),
    ConsensusError,
>)
    ensures
        r == vote_check(vote@, expiration_timestamp, creation_time, now),
{
    check_vote_integrity(vote)?;
    if vote.timestamp < creation_time {
        return Err(ConsensusError::TimestampOlderThanCreationTime);
    }
    if vote.timestamp > expiration_timestamp || now > expiration_timestamp {
        return Err(ConsensusError::VoteExpired);
    }
    Ok(())
}

/// Validates a vote against the proposal's expiration and creation time, reading
/// the system clock.
pub fn validate_vote(vote: &Vote, expiration_timestamp: u64, creation_time: u64) -> (r: Result<
    (),
    ConsensusError,
>)
    ensures
        vote_integrity(vote@) is Err ==> r == vote_integrity(vote@),
        r == Err::<(), _>(ConsensusError::FailedToGetCurrentTime) || exists|now: u64|
            r == #[trigger] vote_check(vote@, expiration_timestamp, creation_time, now),
{
    if let Err(e) = check_vote_integrity(vote) {
        assert(Err::<(), _>(e) == vote_check(vote@, expiration_timestamp, creation_time, 0));
        return Err(e);
    }
    let now = current_timestamp()?;
    let r = validate_vote_at(vote, expiration_timestamp, creation_time, now);
    assert(r == vote_check(vote@, expiration_timestamp, creation_time, now));
    r
}

// ---------------------------------------------------------------------------
// Vote chain validation.

/// The index of the last vote before position `k` whose `vote_hash` is `h`, or -1.
pub open spec fn last_with_hash(votes: Seq<VoteView>, h: Seq<u8>, k: int) -> int
    decreases k,
{
    if k <= 0 {
        -1
    } else if votes[k - 1].vote_hash == h {
        k - 1
    } else {
        last_with_hash(votes, h, k - 1)
    }
}

/// Vote `i` names a predecessor in `received_hash` that is not the vote just
/// before it, or that vote is later in time.
pub open spec fn received_link_broken(votes: Seq<VoteView>, i: int) -> bool {
    i > 0 && votes[i].received_hash.len() > 0 && (votes[i].received_hash != votes[i
        - 1].vote_hash || votes[i - 1].timestamp > votes[i].timestamp)
}

/// Vote `i` names a `parent_hash` that is not an earlier vote of the same owner
/// (the last vote holding that hash is the one looked at).
pub open spec fn parent_link_broken(votes: Seq<VoteView>, i: int) -> bool {
    let j = last_with_hash(votes, votes[i].parent_hash, votes.len() as int);
    votes[i].parent_hash.len() > 0 && !(0 <= j < i && votes[j].vote_owner == votes[i].vote_owner
        && votes[j].timestamp <= votes[i].timestamp)
}

/// The outcome of checking the links of votes `i..` of the chain.
pub open spec fn chain_check_from(votes: Seq<VoteView>, i: int) -> Result<(), ConsensusError>
    decreases votes.len() - i,
{
    if i < 0 || i >= votes.len() {
        Ok(())
    } else if received_link_broken(votes, i) {
        Err(ConsensusError::ReceivedHashMismatch)
    } else if parent_link_broken(votes, i) {
        Err(ConsensusError::ParentHashMismatch)
    } else {
        chain_check_from(votes, i + 1)
    }
}

/// The outcome of checking a whole vote chain; one vote or none always passes.
pub open spec fn chain_check(votes: Seq<VoteView>) -> Result<(), ConsensusError> {
    if votes.len() <= 1 {
        Ok(())
    } else {
        chain_check_from(votes, 0)
    }
}

/// A broken chain is reported as a broken received link or a broken parent link.
pub proof fn lemma_chain_errors(votes: Seq<VoteView>, i: int)
    ensures
        chain_check_from(votes, i) is Err ==> chain_check_from(votes, i) == Err::<(), _>(ConsensusError::ReceivedHashMismatch)
            || chain_check_from(votes, i) == Err::<(), _>(ConsensusError::ParentHashMismatch),
    decreases votes.len() - i,
{
    if 0 <= i < votes.len() {
        lemma_chain_errors(votes, i + 1);
    }
}

fn find_last_with_hash(votes: &Vec<Vote>, h: &Vec<u8>) -> (r: Option<usize>)
    ensures
        match r {
            Some(j) => j as int == last_with_hash(votes_view(votes@), h@, votes.len() as int),
            None => last_with_hash(votes_view(votes@), h@, votes.len() as int) == -1,
        },
{
    let ghost vs = votes_view(votes@);
    let mut k: usize = votes.len();
    while k > 0
        invariant
            k <= votes.len(),
            vs == votes_view(votes@),
            last_with_hash(vs, h@, votes.len() as int) == last_with_hash(vs, h@, k as int),
        decreases k,
    {
        if bytes_eq(&votes[k - 1].vote_hash, h) {
            return Some(k - 1);
        }
        k = k - 1;
    }
    None
}

/// Checks that the votes form a correct hashgraph chain: each `received_hash`
/// names the vote just before, each `parent_hash` an earlier vote of the same owner.
pub fn validate_vote_chain(votes: &Vec<Vote>) -> (r: Result<(), ConsensusError>)
    ensures
        r == chain_check(votes_view(votes@)),
{
    if votes.len() <= 1 {
        return Ok(());
    }
    let ghost vs = votes_view(votes@);
    let mut i: usize = 0;
    while i < votes.len()
        invariant
            i <= votes.len(),
            votes.len() > 1,
            vs == votes_view(votes@),
            chain_check_from(vs, 0) == chain_check_from(vs, i as int),
        decreases votes.len() - i,
    {
        let vote = &votes[i];
        if i > 0 && vote.received_hash.len() > 0 {
            let prev = &votes[i - 1];
            if !bytes_eq(&vote.received_hash, &prev.vote_hash) || prev.timestamp > vote.timestamp {
                return Err(ConsensusError::ReceivedHashMismatch);
            }
        }
        if vote.parent_hash.len() > 0 {
            let j = match find_last_with_hash(votes, &vote.parent_hash) {
                Some(j) => j,
                None => {
                    return Err(ConsensusError::ParentHashMismatch);
                },
            };
            if j >= i {
                return Err(ConsensusError::ParentHashMismatch);
            }
            let parent = &votes[j];
            if !bytes_eq(&parent.vote_owner, &vote.vote_owner) || parent.timestamp > vote.timestamp {
                return Err(ConsensusError::ParentHashMismatch);
            }
        }
        i = i + 1;
    }
    Ok(())
}

// ---------------------------------------------------------------------------
// Proposal validation.

/// The outcome of checking votes `i..` of a proposal one by one.
pub open spec fn votes_check_from(p: ProposalView, now: u64, i: int) -> Result<(), ConsensusError>
    decreases p.votes.len() - i,
{
    if i < 0 || i >= p.votes.len() {
        Ok(())
    } else if p.votes[i].proposal_id != p.proposal_id {
        Err(ConsensusError::VoteProposalIdMismatch)
    } else {
        match vote_check(p.votes[i], p.expiration_timestamp, p.timestamp, now) {
            Err(e) => Err(e),
            Ok(_) => votes_check_from(p, now, i + 1),
        }
    }
}

/// The outcome of validating a proposal received from the network at time `now`.
pub open spec fn proposal_check(p: ProposalView, now: u64) -> Result<(), ConsensusError> {
    if now >= p.expiration_timestamp {
        Err(ConsensusError::ProposalExpired)
    } else {
        match votes_check_from(p, now, 0) {
            Err(e) => Err(e),
            Ok(_) => chain_check(p.votes),
        }
    }
}

/// Validates a proposal and every vote in it, with the clock reading `now`.
pub fn validate_proposal_at(proposal: &Proposal, now: u64) -> (r: Result<(), ConsensusError>)
    ensures
        r == proposal_check(proposal@, now),
{
    if now >= proposal.expiration_timestamp {
        return Err(ConsensusError::ProposalExpired);
    }
    let ghost p = proposal@;
    let mut i: usize = 0;
    while i < proposal.votes.len()
        invariant
            i <= proposal.votes.len(),
            p == proposal@,
            now < proposal.expiration_timestamp,
            votes_check_from(p, now, 0) == votes_check_from(p, now, i as int),
        decreases proposal.votes.len() - i,
    {
        let vote = &proposal.votes[i];
        assert(p.votes[i as int] == vote@);
        if vote.proposal_id != proposal.proposal_id {
            return Err(ConsensusError::VoteProposalIdMismatch);
        }
        validate_vote_at(vote, proposal.expiration_timestamp, proposal.timestamp, now)?;
        i = i + 1;
    }
    validate_vote_chain(&proposal.votes)
}

/// Validates a proposal and every vote in it, reading the system clock.
pub fn validate_proposal(proposal: &Proposal) -> (r: Result<(), ConsensusError>)
    ensures
        r == Err::<(), _>(ConsensusError::FailedToGetCurrentTime) || exists|now: u64|
            r == #[trigger] proposal_check(proposal@, now),
{
    let now = current_timestamp()?;
    let r = validate_proposal_at(proposal, now);
    assert(r == proposal_check(proposal@, now));
    r
}

/// `ProposalExpired` unless `now` is strictly before the expiration.
pub open spec fn timestamp_check(expiration_timestamp: u64, now: u64) -> Result<(), ConsensusError> {
    if now >= expiration_timestamp {
        Err(ConsensusError::ProposalExpired)
    } else {
        Ok(())
    }
}

/// Fails with `ProposalExpired` unless `now` is strictly before the expiration.
pub fn check_proposal_timestamp(expiration_timestamp: u64, now: u64) -> (r: Result<(), ConsensusError>)
    ensures
        r == timestamp_check(expiration_timestamp, now),
{
    if now >= expiration_timestamp {
        return Err(ConsensusError::ProposalExpired);
    }
    Ok(())
}

/// Fails with `ProposalExpired` unless the system clock is strictly before the
/// expiration.
pub fn validate_proposal_timestamp(expiration_timestamp: u64) -> (r: Result<(), ConsensusError>)
    ensures
        r == Err::<(), _>(ConsensusError::FailedToGetCurrentTime) || exists|now: u64|
            r == #[trigger] timestamp_check(expiration_timestamp, now),
{
    let now = current_timestamp()?;
    let r = check_proposal_timestamp(expiration_timestamp, now);
    assert(r == timestamp_check(expiration_timestamp, now));
    r
}

// ---------------------------------------------------------------------------
// Scalar validators.

/// Accepts a threshold in `[0, 1]`.
pub fn validate_threshold(threshold: Threshold) -> (r: Result<(), ConsensusError>)
    ensures
        r is Ok <==> threshold.valid(),
        r is Err ==> r == Err::<(), _>(ConsensusError::InvalidConsensusThreshold),
{
    if threshold.denominator == 0 || threshold.numerator > threshold.denominator {
        return Err(ConsensusError::InvalidConsensusThreshold);
    }
    Ok(())
}

/// Accepts a positive timeout (seconds).
pub fn validate_timeout(timeout: u64) -> (r: Result<(), ConsensusError>)
    ensures
        r is Ok <==> timeout > 0,
        r is Err ==> r == Err::<(), _>(ConsensusError::InvalidTimeout),
{
    if timeout == 0 {
        return Err(ConsensusError::InvalidTimeout);
    }
    Ok(())
}

/// Accepts a positive committee size.
pub fn validate_expected_voters_count(expected_voters_count: u32) -> (r: Result<(), ConsensusError>)
    ensures
        r is Ok <==> expected_voters_count > 0,
        r is Err ==> r == Err::<(), _>(ConsensusError::InvalidExpectedVotersCount),
{
    if expected_voters_count == 0 {
        return Err(ConsensusError::InvalidExpectedVotersCount);
    }
    Ok(())
}

// ---------------------------------------------------------------------------
// Tally.

/// `ceil(n * threshold)`.
pub open spec fn ceil_frac(n: nat, t: Threshold) -> nat {
    ((n * t.numerator + t.denominator - 1) / (t.denominator as int)) as nat
}

/// How many votes must be in before a committee of `n` can decide.
pub open spec fn required_votes(n: nat, t: Threshold) -> nat {
    if n <= 2 {
        n
    } else {
        ceil_frac(n, t)
    }
}

/// The number of YES votes.
pub open spec fn yes_count(votes: Seq<VoteView>) -> nat
    decreases votes.len(),
{
    if votes.len() == 0 {
        0
    } else {
        yes_count(votes.drop_last()) + if votes.last().vote { 1nat } else { 0nat }
    }
}

/// The decision for a committee of `n` with `total` votes in, `yes` of them YES.
pub open spec fn tally(n: nat, t: Threshold, liveness_yes: bool, total: nat, yes: nat) -> Option<bool> {
    if n <= 2 {
        if total < n {
            None
        } else {
            Some(yes == n)
        }
    } else {
        let required = ceil_frac(n, t);
        let no = total - yes;
        let silent = if n >= total { n - total } else { 0 };
        let yes_weight = yes + if liveness_yes { silent } else { 0 };
        let no_weight = no + if liveness_yes { 0 } else { silent };
        if total < required {
            None
        } else if yes_weight >= required && yes_weight > no_weight {
            Some(true)
        } else if no_weight >= required && no_weight > yes_weight {
            Some(false)
        } else if total == n && yes_weight == no_weight {
            Some(liveness_yes)
        } else {
            None
        }
    }
}

/// The decision on a set of accepted votes.
pub open spec fn consensus_of(votes: Seq<VoteView>, n: nat, t: Threshold, liveness_yes: bool) -> Option<bool> {
    tally(n, t, liveness_yes, votes.len(), yes_count(votes))
}

/// No more than `n` votes are ever required.
pub proof fn lemma_required_at_most_n(n: nat, t: Threshold)
    requires
        t.valid(),
    ensures
        required_votes(n, t) <= n,
{
    if n > 2 {
        lemma_mul_inequality(t.numerator as int, t.denominator as int, n as int);
        assert(n as int * t.numerator == t.numerator * n as int) by (nonlinear_arith);
        assert(n as int * t.denominator == t.denominator * n as int) by (nonlinear_arith);
        lemma_div_is_ordered(
            n * t.numerator + t.denominator - 1,
            n * t.denominator + t.denominator - 1,
            t.denominator as int,
        );
        lemma_fundamental_div_mod_converse(
            n * t.denominator + t.denominator - 1,
            t.denominator as int,
            n as int,
            t.denominator - 1,
        );
    }
}

proof fn lemma_yes_count_bound(votes: Seq<VoteView>)
    ensures
        yes_count(votes) <= votes.len(),
    decreases votes.len(),
{
    if votes.len() > 0 {
        lemma_yes_count_bound(votes.drop_last());
    }
}

/// `ceil(n * threshold)`, which never exceeds `n` for a threshold in `[0, 1]`.
fn threshold_based_value(n: u32, t: Threshold) -> (r: u32)
    requires
        t.valid(),
    ensures
        r as nat == ceil_frac(n as nat, t),
        r <= n,
{
    proof {
        let (a, b) = (n as int, t.numerator as int);
        assert(a * b <= 0xffff_ffff * 0xffff_ffff) by (nonlinear_arith)
            requires
                0 <= a <= 0xffff_ffff,
                0 <= b <= 0xffff_ffff,
        ;
    }
    let prod: u64 = (n as u64) * (t.numerator as u64);
    proof {
        lemma_mul_inequality(t.numerator as int, t.denominator as int, n as int);
        lemma_mul_inequality(n as int, u32::MAX as int, t.denominator as int);
        assert(n as int * t.numerator == t.numerator * n as int) by (nonlinear_arith);
        assert(n as int * t.denominator == t.denominator * n as int) by (nonlinear_arith);
        lemma_div_is_ordered(
            prod + t.denominator - 1,
            n * t.denominator + t.denominator - 1,
            t.denominator as int,
        );
        lemma_fundamental_div_mod_converse(
            n * t.denominator + t.denominator - 1,
            t.denominator as int,
            n as int,
            t.denominator - 1,
        );
    }
    let q: u64 = (prod + (t.denominator as u64) - 1) / (t.denominator as u64);
    q as u32
}

/// How many votes must be in before a committee of `expected_voters` can decide:
/// all of them for two or fewer, else `ceil(n * threshold)`.
pub fn calculate_required_votes(expected_voters: u32, consensus_threshold: Threshold) -> (r: u32)
    requires
        consensus_threshold.valid(),
    ensures
        r as nat == required_votes(expected_voters as nat, consensus_threshold),
        r <= expected_voters,
{
    if expected_voters <= 2 {
        expected_voters
    } else {
        threshold_based_value(expected_voters, consensus_threshold)
    }
}

/// The dynamic round limit of a point-to-point committee: `ceil(n * threshold)`.
pub fn calculate_max_rounds(expected_voters: u32, consensus_threshold: Threshold) -> (r: u32)
    requires
        consensus_threshold.valid(),
    ensures
        r as nat == ceil_frac(expected_voters as nat, consensus_threshold),
{
    threshold_based_value(expected_voters, consensus_threshold)
}

/// Whether `total_votes` reaches the number needed before a decision is possible.
pub fn has_sufficient_votes(total_votes: u32, expected_voters: u32, consensus_threshold: Threshold) -> (r: bool)
    requires
        consensus_threshold.valid(),
    ensures
        r == (total_votes as nat >= required_votes(expected_voters as nat, consensus_threshold)),
{
    total_votes >= calculate_required_votes(expected_voters, consensus_threshold)
}

/// Counts the YES votes.
pub fn count_yes_votes(votes: &Vec<Vote>) -> (r: usize)
    ensures
        r as nat == yes_count(votes_view(votes@)),
        r <= votes.len(),
{
    let ghost vs = votes_view(votes@);
    let mut count: usize = 0;
    let mut i: usize = 0;
    while i < votes.len()
        invariant
            i <= votes.len(),
            vs == votes_view(votes@),
            count as nat == yes_count(vs.subrange(0, i as int)),
            count <= i,
        decreases votes.len() - i,
    {
        assert(vs.subrange(0, i + 1).drop_last() =~= vs.subrange(0, i as int));
        if votes[i].vote {
            count = count + 1;
        }
        i = i + 1;
    }
    assert(vs.subrange(0, votes.len() as int) =~= vs);
    count
}

/// Decides YES, NO or not yet from the accepted votes, the committee size, the
/// threshold and the liveness bias. The decision depends on the vote counts only.
pub fn calculate_consensus_result(
    votes: &Vec<Vote>,
    expected_voters: u32,
    consensus_threshold: Threshold,
    liveness_criteria_yes: bool,
) -> (r: Option<bool>)
    requires
        consensus_threshold.valid(),
    ensures
        r == consensus_of(votes_view(votes@), expected_voters as nat, consensus_threshold, liveness_criteria_yes),
{
    let total: u64 = votes.len() as u64;
    let yes: u64 = count_yes_votes(votes) as u64;
    let no: u64 = total - yes;
    let n: u64 = expected_voters as u64;
    if expected_voters <= 2 {
        if total < n {
            return None;
        }
        return Some(yes == n);
    }
    let silent: u64 = if n >= total { n - total } else { 0 };
    let required: u64 = threshold_based_value(expected_voters, consensus_threshold) as u64;
    if total < required {
        return None;
    }
    let yes_weight: u64 = yes + if liveness_criteria_yes { silent } else { 0 };
    let no_weight: u64 = no + if liveness_criteria_yes { 0 } else { silent };
    if yes_weight >= required && yes_weight > no_weight {
        return Some(true);
    }
    if no_weight >= required && no_weight > yes_weight {
        return Some(false);
    }
    if total == n && yes_weight == no_weight {
        return Some(liveness_criteria_yes);
    }
    None
}

// ---------------------------------------------------------------------------
// The vote builder.

/// The index of the last vote before position `k` cast by `owner`, or -1.
pub open spec fn last_by_owner(votes: Seq<VoteView>, owner: Seq<u8>, k: int) -> int
    decreases k,
{
    if k <= 0 {
        -1
    } else if votes[k - 1].vote_owner == owner {
        k - 1
    } else {
        last_by_owner(votes, owner, k - 1)
    }
}

/// The vote `voter` casts on proposal `p` at time `now`, before hashing and
/// signing: `received_hash` names the proposal's last vote, `parent_hash` the
/// voter's own last vote.
pub open spec fn unhashed_vote(p: ProposalView, choice: bool, voter: Seq<u8>, vote_id: u32, now: u64) -> VoteView {
    let j = last_by_owner(p.votes, voter, p.votes.len() as int);
    VoteView {
        vote_id,
        vote_owner: voter,
        proposal_id: p.proposal_id,
        timestamp: now,
        vote: choice,
        parent_hash: if j >= 0 { p.votes[j].vote_hash } else { Seq::empty() },
        received_hash: if p.votes.len() > 0 { p.votes.last().vote_hash } else { Seq::empty() },
        vote_hash: Seq::empty(),
        signature: Seq::empty(),
    }
}

/// The vote the builder returns: [`unhashed_vote`] with its fingerprint, unsigned.
pub open spec fn built_vote(p: ProposalView, choice: bool, voter: Seq<u8>, vote_id: u32, now: u64) -> VoteView {
    let u = unhashed_vote(p, choice, voter, vote_id, now);
    VoteView { vote_hash: expected_vote_hash(u), ..u }
}

/// Builds the vote `voter` casts on `proposal` at time `now`, linked into the
/// hashgraph and carrying its hash; the signature is left empty for the signer.
pub fn build_vote_at(proposal: &Proposal, choice: bool, voter: Vec<u8>, vote_id: u32, now: u64) -> (r: Vote)
    ensures
        r@ == built_vote(proposal@, choice, voter@, vote_id, now),
        r@.vote_hash == expected_vote_hash(r@),
{
    let ghost pv = proposal@;
    let n = proposal.votes.len();
    let received_hash = if n > 0 {
        copy_bytes(&proposal.votes[n - 1].vote_hash)
    } else {
        Vec::new()
    };
    let mut k: usize = n;
    let mut found: Option<usize> = None;
    while k > 0 && found.is_none()
        invariant
            k <= n == proposal.votes.len(),
            pv == proposal@,
            match found {
                None => last_by_owner(pv.votes, voter@, n as int) == last_by_owner(pv.votes, voter@, k as int),
                Some(j) => j < n && last_by_owner(pv.votes, voter@, n as int) == j as int,
            },
        decreases k,
    {
        if bytes_eq(&proposal.votes[k - 1].vote_owner, &voter) {
            found = Some(k - 1);
        }
        k = k - 1;
    }
    let parent_hash = match found {
        Some(j) => copy_bytes(&proposal.votes[j].vote_hash),
        None => Vec::new(),
    };
    let mut vote = Vote {
        vote_id,
        vote_owner: voter,
        proposal_id: proposal.proposal_id,
        timestamp: now,
        vote: choice,
        parent_hash,
        received_hash,
        vote_hash: Vec::new(),
        signature: Vec::new(),
    };
    assert(vote@ == unhashed_vote(pv, choice, vote@.vote_owner, vote_id, now));
    let h = compute_vote_hash(&vote);
    vote.vote_hash = h;
    assert(hash_input(vote@) == hash_input(unhashed_vote(pv, choice, vote@.vote_owner, vote_id, now)));
    vote
}

} // verus!

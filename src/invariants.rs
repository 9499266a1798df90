//! Facts that hold of every session and of the registry, proved over the
//! operations' contracts.
use vstd::prelude::*;
use crate::codec::{recovered_address, signing_bytes};
use crate::service::{state_change_event, timeout_event_of, vote_event_of, ConsensusService};
use crate::session::{owner_set, ConsensusState, SessionView};
use crate::types::{Threshold, VoteView};
use crate::utils::{consensus_of, expected_vote_hash, yes_count};

verus! {

/// A session's round never goes down: voting, ingesting a batch and the timeout
/// all leave it where it was or move it up.
pub proof fn lemma_round_never_decreases(
    s: SessionView,
    v: VoteView,
    batch: Seq<VoteView>,
    expiration_timestamp: u64,
    creation_time: u64,
    now: u64,
)
    requires
        s.wf(),
    ensures
        s.add_vote_outcome(v, now).0.proposal.round >= s.proposal.round,
        s.initialize_outcome(batch, expiration_timestamp, creation_time, now).0.proposal.round >= s.proposal.round,
        s.timeout_outcome().0.proposal.round >= s.proposal.round,
{
}

/// Once a session is decided or failed, no operation changes it: not a vote, not
/// a batch of votes, not the timeout.
pub proof fn lemma_terminal_is_final(
    s: SessionView,
    v: VoteView,
    batch: Seq<VoteView>,
    expiration_timestamp: u64,
    creation_time: u64,
    now: u64,
)
    requires
        s.state != ConsensusState::Active,
    ensures
        s.add_vote_outcome(v, now).0 == s,
        s.initialize_outcome(batch, expiration_timestamp, creation_time, now).0 == s,
        s.timeout_outcome().0 == s,
{
}

/// The one-vote-per-owner map of a session has exactly the owners of the
/// proposal's votes as keys, one key per vote.
pub proof fn lemma_votes_map_matches_proposal(s: SessionView)
    requires
        s.wf(),
    ensures
        s.votes_map().dom() == owner_set(s.proposal.votes),
        s.votes_map().dom().len() == s.proposal.votes.len(),
{
    let votes = s.proposal.votes;
    let owners = votes.map_values(|v: VoteView| v.vote_owner);
    assert forall|o: Seq<u8>| s.votes_map().dom().contains(o) <==> owner_set(votes).contains(o) by {
        if s.votes_map().dom().contains(o) {
            let i = choose|i: int| 0 <= i < votes.len() && (#[trigger] votes[i]).vote_owner == o;
            assert(owners[i] == o);
        }
        if owner_set(votes).contains(o) {
            let i = choose|i: int| 0 <= i < owners.len() && owners[i] == o;
            assert(votes[i].vote_owner == o);
        }
    }
    assert(s.votes_map().dom() =~= owner_set(votes));
    assert(owners.no_duplicates()) by {
        assert forall|i: int, j: int| 0 <= i < owners.len() && 0 <= j < owners.len() && i != j implies owners[i]
            != owners[j] by {
            if i < j {
                assert(votes[i].vote_owner != votes[j].vote_owner);
            } else {
                assert(votes[j].vote_owner != votes[i].vote_owner);
            }
        }
    }
    owners.unique_seq_to_set();
}

/// Every vote stored in the registry carries its own fingerprint, and its
/// signature recovers to its owner.
pub proof fn lemma_stored_votes_authentic(svc: ConsensusService, scope: Seq<char>, i: int, j: int)
    requires
        svc.wf(),
        svc.sessions().contains_key(scope),
        0 <= i < svc.sessions()[scope].len(),
        0 <= j < svc.sessions()[scope][i].proposal.votes.len(),
    ensures
        ({
            let v = svc.sessions()[scope][i].proposal.votes[j];
            v.vote_hash == expected_vote_hash(v) && recovered_address(v.signature, signing_bytes(v)) == Some(
                v.vote_owner,
            )
        }),
{
    svc.lemma_sessions_wf();
    let s = svc.sessions()[scope][i];
    assert(s.wf());
    let v = s.proposal.votes[j];
    assert(crate::utils::vote_integrity(v) is Ok);
}

proof fn lemma_yes_count_remove(s: Seq<VoteView>, i: int)
    requires
        0 <= i < s.len(),
    ensures
        yes_count(s) == yes_count(s.remove(i)) + if s[i].vote { 1nat } else { 0nat },
    decreases s.len(),
{
    if i == s.len() - 1 {
        assert(s.remove(i) =~= s.drop_last());
    } else {
        lemma_yes_count_remove(s.drop_last(), i);
        assert(s.remove(i).drop_last() =~= s.drop_last().remove(i));
        assert(s.remove(i).last() == s.last());
    }
}

proof fn lemma_yes_count_permutation(a: Seq<VoteView>, b: Seq<VoteView>)
    requires
        a.to_multiset() == b.to_multiset(),
    ensures
        yes_count(a) == yes_count(b),
        a.len() == b.len(),
    decreases a.len(),
{
    broadcast use vstd::seq_lib::group_to_multiset_ensures;

    a.to_multiset_ensures();
    b.to_multiset_ensures();
    if a.len() > 0 {
        let x = a.last();
        assert(a.drop_last().push(x) =~= a);
        assert(a.to_multiset().count(x) > 0);
        assert(b.contains(x));
        let i = choose|i: int| 0 <= i < b.len() && b[i] == x;
        assert(a.drop_last().to_multiset() =~= a.to_multiset().remove(x));
        assert(b.remove(i).to_multiset() =~= b.to_multiset().remove(b[i]));
        lemma_yes_count_permutation(a.drop_last(), b.remove(i));
        lemma_yes_count_remove(b, i);
    } else {
        assert(a.to_multiset().len() == b.to_multiset().len());
        assert(b.len() == 0);
    }
    assert(a.to_multiset().len() == b.to_multiset().len());
}

/// The tally does not depend on the order in which votes arrived: the same
/// votes, the same committee size, threshold and bias give the same decision.
pub proof fn lemma_tally_order_independent(
    a: Seq<VoteView>,
    b: Seq<VoteView>,
    n: nat,
    t: Threshold,
    liveness_yes: bool,
)
    requires
        a.to_multiset() == b.to_multiset(),
    ensures
        consensus_of(a, n, t, liveness_yes) == consensus_of(b, n, t, liveness_yes),
{
    lemma_yes_count_permutation(a, b);
}

/// Running the timeout a second time changes nothing and answers as the first
/// time did.
pub proof fn lemma_timeout_idempotent(s: SessionView)
    ensures
        s.timeout_outcome().0.timeout_outcome() == s.timeout_outcome(),
{
}

/// A vote calls for an event exactly when it moves an active session to decided
/// or failed, and the event names the new state; a later vote on the closed
/// session calls for none.
pub proof fn lemma_vote_event_on_transition_only(s: SessionView, v: VoteView, now: u64)
    ensures
        vote_event_of(s.proposal.proposal_id, Some(s.state), s.add_vote_outcome(v, now).1)
            == state_change_event(s.proposal.proposal_id, s.state, s.add_vote_outcome(v, now).0.state),
{
    crate::utils::lemma_chain_errors(s.proposal.votes.push(v), 0);
}

/// A timeout calls for an event exactly when it moves an active session to
/// decided or failed; repeating it calls for none.
pub proof fn lemma_timeout_event_on_transition_only(s: SessionView)
    ensures
        timeout_event_of(s.proposal.proposal_id, Some(s.state), s.timeout_outcome().1)
            == state_change_event(s.proposal.proposal_id, s.state, s.timeout_outcome().0.state),
        timeout_event_of(
            s.proposal.proposal_id,
            Some(s.timeout_outcome().0.state),
            s.timeout_outcome().0.timeout_outcome().1,
        ) is None,
{
}

/// Whatever order its votes came in, a session that has not failed answers its
/// timeout with the decision of its votes, once they decide anything (a tie of
/// a full committee, for one, goes by the liveness bias).
pub proof fn lemma_timeout_answers_the_votes(s: SessionView)
    requires
        s.wf(),
        s.state != ConsensusState::Failed,
        s.decision() is Some,
    ensures
        s.timeout_outcome().1 == Ok::<bool, crate::error::ConsensusError>(s.decision()->Some_0),
        s.timeout_outcome().0.state == ConsensusState::ConsensusReached(s.decision()->Some_0),
{
}

} // verus!

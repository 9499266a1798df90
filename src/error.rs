use vstd::prelude::*;

verus! {

/// Every way an operation of the consensus engine can fail.
#[derive(Debug, Clone, PartialEq, Eq, Structural)]
pub enum ConsensusError {
    // configuration
    InvalidConsensusThreshold,
    InvalidTimeout,
    InvalidExpectedVotersCount,
    InvalidMaxRounds,
    // vote validation
    InvalidVoteSignature,
    EmptySignature,
    DuplicateVote,
    UserAlreadyVoted,
    VoteExpired,
    EmptyVoteOwner,
    InvalidVoteHash,
    EmptyVoteHash,
    VoteProposalIdMismatch,
    ReceivedHashMismatch,
    ParentHashMismatch,
    InvalidVoteTimestamp,
    TimestampOlderThanCreationTime,
    MismatchedLength { expect: usize, actual: usize },
    // liveness
    ProposalExpired,
    // session and state flow
    SessionNotActive,
    SessionNotFound,
    ProposalAlreadyExist,
    ScopeNotFound,
    ConsensusNotReached,
    ConsensusFailed,
    InsufficientVotesAtTimeout,
    MaxRoundsExceeded,
    // collaborators
    InvalidSignature,
    FailedToSignMessage,
    FailedToGetCurrentTime,
}

impl ConsensusError {
    /// A short human-readable description of the error.
    pub fn message(&self) -> (r: String) {
        match self {
            ConsensusError::InvalidConsensusThreshold => "consensus_threshold must be between 0.0 and 1.0".to_string(),
            ConsensusError::InvalidTimeout => "timeout must be greater than 0".to_string(),
            ConsensusError::InvalidExpectedVotersCount => "expected_voters_count must be greater than 0".to_string(),
            ConsensusError::InvalidMaxRounds => "max_rounds must be greater than 0".to_string(),
            ConsensusError::InvalidVoteSignature => "Invalid vote signature".to_string(),
            ConsensusError::EmptySignature => "Empty signature".to_string(),
            ConsensusError::DuplicateVote => "Duplicate vote".to_string(),
            ConsensusError::UserAlreadyVoted => "User already voted".to_string(),
            ConsensusError::VoteExpired => "Vote expired".to_string(),
            ConsensusError::EmptyVoteOwner => "Empty vote owner".to_string(),
            ConsensusError::InvalidVoteHash => "Invalid vote hash".to_string(),
            ConsensusError::EmptyVoteHash => "Empty vote hash".to_string(),
            ConsensusError::VoteProposalIdMismatch => "Vote proposal_id mismatch: vote belongs to different proposal".to_string(),
            ConsensusError::ReceivedHashMismatch => "Received hash mismatch".to_string(),
            ConsensusError::ParentHashMismatch => "Parent hash mismatch".to_string(),
            ConsensusError::InvalidVoteTimestamp => "Invalid vote timestamp".to_string(),
            ConsensusError::TimestampOlderThanCreationTime => "Vote timestamp is older than creation time".to_string(),
            ConsensusError::MismatchedLength { .. } => "Mismatched signature length".to_string(),
            ConsensusError::ProposalExpired => "Proposal expired".to_string(),
            ConsensusError::SessionNotActive => "Session not active".to_string(),
            ConsensusError::SessionNotFound => "Session not found".to_string(),
            ConsensusError::ProposalAlreadyExist => "Proposal already exist in consensus service".to_string(),
            ConsensusError::ScopeNotFound => "Scope not found".to_string(),
            ConsensusError::ConsensusNotReached => "Consensus not reached".to_string(),
            ConsensusError::ConsensusFailed => "Consensus failed".to_string(),
            ConsensusError::InsufficientVotesAtTimeout => "Insufficient votes at timeout".to_string(),
            ConsensusError::MaxRoundsExceeded => "Consensus exceeded configured max rounds".to_string(),
            ConsensusError::InvalidSignature => "Invalid signature".to_string(),
            ConsensusError::FailedToSignMessage => "Failed to sign message".to_string(),
            ConsensusError::FailedToGetCurrentTime => "Failed to get current time".to_string(),
        }
    }
}

} // verus!

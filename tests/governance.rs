use pallets::governance::{GovernanceError, GovernancePallet, ProposalStatus};

#[test]
fn governance_end_to_end() {
    let alice = 1u64;
    let bob = 2u64;
    let mut gov = GovernancePallet::new();
    assert_eq!(gov.create_proposal(alice, String::from("raise the limit")), Ok(0));
    {
        let p = gov.get_proposal(0).unwrap();
        assert_eq!(p.status, ProposalStatus::Active);
        assert_eq!(p.yes_votes, 0);
        assert_eq!(p.no_votes, 0);
        assert_eq!(p.description, "raise the limit");
    }
    assert_eq!(gov.vote_on_proposal(alice, 0, true), Ok(()));
    assert_eq!(gov.get_proposal(0).unwrap().yes_votes, 1);
    assert_eq!(gov.get_proposal(0).unwrap().no_votes, 0);
    assert_eq!(gov.vote_on_proposal(bob, 0, false), Ok(()));
    assert_eq!(gov.get_proposal(0).unwrap().yes_votes, 1);
    assert_eq!(gov.get_proposal(0).unwrap().no_votes, 1);
    assert_eq!(gov.vote_on_proposal(alice, 0, false), Err(GovernanceError::AlreadyVoted));
    assert_eq!(gov.finalize_proposal(0), Ok(ProposalStatus::Rejected));
    assert_eq!(gov.get_proposal(0).unwrap().status, ProposalStatus::Rejected);
}

#[test]
fn proposal_ids_are_sequential() {
    let mut gov = GovernancePallet::new();
    assert_eq!(gov.create_proposal(1, String::from("a")), Ok(0));
    assert_eq!(gov.create_proposal(1, String::from("b")), Ok(1));
    assert_eq!(gov.create_proposal(2, String::from("c")), Ok(2));
    assert_eq!(gov.get_proposal(1).unwrap().description, "b");
}

#[test]
fn second_vote_is_rejected_and_counts_stay() {
    let mut gov = GovernancePallet::new();
    assert_eq!(gov.create_proposal(1, String::from("p")), Ok(0));
    assert_eq!(gov.vote_on_proposal(5, 0, true), Ok(()));
    assert_eq!(gov.vote_on_proposal(5, 0, true), Err(GovernanceError::AlreadyVoted));
    assert_eq!(gov.vote_on_proposal(5, 0, false), Err(GovernanceError::AlreadyVoted));
    let p = gov.get_proposal(0).unwrap();
    assert_eq!(p.yes_votes, 1);
    assert_eq!(p.no_votes, 0);
}

#[test]
fn one_account_may_vote_on_each_proposal() {
    let mut gov = GovernancePallet::new();
    assert_eq!(gov.create_proposal(1, String::from("p")), Ok(0));
    assert_eq!(gov.create_proposal(1, String::from("q")), Ok(1));
    assert_eq!(gov.vote_on_proposal(5, 0, true), Ok(()));
    assert_eq!(gov.vote_on_proposal(5, 1, false), Ok(()));
    assert_eq!(gov.get_proposal(0).unwrap().yes_votes, 1);
    assert_eq!(gov.get_proposal(1).unwrap().no_votes, 1);
}

#[test]
fn vote_on_missing_proposal_fails() {
    let mut gov = GovernancePallet::new();
    assert_eq!(gov.vote_on_proposal(5, 3, true), Err(GovernanceError::ProposalNotFound));
    assert_eq!(gov.create_proposal(1, String::from("p")), Ok(0));
    assert_eq!(gov.vote_on_proposal(5, 1, true), Err(GovernanceError::ProposalNotFound));
    assert_eq!(gov.vote_on_proposal(5, 0, true), Ok(()));
}

#[test]
fn get_missing_proposal_is_none() {
    let gov = GovernancePallet::new();
    assert!(gov.get_proposal(0).is_none());
}

#[test]
fn finalize_missing_proposal_fails() {
    let mut gov = GovernancePallet::new();
    assert_eq!(gov.finalize_proposal(0), Err(GovernanceError::ProposalNotFound));
}

#[test]
fn finalize_majority_yes_approves() {
    let mut gov = GovernancePallet::new();
    assert_eq!(gov.create_proposal(1, String::from("p")), Ok(0));
    assert_eq!(gov.vote_on_proposal(1, 0, true), Ok(()));
    assert_eq!(gov.vote_on_proposal(2, 0, true), Ok(()));
    assert_eq!(gov.vote_on_proposal(3, 0, false), Ok(()));
    assert_eq!(gov.finalize_proposal(0), Ok(ProposalStatus::Approved));
    assert_eq!(gov.get_proposal(0).unwrap().status, ProposalStatus::Approved);
}

#[test]
fn finalize_tie_rejects() {
    let mut gov = GovernancePallet::new();
    assert_eq!(gov.create_proposal(1, String::from("p")), Ok(0));
    for voter in 0u64..3 {
        assert_eq!(gov.vote_on_proposal(voter, 0, true), Ok(()));
    }
    for voter in 3u64..6 {
        assert_eq!(gov.vote_on_proposal(voter, 0, false), Ok(()));
    }
    assert_eq!(gov.finalize_proposal(0), Ok(ProposalStatus::Rejected));
}

#[test]
fn finalize_without_votes_rejects() {
    let mut gov = GovernancePallet::new();
    assert_eq!(gov.create_proposal(1, String::from("p")), Ok(0));
    assert_eq!(gov.finalize_proposal(0), Ok(ProposalStatus::Rejected));
}

#[test]
fn voting_after_finalization_is_allowed_and_refinalizing_recomputes() {
    let mut gov = GovernancePallet::new();
    assert_eq!(gov.create_proposal(1, String::from("p")), Ok(0));
    assert_eq!(gov.finalize_proposal(0), Ok(ProposalStatus::Rejected));
    assert_eq!(gov.vote_on_proposal(4, 0, true), Ok(()));
    assert_eq!(gov.get_proposal(0).unwrap().status, ProposalStatus::Rejected);
    assert_eq!(gov.finalize_proposal(0), Ok(ProposalStatus::Approved));
    assert_eq!(gov.finalize_proposal(0), Ok(ProposalStatus::Approved));
}

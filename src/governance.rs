use crate::staking::AccountId;
use std::collections::HashMap;
use vstd::prelude::*;

verus! {

/// Where a proposal stands.
#[derive(Clone, Copy, Debug, PartialEq, Eq, Structural)]
pub enum ProposalStatus {
    Active,
    Approved,
    Rejected,
}

/// A governance item collecting yes/no votes.
pub struct Proposal {
    pub description: String,
    pub yes_votes: u32,
    pub no_votes: u32,
    pub status: ProposalStatus,
}

/// The ways a governance call can fail.
#[derive(Clone, Copy, Debug, PartialEq, Eq, Structural)]
pub enum GovernanceError {
    /// The account has already voted on this proposal.
    AlreadyVoted,
    /// No proposal has this identifier.
    ProposalNotFound,
}

/// The abstract state of a registry: its proposals by identifier, the vote
/// cast by each (account, proposal) pair, and the next identifier to allocate.
pub struct GovernanceState {
    pub proposals: Map<u32, Proposal>,
    pub votes: Map<(AccountId, u32), bool>,
    pub next_proposal_id: nat,
}

/// A freshly created proposal: active, with no votes.
pub open spec fn fresh_proposal(description: String) -> Proposal {
    Proposal { description, yes_votes: 0, no_votes: 0, status: ProposalStatus::Active }
}

/// `p` with one more vote counted on the side of `choice`.
pub open spec fn tallied(p: Proposal, choice: bool) -> Proposal {
    Proposal {
        description: p.description,
        yes_votes: if choice { (p.yes_votes + 1) as u32 } else { p.yes_votes },
        no_votes: if choice { p.no_votes } else { (p.no_votes + 1) as u32 },
        status: p.status,
    }
}

/// The outcome of resolving `p` now: approved on a strict majority of yes
/// votes, rejected otherwise (a tie included).
pub open spec fn resolution(p: Proposal) -> ProposalStatus {
    if p.yes_votes > p.no_votes {
        ProposalStatus::Approved
    } else {
        ProposalStatus::Rejected
    }
}

/// `p` with its status set to `status`.
pub open spec fn with_status(p: Proposal, status: ProposalStatus) -> Proposal {
    Proposal { description: p.description, yes_votes: p.yes_votes, no_votes: p.no_votes, status }
}

/// The accounts that cast `choice` on proposal `id` in `votes`.
pub open spec fn voters_with(votes: Map<(AccountId, u32), bool>, id: u32, choice: bool) -> Set<
    AccountId,
> {
    Set::new(|v: AccountId| votes.contains_key((v, id)) && votes[(v, id)] == choice)
}

/// Each proposal's counts equal the number of yes and of no votes recorded
/// for it.
pub open spec fn tallies_match(st: GovernanceState) -> bool {
    forall|id: u32| #[trigger]
        st.proposals.contains_key(id) ==> {
            &&& voters_with(st.votes, id, true).finite()
            &&& voters_with(st.votes, id, false).finite()
            &&& st.proposals[id].yes_votes == voters_with(st.votes, id, true).len()
            &&& st.proposals[id].no_votes == voters_with(st.votes, id, false).len()
        }
}

/// Proposals, the votes cast on them, and the counter that numbers them.
pub struct GovernancePallet {
    proposals: HashMap<u32, Proposal>,
    /// For each voter, the choice made on each proposal it voted on.
    votes: HashMap<AccountId, HashMap<u32, bool>>,
    next_proposal_id: u32,
}

impl View for GovernancePallet {
    type V = GovernanceState;

    closed spec fn view(&self) -> GovernanceState {
        GovernanceState {
            proposals: self.proposals@,
            votes: Map::new(
                |k: (AccountId, u32)|
                    self.votes@.contains_key(k.0) && self.votes@[k.0]@.contains_key(k.1),
                |k: (AccountId, u32)| self.votes@[k.0]@[k.1],
            ),
            next_proposal_id: self.next_proposal_id as nat,
        }
    }
}

impl GovernancePallet {
    /// Identifiers are allocated below the counter, votes refer only to
    /// proposals that exist, and each proposal's counts match its votes.
    pub open spec fn wf(&self) -> bool {
        &&& tallies_match(self@)
        &&& forall|id: u32| #[trigger]
            self@.proposals.contains_key(id) ==> (id as nat) < self@.next_proposal_id
        &&& forall|k: (AccountId, u32)| #[trigger]
            self@.votes.contains_key(k) ==> self@.proposals.contains_key(k.1)
    }

    /// `post` is `self` after `voter` cast `choice` on proposal `id`: the
    /// voter had not voted on it, the proposal exists, the vote is recorded
    /// and counted once.
    pub open spec fn is_vote(&self, post: &Self, voter: AccountId, id: u32, choice: bool) -> bool {
        &&& !self@.votes.contains_key((voter, id))
        &&& self@.proposals.contains_key(id)
        &&& post@.votes == self@.votes.insert((voter, id), choice)
        &&& post@.proposals == self@.proposals.insert(id, tallied(self@.proposals[id], choice))
        &&& post@.next_proposal_id == self@.next_proposal_id
    }

    /// An empty registry whose first proposal will be numbered zero.
    pub fn new() -> (r: Self)
        ensures
            r.wf(),
            r@.proposals == Map::<u32, Proposal>::empty(),
            r@.votes == Map::<(AccountId, u32), bool>::empty(),
            r@.next_proposal_id == 0,
    {
        let r = GovernancePallet { proposals: HashMap::new(), votes: HashMap::new(), next_proposal_id: 0 };
        assert(r@.votes =~= Map::<(AccountId, u32), bool>::empty());
        r
    }

    /// Stores a new active proposal with no votes under the next identifier,
    /// and returns that identifier. The creator is not checked.
    pub fn create_proposal(&mut self, _creator: AccountId, description: String) -> (r: Result<
        u32,
        GovernanceError,
    >)
        requires
            old(self).wf(),
            old(self)@.next_proposal_id < u32::MAX,
        ensures
            final(self).wf(),
            r == Ok::<u32, GovernanceError>(old(self)@.next_proposal_id as u32),
            !old(self)@.proposals.contains_key(old(self)@.next_proposal_id as u32),
            final(self)@.proposals == old(self)@.proposals.insert(
                old(self)@.next_proposal_id as u32,
                fresh_proposal(description),
            ),
            final(self)@.votes == old(self)@.votes,
            final(self)@.next_proposal_id == old(self)@.next_proposal_id + 1,
    {
        let proposal_id = self.next_proposal_id;
        self.next_proposal_id = self.next_proposal_id + 1;
        self.proposals.insert(
            proposal_id,
            Proposal { description, yes_votes: 0, no_votes: 0, status: ProposalStatus::Active },
        );
        assert(final(self)@.votes =~= old(self)@.votes);
        assert forall|c: bool| #[trigger] voters_with(final(self)@.votes, proposal_id, c) =~= Set::<
            AccountId,
        >::empty() by {
            assert forall|v: AccountId| !#[trigger] old(self)@.votes.contains_key((v, proposal_id)) by {
                if old(self)@.votes.contains_key((v, proposal_id)) {
                    assert(old(self)@.proposals.contains_key(proposal_id));
                }
            }
        }
        Ok(proposal_id)
    }

    /// Records the vote of `voter` on proposal `proposal_id` and counts it.
    /// Fails with `AlreadyVoted` where that voter already voted on it (checked
    /// first), else with `ProposalNotFound` where the proposal does not exist;
    /// a failed call changes nothing. The proposal's status is not consulted.
    pub fn vote_on_proposal(&mut self, voter: AccountId, proposal_id: u32, vote_type: bool) -> (r:
        Result<(), GovernanceError>)
        requires
            old(self).wf(),
            old(self)@.proposals.contains_key(proposal_id) ==> if vote_type {
                old(self)@.proposals[proposal_id].yes_votes < u32::MAX
            } else {
                old(self)@.proposals[proposal_id].no_votes < u32::MAX
            },
        ensures
            final(self).wf(),
            old(self)@.votes.contains_key((voter, proposal_id)) ==> r == Err::<(), GovernanceError>(
                GovernanceError::AlreadyVoted,
            ),
            !old(self)@.votes.contains_key((voter, proposal_id)) && !old(
                self,
            )@.proposals.contains_key(proposal_id) ==> r == Err::<(), GovernanceError>(
                GovernanceError::ProposalNotFound,
            ),
            !old(self)@.votes.contains_key((voter, proposal_id)) && old(
                self,
            )@.proposals.contains_key(proposal_id) ==> r is Ok,
            r is Ok <==> old(self).is_vote(final(self), voter, proposal_id, vote_type),
            r is Err ==> final(self)@ == old(self)@,
    {
        let already_voted = match self.votes.get(&voter) {
            Some(choices) => choices.contains_key(&proposal_id),
            None => false,
        };
        if already_voted {
            return Err(GovernanceError::AlreadyVoted);
        }
        if !self.proposals.contains_key(&proposal_id) {
            return Err(GovernanceError::ProposalNotFound);
        }
        let mut proposal = match self.proposals.remove(&proposal_id) {
            Some(p) => p,
            None => return Err(GovernanceError::ProposalNotFound),
        };
        if vote_type {
            proposal.yes_votes = proposal.yes_votes + 1;
        } else {
            proposal.no_votes = proposal.no_votes + 1;
        }
        self.proposals.insert(proposal_id, proposal);
        let mut choices = match self.votes.remove(&voter) {
            Some(m) => m,
            None => HashMap::new(),
        };
        choices.insert(proposal_id, vote_type);
        self.votes.insert(voter, choices);
        assert(final(self)@.votes =~= old(self)@.votes.insert((voter, proposal_id), vote_type));
        assert(final(self)@.proposals =~= old(self)@.proposals.insert(
            proposal_id,
            tallied(old(self)@.proposals[proposal_id], vote_type),
        ));
        assert forall|i: u32, c: bool|
            #![trigger voters_with(final(self)@.votes, i, c)]
            (i != proposal_id || c != vote_type) ==> voters_with(final(self)@.votes, i, c)
                =~= voters_with(old(self)@.votes, i, c) by {}
        assert(voters_with(final(self)@.votes, proposal_id, vote_type) =~= voters_with(
            old(self)@.votes,
            proposal_id,
            vote_type,
        ).insert(voter));
        assert(tallies_match(final(self)@)) by {
            assert forall|i: u32| #[trigger] final(self)@.proposals.contains_key(i) implies {
                &&& voters_with(final(self)@.votes, i, true).finite()
                &&& voters_with(final(self)@.votes, i, false).finite()
                &&& final(self)@.proposals[i].yes_votes == voters_with(final(self)@.votes, i, true).len()
                &&& final(self)@.proposals[i].no_votes == voters_with(final(self)@.votes, i, false).len()
            } by {
                assert(old(self)@.proposals.contains_key(i));
                assert(voters_with(final(self)@.votes, i, true) == voters_with(old(self)@.votes, i, true)
                    || (i == proposal_id && vote_type));
                assert(voters_with(final(self)@.votes, i, false) == voters_with(old(self)@.votes, i, false)
                    || (i == proposal_id && !vote_type));
            }
        }
        Ok(())
    }

    /// The proposal numbered `proposal_id`, if there is one.
    pub fn get_proposal(&self, proposal_id: u32) -> (r: Option<&Proposal>)
        ensures
            match r {
                Some(p) => self@.proposals.contains_key(proposal_id) && *p
                    == self@.proposals[proposal_id],
                None => !self@.proposals.contains_key(proposal_id),
            },
    {
        self.proposals.get(&proposal_id)
    }

    /// Resolves proposal `proposal_id` by its current counts: `Approved` on a
    /// strict majority of yes votes, else `Rejected`. Stores and returns the
    /// new status; fails with `ProposalNotFound`, changing nothing, where the
    /// proposal does not exist. Nothing stops a repeated call.
    pub fn finalize_proposal(&mut self, proposal_id: u32) -> (r: Result<
        ProposalStatus,
        GovernanceError,
    >)
        requires
            old(self).wf(),
        ensures
            final(self).wf(),
            !old(self)@.proposals.contains_key(proposal_id) ==> r == Err::<
                ProposalStatus,
                GovernanceError,
            >(GovernanceError::ProposalNotFound) && final(self)@ == old(self)@,
            old(self)@.proposals.contains_key(proposal_id) ==> {
                &&& r == Ok::<ProposalStatus, GovernanceError>(
                    resolution(old(self)@.proposals[proposal_id]),
                )
                &&& final(self)@.proposals == old(self)@.proposals.insert(
                    proposal_id,
                    with_status(
                        old(self)@.proposals[proposal_id],
                        resolution(old(self)@.proposals[proposal_id]),
                    ),
                )
                &&& final(self)@.votes == old(self)@.votes
                &&& final(self)@.next_proposal_id == old(self)@.next_proposal_id
            },
    {
        if !self.proposals.contains_key(&proposal_id) {
            return Err(GovernanceError::ProposalNotFound);
        }
        let mut proposal = match self.proposals.remove(&proposal_id) {
            Some(p) => p,
            None => return Err(GovernanceError::ProposalNotFound),
        };
        let status = if proposal.yes_votes > proposal.no_votes {
            ProposalStatus::Approved
        } else {
            ProposalStatus::Rejected
        };
        proposal.status = status;
        self.proposals.insert(proposal_id, proposal);
        assert(final(self)@.proposals =~= old(self)@.proposals.insert(
            proposal_id,
            with_status(old(self)@.proposals[proposal_id], status),
        ));
        assert(final(self)@.votes =~= old(self)@.votes);
        assert(tallies_match(final(self)@)) by {
            assert forall|i: u32| #[trigger] final(self)@.proposals.contains_key(i) implies old(
                self,
            )@.proposals.contains_key(i) by {}
        }
        Ok(status)
    }
}

/// One vote per account per proposal: once `voter` has voted on proposal
/// `id`, the pair stays recorded and no further vote by it on that proposal
/// can succeed, whatever its choice; by the contract of `vote_on_proposal`
/// such a call fails with `AlreadyVoted` and leaves the counts as they are.
pub proof fn lemma_vote_once(
    pre: GovernancePallet,
    post: GovernancePallet,
    voter: AccountId,
    id: u32,
    choice: bool,
)
    requires
        pre.is_vote(&post, voter, id, choice),
    ensures
        post@.votes.contains_key((voter, id)),
        forall|later: GovernancePallet, again: bool| !#[trigger] post.is_vote(&later, voter, id, again),
{
}

} // verus!

//! Two ledger modules of a deterministic state-transition runtime: a staking
//! ledger that moves funds between free and staked balances, and a governance
//! registry that tallies one vote per account on each proposal.

pub mod governance;
pub mod staking;

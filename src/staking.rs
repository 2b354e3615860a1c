use std::collections::HashMap;
use vstd::prelude::*;

verus! {

/// Identifies an account; supplied by the surrounding runtime.
pub type AccountId = u64;

/// An amount of funds. Never negative; arithmetic on it is checked.
pub type Balance = u128;

/// The ways a transfer between free and staked funds can fail.
#[derive(Clone, Copy, Debug, PartialEq, Eq, Structural)]
pub enum StakingError {
    /// The amount exceeds the balance it would be taken from.
    InsufficientFunds,
    /// The balance it would be added to cannot hold the sum.
    Overflow,
}

/// Relies on `num::Zero::zero` for `u128`: the additive identity, `0`.
#[verifier::external_body]
fn balance_zero() -> (r: Balance)
    ensures
        r == 0,
{
    <Balance as num::Zero>::zero()
}

/// Relies on `num::CheckedSub::checked_sub` for `u128`: the difference, or
/// `None` where it would fall below zero.
#[verifier::external_body]
fn balance_checked_sub(a: Balance, b: Balance) -> (r: Option<Balance>)
    ensures
        r == (if b <= a { Some((a - b) as Balance) } else { None::<Balance> }),
{
    num::CheckedSub::checked_sub(&a, &b)
}

/// Relies on `num::CheckedAdd::checked_add` for `u128`: the sum, or `None`
/// where it would exceed `u128::MAX`.
#[verifier::external_body]
fn balance_checked_add(a: Balance, b: Balance) -> (r: Option<Balance>)
    ensures
        r == (if a + b <= Balance::MAX { Some((a + b) as Balance) } else { None::<Balance> }),
{
    num::CheckedAdd::checked_add(&a, &b)
}

/// The balance that `m` records for `who`; an absent entry counts as zero.
pub open spec fn balance_in(m: Map<AccountId, Balance>, who: AccountId) -> Balance {
    if m.contains_key(who) {
        m[who]
    } else {
        0
    }
}

/// Free and staked balances of every account.
pub struct StakingPallet {
    /// Funds available to stake, by account.
    pub free_balances: HashMap<AccountId, Balance>,
    /// Funds locked by staking, by account.
    pub staked_balances: HashMap<AccountId, Balance>,
}

impl StakingPallet {
    /// The free balance of `who`.
    pub open spec fn free_of(&self, who: AccountId) -> Balance {
        balance_in(self.free_balances@, who)
    }

    /// The staked balance of `who`.
    pub open spec fn staked_of(&self, who: AccountId) -> Balance {
        balance_in(self.staked_balances@, who)
    }

    /// `post` is `self` after moving `amount` of the funds of `who` from free
    /// to staked, which neither underflows nor overflows.
    pub open spec fn is_stake(&self, post: &Self, who: AccountId, amount: Balance) -> bool {
        &&& amount <= self.free_of(who)
        &&& self.staked_of(who) + amount <= Balance::MAX
        &&& post.free_balances@ == self.free_balances@.insert(
            who,
            (self.free_of(who) - amount) as Balance,
        )
        &&& post.staked_balances@ == self.staked_balances@.insert(
            who,
            (self.staked_of(who) + amount) as Balance,
        )
    }

    /// `post` is `self` after moving `amount` of the funds of `who` from
    /// staked to free, which neither underflows nor overflows.
    pub open spec fn is_unstake(&self, post: &Self, who: AccountId, amount: Balance) -> bool {
        &&& amount <= self.staked_of(who)
        &&& self.free_of(who) + amount <= Balance::MAX
        &&& post.free_balances@ == self.free_balances@.insert(
            who,
            (self.free_of(who) + amount) as Balance,
        )
        &&& post.staked_balances@ == self.staked_balances@.insert(
            who,
            (self.staked_of(who) - amount) as Balance,
        )
    }

    /// A ledger in which every account holds nothing.
    pub fn new() -> (r: Self)
        ensures
            r.free_balances@ == Map::<AccountId, Balance>::empty(),
            r.staked_balances@ == Map::<AccountId, Balance>::empty(),
    {
        StakingPallet { free_balances: HashMap::new(), staked_balances: HashMap::new() }
    }

    /// Overwrites the free balance of `who` with `amount`.
    pub fn set_balance(&mut self, who: AccountId, amount: Balance)
        ensures
            final(self).free_balances@ == old(self).free_balances@.insert(who, amount),
            final(self).staked_balances@ == old(self).staked_balances@,
    {
        self.free_balances.insert(who, amount);
    }

    /// Moves `amount` of the funds of `who` from free to staked. Fails, and
    /// changes nothing, where the free balance is short of `amount` or the
    /// staked balance cannot hold the sum.
    pub fn stake(&mut self, who: AccountId, amount: Balance) -> (r: Result<(), StakingError>)
        ensures
            amount > old(self).free_of(who) ==> r == Err::<(), StakingError>(
                StakingError::InsufficientFunds,
            ),
            amount <= old(self).free_of(who) && old(self).staked_of(who) + amount > Balance::MAX
                ==> r == Err::<(), StakingError>(StakingError::Overflow),
            amount <= old(self).free_of(who) && old(self).staked_of(who) + amount <= Balance::MAX
                ==> r is Ok,
            r is Ok <==> old(self).is_stake(final(self), who, amount),
            r is Err ==> *final(self) == *old(self),
    {
        let available_balance = self.get_free_balance(who);
        let current_stake = self.get_staked_balance(who);
        let new_free_balance = match balance_checked_sub(available_balance, amount) {
            Some(b) => b,
            None => return Err(StakingError::InsufficientFunds),
        };
        let new_stake_balance = match balance_checked_add(current_stake, amount) {
            Some(b) => b,
            None => return Err(StakingError::Overflow),
        };
        self.free_balances.insert(who, new_free_balance);
        self.staked_balances.insert(who, new_stake_balance);
        Ok(())
    }

    /// Moves `amount` of the funds of `who` from staked to free. Fails, and
    /// changes nothing, where the staked balance is short of `amount` or the
    /// free balance cannot hold the sum.
    pub fn unstake(&mut self, who: AccountId, amount: Balance) -> (r: Result<(), StakingError>)
        ensures
            amount > old(self).staked_of(who) ==> r == Err::<(), StakingError>(
                StakingError::InsufficientFunds,
            ),
            amount <= old(self).staked_of(who) && old(self).free_of(who) + amount > Balance::MAX
                ==> r == Err::<(), StakingError>(StakingError::Overflow),
            amount <= old(self).staked_of(who) && old(self).free_of(who) + amount <= Balance::MAX
                ==> r is Ok,
            r is Ok <==> old(self).is_unstake(final(self), who, amount),
            r is Err ==> *final(self) == *old(self),
    {
        let current_stake = self.get_staked_balance(who);
        let available_balance = self.get_free_balance(who);
        let new_stake_balance = match balance_checked_sub(current_stake, amount) {
            Some(b) => b,
            None => return Err(StakingError::InsufficientFunds),
        };
        let new_free_balance = match balance_checked_add(available_balance, amount) {
            Some(b) => b,
            None => return Err(StakingError::Overflow),
        };
        self.free_balances.insert(who, new_free_balance);
        self.staked_balances.insert(who, new_stake_balance);
        Ok(())
    }

    /// The free balance of `who`, zero for an account never funded.
    pub fn get_free_balance(&self, who: AccountId) -> (r: Balance)
        ensures
            r == self.free_of(who),
    {
        match self.free_balances.get(&who) {
            Some(b) => *b,
            None => balance_zero(),
        }
    }

    /// The staked balance of `who`, zero for an account that never staked.
    pub fn get_staked_balance(&self, who: AccountId) -> (r: Balance)
        ensures
            r == self.staked_of(who),
    {
        match self.staked_balances.get(&who) {
            Some(b) => *b,
            None => balance_zero(),
        }
    }
}

/// Staking `amount` for `who` and then unstaking the same amount restores the
/// free and staked balance of every account exactly.
pub proof fn lemma_stake_unstake_round_trip(
    pre: StakingPallet,
    mid: StakingPallet,
    post: StakingPallet,
    who: AccountId,
    amount: Balance,
)
    requires
        pre.is_stake(&mid, who, amount),
        mid.is_unstake(&post, who, amount),
    ensures
        forall|a: AccountId|
            post.free_of(a) == pre.free_of(a) && #[trigger] post.staked_of(a) == pre.staked_of(a),
{
}

/// Funds are conserved: once the free balance of `who` has been set to `v`
/// while nothing of it is staked, any run of successful stakes and unstakes on
/// `who` keeps its free plus staked balance equal to `v`. `ledgers[i + 1]` is
/// `ledgers[i]` after the `i`-th call, which moved `amounts[i]`.
pub proof fn lemma_conservation(
    ledgers: Seq<StakingPallet>,
    amounts: Seq<Balance>,
    who: AccountId,
    v: Balance,
)
    requires
        ledgers.len() == amounts.len() + 1,
        ledgers[0].free_of(who) == v,
        ledgers[0].staked_of(who) == 0,
        forall|i: int|
            0 <= i < amounts.len() ==> ledgers[i].is_stake(&ledgers[i + 1], who, amounts[i])
                || ledgers[i].is_unstake(&ledgers[i + 1], who, amounts[i]),
    ensures
        ledgers.last().free_of(who) + ledgers.last().staked_of(who) == v,
    decreases amounts.len(),
{
    if amounts.len() > 0 {
        let n = amounts.len() - 1;
        lemma_conservation(ledgers.drop_last(), amounts.drop_last(), who, v);
        assert(ledgers.drop_last().last() == ledgers[n]);
        assert(ledgers[n].is_stake(&ledgers[n + 1], who, amounts[n])
            || ledgers[n].is_unstake(&ledgers[n + 1], who, amounts[n]));
    }
}

} // verus!

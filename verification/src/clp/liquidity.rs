//! Deposits into a pool of the registry and withdrawals from it.

use vstd::prelude::*;
use crate::clp::{
    agrees, lemma_pool_replaced, listed, pool_became, pool_of, ClpView, NearCLP, Outcome,
};
use crate::effects::{
    and_step, one_step, pay_near, pay_near_step, pull_tokens, pull_tokens_step, send_tokens,
    send_tokens_step, Invocation, Pending, PendingView, Step,
};
use crate::errors::ClpError;
use crate::pool::liquidity::{credited, debited, deposit_outcome, redeem_outcome};
use crate::pool::{AccountId, Balance};

verus! {

/// What a deposit does: the provider is credited at once, and the reserve
/// tokens owed are pulled from the provider, to be answered by taking the
/// deposit back if they do not arrive.
pub open spec fn add_liquidity_model(
    c: ClpView,
    current: Seq<char>,
    provider: Seq<char>,
    near_in: Balance,
    token: Seq<char>,
    max_token: Balance,
    min_shares: Balance,
) -> Outcome {
    if !listed(c.pools, token) {
        Err(ClpError::PoolMissing)
    } else {
        match deposit_outcome(pool_of(c.pools, token), near_in, max_token, min_shares) {
            Err(e) => Err(e),
            Ok(added) => Ok(
                (
                    c.with_pool(token, credited(pool_of(c.pools, token), provider, added)),
                    seq![
                        pull_tokens_step(
                            current,
                            token,
                            provider,
                            added.token_in,
                            PendingView::LiquidityDeposit { token, provider, added },
                        ),
                    ],
                ),
            ),
        }
    }
}

/// What a withdrawal does: the provider is charged at once, and both
/// amounts are paid out side by side.
pub open spec fn withdraw_liquidity_model(
    c: ClpView,
    provider: Seq<char>,
    token: Seq<char>,
    shares: Balance,
    min_near: Balance,
    min_tokens: Balance,
) -> Outcome {
    if shares == 0 || min_near == 0 || min_tokens == 0 {
        Err(ClpError::Zero)
    } else if !listed(c.pools, token) {
        Err(ClpError::PoolMissing)
    } else {
        match redeem_outcome(pool_of(c.pools, token), provider, shares, min_near, min_tokens) {
            Err(e) => Err(e),
            Ok(removed) => Ok(
                (
                    c.with_pool(token, debited(pool_of(c.pools, token), provider, removed)),
                    seq![
                        pay_near_step(provider, removed.near_out),
                        send_tokens_step(token, provider, removed.token_out),
                    ],
                ),
            ),
        }
    }
}

impl NearCLP {
    /// Adds the native amount attached to the call, and the reserve tokens
    /// that go with it, to the pool of `token`, for the caller.
    ///
    /// The first deposit into a pool sets its price: the caller pays
    /// `max_token_amount` tokens. Every later deposit has to keep the ratio
    /// of the reserves; it fails if that takes more than `max_token_amount`
    /// tokens or yields fewer than `min_shares_amount` shares.
    pub fn add_liquidity(
        &mut self,
        inv: &Invocation,
        token: AccountId,
        max_token_amount: Balance,
        min_shares_amount: Balance,
    ) -> (r: Result<Vec<Step>, ClpError>)
        requires
            old(self).wf(),
        ensures
            final(self).wf(),
            agrees(
                r,
                old(self)@,
                final(self)@,
                add_liquidity_model(
                    old(self)@,
                    inv.current@,
                    inv.predecessor@,
                    inv.attached_deposit,
                    token@,
                    max_token_amount,
                    min_shares_amount,
                ),
            ),
            r is Ok ==> pool_became(
                old(self)@.pools,
                final(self)@.pools,
                token@,
                credited(
                    pool_of(old(self)@.pools, token@),
                    inv.predecessor@,
                    deposit_outcome(
                        pool_of(old(self)@.pools, token@),
                        inv.attached_deposit,
                        max_token_amount,
                        min_shares_amount,
                    )->Ok_0,
                ),
            ),
    {
        let i = match self.find(&token) {
            None => {
                return Err(ClpError::PoolMissing);
            },
            Some(i) => i,
        };
        let credit = self.pools[i].pool.add_liquidity(
            &inv.predecessor,
            inv.attached_deposit,
            max_token_amount,
            min_shares_amount,
        );
        proof {
            lemma_pool_replaced(*old(self), *self, i as int);
        }
        match credit {
            Err(e) => {
                assert(self@.pools =~= old(self)@.pools);
                Err(e)
            },
            Ok(added) => {
                let next = Pending::LiquidityDeposit {
                    token: token.clone(),
                    provider: inv.predecessor.clone(),
                    added,
                };
                Ok(
                    one_step(
                        pull_tokens(
                            &inv.current,
                            token,
                            inv.predecessor.clone(),
                            added.token_in,
                            next,
                        ),
                    ),
                )
            },
        }
    }

    /// Redeems `shares` of the caller in the pool of `token` for the caller's
    /// fraction of both reserves, provided that it yields at least `min_near`
    /// of the native asset and `min_tokens` reserve tokens.
    pub fn withdraw_liquidity(
        &mut self,
        inv: &Invocation,
        token: AccountId,
        shares: Balance,
        min_near: Balance,
        min_tokens: Balance,
    ) -> (r: Result<Vec<Step>, ClpError>)
        requires
            old(self).wf(),
        ensures
            final(self).wf(),
            agrees(
                r,
                old(self)@,
                final(self)@,
                withdraw_liquidity_model(
                    old(self)@,
                    inv.predecessor@,
                    token@,
                    shares,
                    min_near,
                    min_tokens,
                ),
            ),
            r is Ok ==> pool_became(
                old(self)@.pools,
                final(self)@.pools,
                token@,
                debited(
                    pool_of(old(self)@.pools, token@),
                    inv.predecessor@,
                    redeem_outcome(
                        pool_of(old(self)@.pools, token@),
                        inv.predecessor@,
                        shares,
                        min_near,
                        min_tokens,
                    )->Ok_0,
                ),
            ),
    {
        if shares == 0 || min_near == 0 || min_tokens == 0 {
            return Err(ClpError::Zero);
        }
        let i = match self.find(&token) {
            None => {
                return Err(ClpError::PoolMissing);
            },
            Some(i) => i,
        };
        let debit = self.pools[i].pool.withdraw_liquidity(
            &inv.predecessor,
            shares,
            min_near,
            min_tokens,
        );
        proof {
            lemma_pool_replaced(*old(self), *self, i as int);
        }
        match debit {
            Err(e) => {
                assert(self@.pools =~= old(self)@.pools);
                Err(e)
            },
            Ok(removed) => {
                let first = pay_near(inv.predecessor.clone(), removed.near_out);
                let second = send_tokens(token, inv.predecessor.clone(), removed.token_out);
                let steps = and_step(one_step(first), second);
                assert(crate::effects::steps_of(steps@) =~= seq![first@, second@]);
                Ok(steps)
            },
        }
    }
}

} // verus!

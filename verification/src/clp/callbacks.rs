//! What is done when an effect has resolved.
//!
//! The host reports the outcome of each step in an invocation of its own,
//! made in the name of the account that the pools run under; a report from
//! anyone else is refused. A payment or transfer out that failed is
//! scheduled again. Reserve tokens that were pulled for a trade are traded
//! against the reserves as they then stand, within the limit that the trader
//! set, or sent back if that cannot be done. A deposit whose tokens did not
//! arrive is taken back, where the pool still covers it: that path is best
//! effort, and a refusal leaves the deposit standing.

use vstd::prelude::*;
use crate::clp::swaps::{two_hop_in_outcome, two_hop_out_outcome};
use crate::clp::{
    agrees, lemma_no_product_fell_trans, lemma_place_unique, lemma_pool_replaced, lemma_with_pool,
    listed, no_product_fell, pool_of, ClpView, NearCLP, Outcome,
};
use crate::effects::{
    and_near_change, and_token_change, near_change, no_steps, one_step, pay_near, pay_near_step,
    repeat_step, send_tokens, send_tokens_step, steps_of, token_change, Effect, EffectView,
    Invocation, Pending, PendingView, Step, StepView,
};
use crate::errors::ClpError;
use crate::pool::liquidity::{revert_outcome, uncredited, LiquidityAdded};
use crate::pool::swap::{
    after_near_in, after_tokens_in, exact_in_outcome, exact_out_outcome, lemma_trade_sound,
};
use crate::pool::{AccountId, Balance};

verus! {

/// The registry and no steps.
pub open spec fn nothing_to_do(c: ClpView) -> Outcome {
    Ok((c, Seq::<StepView>::empty()))
}

/// What follows an effect that is to be tried until it succeeds.
pub open spec fn retry_settled(c: ClpView, effect: EffectView, success: bool) -> Outcome {
    if success {
        nothing_to_do(c)
    } else {
        Ok((c, seq![StepView { effect, next: PendingView::Retry }]))
    }
}

/// What follows the pull of the tokens of a deposit: nothing if they
/// arrived; else the deposit is taken back and the native amount returned.
pub open spec fn deposit_settled(
    c: ClpView,
    token: Seq<char>,
    provider: Seq<char>,
    added: LiquidityAdded,
    success: bool,
) -> Outcome {
    if success {
        nothing_to_do(c)
    } else if !listed(c.pools, token) {
        Err(ClpError::PoolMissing)
    } else {
        let p = pool_of(c.pools, token);
        match revert_outcome(p, provider, added) {
            Err(e) => Err(e),
            Ok(_) => Ok(
                (
                    c.with_pool(token, uncredited(p, provider, added)),
                    near_change(provider, added.near_in),
                ),
            ),
        }
    }
}

/// What follows the pull of reserve tokens sold for the native asset.
pub open spec fn reserve_exact_in_settled(
    c: ClpView,
    token: Seq<char>,
    payer: Seq<char>,
    recipient: Seq<char>,
    tokens_paid: Balance,
    min_near: Balance,
    success: bool,
) -> Outcome {
    if !success {
        nothing_to_do(c)
    } else if !listed(c.pools, token) {
        Ok((c, token_change(token, payer, tokens_paid)))
    } else {
        let p = pool_of(c.pools, token);
        match exact_in_outcome(tokens_paid, min_near, p.token_bal as u128, p.near_bal as u128, c.fee) {
            Err(_) => Ok((c, token_change(token, payer, tokens_paid))),
            Ok(s) => Ok(
                (
                    c.with_pool(token, after_tokens_in(p, s)),
                    seq![pay_near_step(recipient, s.amount_out)],
                ),
            ),
        }
    }
}

/// What follows the pull of reserve tokens paid for an exact native amount.
pub open spec fn reserve_exact_out_settled(
    c: ClpView,
    token: Seq<char>,
    payer: Seq<char>,
    recipient: Seq<char>,
    near_out: Balance,
    tokens_paid: Balance,
    success: bool,
) -> Outcome {
    if !success {
        nothing_to_do(c)
    } else if !listed(c.pools, token) {
        Ok((c, token_change(token, payer, tokens_paid)))
    } else {
        let p = pool_of(c.pools, token);
        match exact_out_outcome(near_out, tokens_paid, p.near_bal as u128, p.token_bal as u128, c.fee) {
            Err(_) => Ok((c, token_change(token, payer, tokens_paid))),
            Ok(s) => Ok(
                (
                    c.with_pool(token, after_tokens_in(p, s)),
                    seq![pay_near_step(recipient, s.amount_out)] + token_change(
                        token,
                        payer,
                        (tokens_paid - s.amount_in) as u128,
                    ),
                ),
            ),
        }
    }
}

/// What follows the pull of tokens sold for tokens of another pool.
pub open spec fn tokens_exact_in_settled(
    c: ClpView,
    from: Seq<char>,
    to: Seq<char>,
    payer: Seq<char>,
    recipient: Seq<char>,
    tokens_paid: Balance,
    min_tokens_to: Balance,
    success: bool,
) -> Outcome {
    if !success {
        nothing_to_do(c)
    } else if from == to || !listed(c.pools, from) || !listed(c.pools, to) {
        Ok((c, token_change(from, payer, tokens_paid)))
    } else {
        let a = pool_of(c.pools, from);
        let b = pool_of(c.pools, to);
        match two_hop_in_outcome(a, b, tokens_paid, min_tokens_to, c.fee) {
            Err(_) => Ok((c, token_change(from, payer, tokens_paid))),
            Ok((first, second)) => Ok(
                (
                    c.with_pool(from, after_tokens_in(a, first)).with_pool(
                        to,
                        after_near_in(b, second),
                    ),
                    seq![send_tokens_step(to, recipient, second.amount_out)],
                ),
            ),
        }
    }
}

/// What follows the pull of tokens paid for an exact amount of tokens of
/// another pool.
pub open spec fn tokens_exact_out_settled(
    c: ClpView,
    from: Seq<char>,
    to: Seq<char>,
    payer: Seq<char>,
    recipient: Seq<char>,
    tokens_to: Balance,
    tokens_paid: Balance,
    success: bool,
) -> Outcome {
    if !success {
        nothing_to_do(c)
    } else if from == to || !listed(c.pools, from) || !listed(c.pools, to) {
        Ok((c, token_change(from, payer, tokens_paid)))
    } else {
        let a = pool_of(c.pools, from);
        let b = pool_of(c.pools, to);
        match two_hop_out_outcome(a, b, tokens_to, tokens_paid, c.fee) {
            Err(_) => Ok((c, token_change(from, payer, tokens_paid))),
            Ok((first, second)) => Ok(
                (
                    c.with_pool(from, after_tokens_in(a, first)).with_pool(
                        to,
                        after_near_in(b, second),
                    ),
                    seq![send_tokens_step(to, recipient, second.amount_out)] + token_change(
                        from,
                        payer,
                        (tokens_paid - first.amount_in) as u128,
                    ),
                ),
            ),
        }
    }
}

/// What the report of an effect's outcome does.
pub open spec fn on_complete_model(
    c: ClpView,
    current: Seq<char>,
    caller: Seq<char>,
    effect: EffectView,
    pending: PendingView,
    success: bool,
) -> Outcome {
    if caller != current {
        Err(ClpError::Unauthorized)
    } else {
        match pending {
            PendingView::Retry => retry_settled(c, effect, success),
            PendingView::LiquidityDeposit { token, provider, added } => deposit_settled(
                c,
                token,
                provider,
                added,
                success,
            ),
            PendingView::ReserveExactIn {
                token,
                payer,
                recipient,
                tokens_paid,
                min_near,
            } => reserve_exact_in_settled(
                c,
                token,
                payer,
                recipient,
                tokens_paid,
                min_near,
                success,
            ),
            PendingView::ReserveExactOut {
                token,
                payer,
                recipient,
                near_out,
                tokens_paid,
            } => reserve_exact_out_settled(
                c,
                token,
                payer,
                recipient,
                near_out,
                tokens_paid,
                success,
            ),
            PendingView::TokensExactIn {
                from,
                to,
                payer,
                recipient,
                tokens_paid,
                min_tokens_to,
            } => tokens_exact_in_settled(
                c,
                from,
                to,
                payer,
                recipient,
                tokens_paid,
                min_tokens_to,
                success,
            ),
            PendingView::TokensExactOut {
                from,
                to,
                payer,
                recipient,
                tokens_to,
                tokens_paid,
            } => tokens_exact_out_settled(
                c,
                from,
                to,
                payer,
                recipient,
                tokens_to,
                tokens_paid,
                success,
            ),
        }
    }
}

impl NearCLP {
    /// Takes a deposit back whose tokens did not arrive.
    fn settle_deposit(
        &mut self,
        token: &AccountId,
        provider: &AccountId,
        added: LiquidityAdded,
        success: bool,
    ) -> (r: Result<Vec<Step>, ClpError>)
        requires
            old(self).wf(),
        ensures
            final(self).wf(),
            agrees(
                r,
                old(self)@,
                final(self)@,
                deposit_settled(old(self)@, token@, provider@, added, success),
            ),
    {
        if success {
            return Ok(no_steps());
        }
        let i = match self.find(token) {
            None => {
                return Err(ClpError::PoolMissing);
            },
            Some(i) => i,
        };
        let reverted = self.pools[i].pool.revert_liquidity(provider, added);
        proof {
            lemma_pool_replaced(*old(self), *self, i as int);
        }
        match reverted {
            Err(e) => {
                assert(self@.pools =~= old(self)@.pools);
                Err(e)
            },
            Ok(_) => {
                let steps = and_near_change(no_steps(), provider, added.near_in);
                assert(steps_of(steps@) =~= near_change(provider@, added.near_in));
                Ok(steps)
            },
        }
    }

    /// Makes the trade of reserve tokens that have arrived, for the native
    /// asset, or sends them back.
    fn settle_reserve_exact_in(
        &mut self,
        token: &AccountId,
        payer: &AccountId,
        recipient: &AccountId,
        tokens_paid: Balance,
        min_near: Balance,
        success: bool,
    ) -> (r: Result<Vec<Step>, ClpError>)
        requires
            old(self).wf(),
        ensures
            final(self).wf(),
            agrees(
                r,
                old(self)@,
                final(self)@,
                reserve_exact_in_settled(
                    old(self)@,
                    token@,
                    payer@,
                    recipient@,
                    tokens_paid,
                    min_near,
                    success,
                ),
            ),
            no_product_fell(old(self)@.pools, final(self)@.pools),
    {
        if !success {
            return Ok(no_steps());
        }
        let back = and_token_change(no_steps(), token, payer, tokens_paid);
        assert(steps_of(back@) =~= token_change(token@, payer@, tokens_paid));
        let i = match self.find(token) {
            None => {
                return Ok(back);
            },
            Some(i) => i,
        };
        let fee = self.fee;
        let trade = self.pools[i].pool.swap_reserve_exact_in(tokens_paid, min_near, fee);
        proof {
            lemma_pool_replaced(*old(self), *self, i as int);
        }
        match trade {
            Err(_) => {
                assert(self@.pools =~= old(self)@.pools);
                Ok(back)
            },
            Ok(s) => Ok(one_step(pay_near(recipient.clone(), s.amount_out))),
        }
    }

    /// Makes the trade of reserve tokens that have arrived, for an exact
    /// native amount, or sends them back.
    fn settle_reserve_exact_out(
        &mut self,
        token: &AccountId,
        payer: &AccountId,
        recipient: &AccountId,
        near_out: Balance,
        tokens_paid: Balance,
        success: bool,
    ) -> (r: Result<Vec<Step>, ClpError>)
        requires
            old(self).wf(),
        ensures
            final(self).wf(),
            agrees(
                r,
                old(self)@,
                final(self)@,
                reserve_exact_out_settled(
                    old(self)@,
                    token@,
                    payer@,
                    recipient@,
                    near_out,
                    tokens_paid,
                    success,
                ),
            ),
            no_product_fell(old(self)@.pools, final(self)@.pools),
    {
        if !success {
            return Ok(no_steps());
        }
        let back = and_token_change(no_steps(), token, payer, tokens_paid);
        assert(steps_of(back@) =~= token_change(token@, payer@, tokens_paid));
        let i = match self.find(token) {
            None => {
                return Ok(back);
            },
            Some(i) => i,
        };
        let fee = self.fee;
        let trade = self.pools[i].pool.swap_reserve_exact_out(near_out, tokens_paid, fee);
        proof {
            lemma_pool_replaced(*old(self), *self, i as int);
        }
        match trade {
            Err(_) => {
                assert(self@.pools =~= old(self)@.pools);
                Ok(back)
            },
            Ok(s) => {
                proof {
                    lemma_trade_sound(
                        near_out,
                        tokens_paid,
                        old(self)@.pools[i as int].1.token_bal as u128,
                        old(self)@.pools[i as int].1.near_bal as u128,
                        fee,
                    );
                }
                let paid = one_step(pay_near(recipient.clone(), s.amount_out));
                Ok(and_token_change(paid, token, payer, tokens_paid - s.amount_in))
            },
        }
    }

    /// Makes both trades of a sale of tokens that have arrived for tokens of
    /// another pool, or sends them back.
    fn settle_tokens_exact_in(
        &mut self,
        from: &AccountId,
        to: &AccountId,
        payer: &AccountId,
        recipient: &AccountId,
        tokens_paid: Balance,
        min_tokens_to: Balance,
        success: bool,
    ) -> (r: Result<Vec<Step>, ClpError>)
        requires
            old(self).wf(),
        ensures
            final(self).wf(),
            agrees(
                r,
                old(self)@,
                final(self)@,
                tokens_exact_in_settled(
                    old(self)@,
                    from@,
                    to@,
                    payer@,
                    recipient@,
                    tokens_paid,
                    min_tokens_to,
                    success,
                ),
            ),
            no_product_fell(old(self)@.pools, final(self)@.pools),
    {
        if !success {
            return Ok(no_steps());
        }
        let back = and_token_change(no_steps(), from, payer, tokens_paid);
        assert(steps_of(back@) =~= token_change(from@, payer@, tokens_paid));
        if *from == *to {
            return Ok(back);
        }
        let (ia, ib) = match (self.find(from), self.find(to)) {
            (Some(ia), Some(ib)) => (ia, ib),
            _ => {
                return Ok(back);
            },
        };
        let (first, second) = match self.quote_tokens_exact_in(from, to, tokens_paid, min_tokens_to) {
            Err(_) => {
                return Ok(back);
            },
            Ok(legs) => legs,
        };
        self.pools[ia].pool.settle_tokens_in(first);
        let ghost mid = *self;
        proof {
            lemma_pool_replaced(*old(self), mid, ia as int);
            lemma_with_pool(old(self)@, from@, mid.pools@[ia as int].pool@);
            lemma_place_unique(mid@.pools, to@, ib as int);
        }
        self.pools[ib].pool.settle_near_in(second);
        proof {
            lemma_pool_replaced(mid, *self, ib as int);
            lemma_no_product_fell_trans(old(self)@.pools, mid@.pools, self@.pools);
        }
        Ok(one_step(send_tokens(to.clone(), recipient.clone(), second.amount_out)))
    }

    /// Makes both trades of a purchase of an exact amount of tokens with
    /// tokens of another pool that have arrived, or sends them back.
    fn settle_tokens_exact_out(
        &mut self,
        from: &AccountId,
        to: &AccountId,
        payer: &AccountId,
        recipient: &AccountId,
        tokens_to: Balance,
        tokens_paid: Balance,
        success: bool,
    ) -> (r: Result<Vec<Step>, ClpError>)
        requires
            old(self).wf(),
        ensures
            final(self).wf(),
            agrees(
                r,
                old(self)@,
                final(self)@,
                tokens_exact_out_settled(
                    old(self)@,
                    from@,
                    to@,
                    payer@,
                    recipient@,
                    tokens_to,
                    tokens_paid,
                    success,
                ),
            ),
            no_product_fell(old(self)@.pools, final(self)@.pools),
    {
        if !success {
            return Ok(no_steps());
        }
        let back = and_token_change(no_steps(), from, payer, tokens_paid);
        assert(steps_of(back@) =~= token_change(from@, payer@, tokens_paid));
        if *from == *to {
            return Ok(back);
        }
        let (ia, ib) = match (self.find(from), self.find(to)) {
            (Some(ia), Some(ib)) => (ia, ib),
            _ => {
                return Ok(back);
            },
        };
        let (first, second) = match self.quote_tokens_exact_out(from, to, tokens_to, tokens_paid) {
            Err(_) => {
                return Ok(back);
            },
            Ok(legs) => legs,
        };
        proof {
            let a = pool_of(old(self)@.pools, from@);
            lemma_trade_sound(
                second.amount_in,
                tokens_paid,
                a.token_bal as u128,
                a.near_bal as u128,
                self@.fee,
            );
        }
        self.pools[ia].pool.settle_tokens_in(first);
        let ghost mid = *self;
        proof {
            lemma_pool_replaced(*old(self), mid, ia as int);
            lemma_with_pool(old(self)@, from@, mid.pools@[ia as int].pool@);
            lemma_place_unique(mid@.pools, to@, ib as int);
        }
        self.pools[ib].pool.settle_near_in(second);
        proof {
            lemma_pool_replaced(mid, *self, ib as int);
            lemma_no_product_fell_trans(old(self)@.pools, mid@.pools, self@.pools);
        }
        let sent = one_step(send_tokens(to.clone(), recipient.clone(), second.amount_out));
        Ok(and_token_change(sent, from, payer, tokens_paid - first.amount_in))
    }

    /// Takes the report that `effect` has resolved, with what was to be done
    /// then, and does it. Only the account that the pools run under may
    /// report. No report of a trade lowers the product of a pool's reserves.
    pub fn on_complete(
        &mut self,
        inv: &Invocation,
        effect: &Effect,
        pending: &Pending,
        success: bool,
    ) -> (r: Result<Vec<Step>, ClpError>)
        requires
            old(self).wf(),
        ensures
            final(self).wf(),
            agrees(
                r,
                old(self)@,
                final(self)@,
                on_complete_model(
                    old(self)@,
                    inv.current@,
                    inv.predecessor@,
                    effect@,
                    pending@,
                    success,
                ),
            ),
            inv.predecessor@ != inv.current@ ==> r is Err && r->Err_0 == ClpError::Unauthorized,
            !(pending is LiquidityDeposit) ==> no_product_fell(
                old(self)@.pools,
                final(self)@.pools,
            ),
    {
        if inv.predecessor != inv.current {
            return Err(ClpError::Unauthorized);
        }
        match pending {
            Pending::Retry => {
                if success {
                    Ok(no_steps())
                } else {
                    Ok(one_step(repeat_step(effect)))
                }
            },
            Pending::LiquidityDeposit { token, provider, added } => self.settle_deposit(
                token,
                provider,
                *added,
                success,
            ),
            Pending::ReserveExactIn {
                token,
                payer,
                recipient,
                tokens_paid,
                min_near,
            } => self.settle_reserve_exact_in(
                token,
                payer,
                recipient,
                *tokens_paid,
                *min_near,
                success,
            ),
            Pending::ReserveExactOut {
                token,
                payer,
                recipient,
                near_out,
                tokens_paid,
            } => self.settle_reserve_exact_out(
                token,
                payer,
                recipient,
                *near_out,
                *tokens_paid,
                success,
            ),
            Pending::TokensExactIn {
                from,
                to,
                payer,
                recipient,
                tokens_paid,
                min_tokens_to,
            } => self.settle_tokens_exact_in(
                from,
                to,
                payer,
                recipient,
                *tokens_paid,
                *min_tokens_to,
                success,
            ),
            Pending::TokensExactOut {
                from,
                to,
                payer,
                recipient,
                tokens_to,
                tokens_paid,
            } => self.settle_tokens_exact_out(
                from,
                to,
                payer,
                recipient,
                *tokens_to,
                *tokens_paid,
                success,
            ),
        }
    }

    /// Takes the report on the pull of the reserve tokens of a deposit: the
    /// deposit of `added` by `provider` into the pool of `token` stands if
    /// they arrived, and is taken back if they did not.
    pub fn add_liquidity_transfer_callback(
        &mut self,
        inv: &Invocation,
        token: AccountId,
        provider: AccountId,
        added: LiquidityAdded,
        success: bool,
    ) -> (r: Result<Vec<Step>, ClpError>)
        requires
            old(self).wf(),
        ensures
            final(self).wf(),
            agrees(
                r,
                old(self)@,
                final(self)@,
                if inv.predecessor@ != inv.current@ {
                    Err(ClpError::Unauthorized)
                } else {
                    deposit_settled(old(self)@, token@, provider@, added, success)
                },
            ),
    {
        if inv.predecessor != inv.current {
            return Err(ClpError::Unauthorized);
        }
        self.settle_deposit(&token, &provider, added, success)
    }
}

} // verus!

//! Trades against the pools of the registry: the native asset for reserve
//! tokens, reserve tokens for the native asset, and the tokens of one pool
//! for those of another by way of the native asset.
//!
//! A trade that pays the native asset in is made at once, since the payment
//! comes with the call. A trade that pays reserve tokens in is priced and
//! checked at once, but made only when the tokens have arrived.

use vstd::prelude::*;
use crate::clp::{
    agrees, lemma_pool_replaced, listed, no_product_fell, pool_became, pool_of, ClpView, NearCLP,
    Outcome,
};
use crate::effects::{
    and_near_change, near_change, one_step, pull_tokens, pull_tokens_step, send_tokens,
    send_tokens_step, Invocation, Pending, PendingView, Step,
};
use crate::errors::ClpError;
use crate::pool::swap::{
    after_near_in, exact_in_outcome, exact_out_outcome, quote_exact_in, quote_exact_out,
    sound_trade, Swapped,
};
use crate::pool::{AccountId, Balance, PoolView};
use crate::pricing::Fee;

verus! {

/// Selling tokens of pool `a` for tokens of pool `b`: the trade in `a` for
/// the native asset, then the trade in `b` of all that it yields. Each pool
/// takes its fee.
pub open spec fn two_hop_in_outcome(
    a: PoolView,
    b: PoolView,
    tokens_in: Balance,
    min_out: Balance,
    fee: Fee,
) -> Result<(Swapped, Swapped), ClpError> {
    match exact_in_outcome(tokens_in, 1, a.token_bal as u128, a.near_bal as u128, fee) {
        Err(e) => Err(e),
        Ok(first) => match exact_in_outcome(
            first.amount_out,
            min_out,
            b.near_bal as u128,
            b.token_bal as u128,
            fee,
        ) {
            Err(e) => Err(e),
            Ok(second) => Ok((first, second)),
        },
    }
}

/// Buying tokens of pool `b` with tokens of pool `a`: the trade in `b` priced
/// first, then the trade in `a` that yields the native amount it costs. Each
/// pool takes its fee.
pub open spec fn two_hop_out_outcome(
    a: PoolView,
    b: PoolView,
    tokens_out: Balance,
    max_in: Balance,
    fee: Fee,
) -> Result<(Swapped, Swapped), ClpError> {
    match exact_out_outcome(tokens_out, u128::MAX, b.token_bal as u128, b.near_bal as u128, fee) {
        Err(e) => Err(e),
        Ok(second) => match exact_out_outcome(
            second.amount_in,
            max_in,
            a.near_bal as u128,
            a.token_bal as u128,
            fee,
        ) {
            Err(e) => Err(e),
            Ok(first) => Ok((first, second)),
        },
    }
}

/// What selling the attached native amount for reserve tokens does.
pub open spec fn swap_near_exact_in_model(
    c: ClpView,
    token: Seq<char>,
    near_in: Balance,
    min_tokens: Balance,
    recipient: Seq<char>,
) -> Outcome {
    if near_in == 0 || min_tokens == 0 {
        Err(ClpError::Zero)
    } else if !listed(c.pools, token) {
        Err(ClpError::PoolMissing)
    } else {
        let p = pool_of(c.pools, token);
        match exact_in_outcome(near_in, min_tokens, p.near_bal as u128, p.token_bal as u128, c.fee) {
            Err(e) => Err(e),
            Ok(s) => Ok(
                (
                    c.with_pool(token, after_near_in(p, s)),
                    seq![send_tokens_step(token, recipient, s.amount_out)],
                ),
            ),
        }
    }
}

/// What buying an exact amount of reserve tokens with the attached native
/// amount does: what is not needed of it goes back to the payer.
pub open spec fn swap_near_exact_out_model(
    c: ClpView,
    token: Seq<char>,
    tokens_out: Balance,
    max_near: Balance,
    payer: Seq<char>,
    recipient: Seq<char>,
) -> Outcome {
    if tokens_out == 0 || max_near == 0 {
        Err(ClpError::Zero)
    } else if !listed(c.pools, token) {
        Err(ClpError::PoolMissing)
    } else {
        let p = pool_of(c.pools, token);
        match exact_out_outcome(
            tokens_out,
            max_near,
            p.token_bal as u128,
            p.near_bal as u128,
            c.fee,
        ) {
            Err(e) => Err(e),
            Ok(s) => Ok(
                (
                    c.with_pool(token, after_near_in(p, s)),
                    seq![send_tokens_step(token, recipient, s.amount_out)] + near_change(
                        payer,
                        (max_near - s.amount_in) as u128,
                    ),
                ),
            ),
        }
    }
}

/// What selling reserve tokens for the native asset does at the time of the
/// call: the trade is priced and checked, and the tokens are pulled.
pub open spec fn swap_reserve_exact_in_model(
    c: ClpView,
    current: Seq<char>,
    token: Seq<char>,
    tokens_paid: Balance,
    min_near: Balance,
    payer: Seq<char>,
    recipient: Seq<char>,
) -> Outcome {
    if tokens_paid == 0 || min_near == 0 {
        Err(ClpError::Zero)
    } else if !listed(c.pools, token) {
        Err(ClpError::PoolMissing)
    } else {
        let p = pool_of(c.pools, token);
        match exact_in_outcome(tokens_paid, min_near, p.token_bal as u128, p.near_bal as u128, c.fee) {
            Err(e) => Err(e),
            Ok(_) => Ok(
                (
                    c,
                    seq![
                        pull_tokens_step(
                            current,
                            token,
                            payer,
                            tokens_paid,
                            PendingView::ReserveExactIn {
                                token,
                                payer,
                                recipient,
                                tokens_paid,
                                min_near,
                            },
                        ),
                    ],
                ),
            ),
        }
    }
}

/// What buying an exact native amount with reserve tokens does at the time
/// of the call: the trade is priced and checked, and the price is pulled.
pub open spec fn swap_reserve_exact_out_model(
    c: ClpView,
    current: Seq<char>,
    token: Seq<char>,
    near_out: Balance,
    max_tokens: Balance,
    payer: Seq<char>,
    recipient: Seq<char>,
) -> Outcome {
    if near_out == 0 || max_tokens == 0 {
        Err(ClpError::Zero)
    } else if !listed(c.pools, token) {
        Err(ClpError::PoolMissing)
    } else {
        let p = pool_of(c.pools, token);
        match exact_out_outcome(near_out, max_tokens, p.near_bal as u128, p.token_bal as u128, c.fee) {
            Err(e) => Err(e),
            Ok(s) => Ok(
                (
                    c,
                    seq![
                        pull_tokens_step(
                            current,
                            token,
                            payer,
                            s.amount_in,
                            PendingView::ReserveExactOut {
                                token,
                                payer,
                                recipient,
                                near_out,
                                tokens_paid: s.amount_in,
                            },
                        ),
                    ],
                ),
            ),
        }
    }
}

/// What selling tokens of one pool for tokens of another does at the time of
/// the call: both trades are priced and checked, and the tokens are pulled.
pub open spec fn swap_tokens_exact_in_model(
    c: ClpView,
    current: Seq<char>,
    from: Seq<char>,
    to: Seq<char>,
    tokens_paid: Balance,
    min_tokens_to: Balance,
    payer: Seq<char>,
    recipient: Seq<char>,
) -> Outcome {
    if tokens_paid == 0 || min_tokens_to == 0 {
        Err(ClpError::Zero)
    } else if from == to {
        Err(ClpError::SameAsset)
    } else if !listed(c.pools, from) || !listed(c.pools, to) {
        Err(ClpError::PoolMissing)
    } else {
        match two_hop_in_outcome(
            pool_of(c.pools, from),
            pool_of(c.pools, to),
            tokens_paid,
            min_tokens_to,
            c.fee,
        ) {
            Err(e) => Err(e),
            Ok(_) => Ok(
                (
                    c,
                    seq![
                        pull_tokens_step(
                            current,
                            from,
                            payer,
                            tokens_paid,
                            PendingView::TokensExactIn {
                                from,
                                to,
                                payer,
                                recipient,
                                tokens_paid,
                                min_tokens_to,
                            },
                        ),
                    ],
                ),
            ),
        }
    }
}

/// What buying an exact amount of tokens of one pool with tokens of another
/// does at the time of the call: both trades are priced and checked, and the
/// price is pulled.
pub open spec fn swap_tokens_exact_out_model(
    c: ClpView,
    current: Seq<char>,
    from: Seq<char>,
    to: Seq<char>,
    tokens_to: Balance,
    max_tokens_from: Balance,
    payer: Seq<char>,
    recipient: Seq<char>,
) -> Outcome {
    if tokens_to == 0 || max_tokens_from == 0 {
        Err(ClpError::Zero)
    } else if from == to {
        Err(ClpError::SameAsset)
    } else if !listed(c.pools, from) || !listed(c.pools, to) {
        Err(ClpError::PoolMissing)
    } else {
        match two_hop_out_outcome(
            pool_of(c.pools, from),
            pool_of(c.pools, to),
            tokens_to,
            max_tokens_from,
            c.fee,
        ) {
            Err(e) => Err(e),
            Ok((first, _)) => Ok(
                (
                    c,
                    seq![
                        pull_tokens_step(
                            current,
                            from,
                            payer,
                            first.amount_in,
                            PendingView::TokensExactOut {
                                from,
                                to,
                                payer,
                                recipient,
                                tokens_to,
                                tokens_paid: first.amount_in,
                            },
                        ),
                    ],
                ),
            ),
        }
    }
}

impl NearCLP {
    /// Prices both trades of a sale of `tokens_in` of `from` for tokens of
    /// `to`.
    pub fn quote_tokens_exact_in(
        &self,
        from: &AccountId,
        to: &AccountId,
        tokens_in: Balance,
        min_out: Balance,
    ) -> (r: Result<(Swapped, Swapped), ClpError>)
        requires
            self.wf(),
        ensures
            r == (if !listed(self@.pools, from@) || !listed(self@.pools, to@) {
                Err::<(Swapped, Swapped), ClpError>(ClpError::PoolMissing)
            } else {
                two_hop_in_outcome(
                    pool_of(self@.pools, from@),
                    pool_of(self@.pools, to@),
                    tokens_in,
                    min_out,
                    self@.fee,
                )
            }),
            r matches Ok((first, second)) ==> sound_trade(
                first,
                pool_of(self@.pools, from@).token_bal as u128,
                pool_of(self@.pools, from@).near_bal as u128,
            ) && sound_trade(
                second,
                pool_of(self@.pools, to@).near_bal as u128,
                pool_of(self@.pools, to@).token_bal as u128,
            ),
    {
        let a = match self.find(from) {
            None => {
                return Err(ClpError::PoolMissing);
            },
            Some(i) => self.pools[i].pool.pool_info(),
        };
        let b = match self.find(to) {
            None => {
                return Err(ClpError::PoolMissing);
            },
            Some(i) => self.pools[i].pool.pool_info(),
        };
        let first = quote_exact_in(tokens_in, 1, a.token_bal, a.near_bal, self.fee)?;
        let second = quote_exact_in(first.amount_out, min_out, b.near_bal, b.token_bal, self.fee)?;
        Ok((first, second))
    }

    /// Prices both trades of a purchase of `tokens_out` of `to` with tokens
    /// of `from`.
    pub fn quote_tokens_exact_out(
        &self,
        from: &AccountId,
        to: &AccountId,
        tokens_out: Balance,
        max_in: Balance,
    ) -> (r: Result<(Swapped, Swapped), ClpError>)
        requires
            self.wf(),
        ensures
            r == (if !listed(self@.pools, from@) || !listed(self@.pools, to@) {
                Err::<(Swapped, Swapped), ClpError>(ClpError::PoolMissing)
            } else {
                two_hop_out_outcome(
                    pool_of(self@.pools, from@),
                    pool_of(self@.pools, to@),
                    tokens_out,
                    max_in,
                    self@.fee,
                )
            }),
            r matches Ok((first, second)) ==> sound_trade(
                first,
                pool_of(self@.pools, from@).token_bal as u128,
                pool_of(self@.pools, from@).near_bal as u128,
            ) && sound_trade(
                second,
                pool_of(self@.pools, to@).near_bal as u128,
                pool_of(self@.pools, to@).token_bal as u128,
            ),
    {
        let a = match self.find(from) {
            None => {
                return Err(ClpError::PoolMissing);
            },
            Some(i) => self.pools[i].pool.pool_info(),
        };
        let b = match self.find(to) {
            None => {
                return Err(ClpError::PoolMissing);
            },
            Some(i) => self.pools[i].pool.pool_info(),
        };
        let second = quote_exact_out(tokens_out, u128::MAX, b.token_bal, b.near_bal, self.fee)?;
        let first = quote_exact_out(second.amount_in, max_in, a.near_bal, a.token_bal, self.fee)?;
        Ok((first, second))
    }

    /// Sells the native amount attached to the call for tokens of `token`,
    /// at least `min_tokens` of them, and sends them to the caller.
    pub fn swap_near_to_reserve_exact_in(
        &mut self,
        inv: &Invocation,
        token: AccountId,
        min_tokens: Balance,
    ) -> (r: Result<Vec<Step>, ClpError>)
        requires
            old(self).wf(),
        ensures
            final(self).wf(),
            agrees(
                r,
                old(self)@,
                final(self)@,
                swap_near_exact_in_model(
                    old(self)@,
                    token@,
                    inv.attached_deposit,
                    min_tokens,
                    inv.predecessor@,
                ),
            ),
            no_product_fell(old(self)@.pools, final(self)@.pools),
            r is Ok ==> pool_became(
                old(self)@.pools,
                final(self)@.pools,
                token@,
                after_near_in(
                    pool_of(old(self)@.pools, token@),
                    exact_in_outcome(
                        inv.attached_deposit,
                        min_tokens,
                        pool_of(old(self)@.pools, token@).near_bal as u128,
                        pool_of(old(self)@.pools, token@).token_bal as u128,
                        old(self)@.fee,
                    )->Ok_0,
                ),
            ),
    {
        self.swap_near_to_reserve_exact_in_xfr(inv, token, min_tokens, inv.predecessor.clone())
    }

    /// Sells the native amount attached to the call for tokens of `token`,
    /// at least `min_tokens` of them, and sends them to `recipient`.
    pub fn swap_near_to_reserve_exact_in_xfr(
        &mut self,
        inv: &Invocation,
        token: AccountId,
        min_tokens: Balance,
        recipient: AccountId,
    ) -> (r: Result<Vec<Step>, ClpError>)
        requires
            old(self).wf(),
        ensures
            final(self).wf(),
            agrees(
                r,
                old(self)@,
                final(self)@,
                swap_near_exact_in_model(
                    old(self)@,
                    token@,
                    inv.attached_deposit,
                    min_tokens,
                    recipient@,
                ),
            ),
            no_product_fell(old(self)@.pools, final(self)@.pools),
            r is Ok ==> pool_became(
                old(self)@.pools,
                final(self)@.pools,
                token@,
                after_near_in(
                    pool_of(old(self)@.pools, token@),
                    exact_in_outcome(
                        inv.attached_deposit,
                        min_tokens,
                        pool_of(old(self)@.pools, token@).near_bal as u128,
                        pool_of(old(self)@.pools, token@).token_bal as u128,
                        old(self)@.fee,
                    )->Ok_0,
                ),
            ),
    {
        if inv.attached_deposit == 0 || min_tokens == 0 {
            return Err(ClpError::Zero);
        }
        let i = match self.find(&token) {
            None => {
                return Err(ClpError::PoolMissing);
            },
            Some(i) => i,
        };
        let fee = self.fee;
        let trade = self.pools[i].pool.swap_near_exact_in(inv.attached_deposit, min_tokens, fee);
        proof {
            lemma_pool_replaced(*old(self), *self, i as int);
        }
        match trade {
            Err(e) => {
                assert(self@.pools =~= old(self)@.pools);
                Err(e)
            },
            Ok(s) => Ok(one_step(send_tokens(token, recipient, s.amount_out))),
        }
    }

    /// Buys `tokens_out` of `token` with the native amount attached to the
    /// call, sends them to the caller, and pays back what was not needed.
    pub fn swap_near_to_reserve_exact_out(
        &mut self,
        inv: &Invocation,
        token: AccountId,
        tokens_out: Balance,
    ) -> (r: Result<Vec<Step>, ClpError>)
        requires
            old(self).wf(),
        ensures
            final(self).wf(),
            agrees(
                r,
                old(self)@,
                final(self)@,
                swap_near_exact_out_model(
                    old(self)@,
                    token@,
                    tokens_out,
                    inv.attached_deposit,
                    inv.predecessor@,
                    inv.predecessor@,
                ),
            ),
            no_product_fell(old(self)@.pools, final(self)@.pools),
            r is Ok ==> pool_became(
                old(self)@.pools,
                final(self)@.pools,
                token@,
                after_near_in(
                    pool_of(old(self)@.pools, token@),
                    exact_out_outcome(
                        tokens_out,
                        inv.attached_deposit,
                        pool_of(old(self)@.pools, token@).token_bal as u128,
                        pool_of(old(self)@.pools, token@).near_bal as u128,
                        old(self)@.fee,
                    )->Ok_0,
                ),
            ),
    {
        self.swap_near_to_reserve_exact_out_xfr(inv, token, tokens_out, inv.predecessor.clone())
    }

    /// Buys `tokens_out` of `token` with the native amount attached to the
    /// call, sends them to `recipient`, and pays back to the caller what was
    /// not needed.
    pub fn swap_near_to_reserve_exact_out_xfr(
        &mut self,
        inv: &Invocation,
        token: AccountId,
        tokens_out: Balance,
        recipient: AccountId,
    ) -> (r: Result<Vec<Step>, ClpError>)
        requires
            old(self).wf(),
        ensures
            final(self).wf(),
            agrees(
                r,
                old(self)@,
                final(self)@,
                swap_near_exact_out_model(
                    old(self)@,
                    token@,
                    tokens_out,
                    inv.attached_deposit,
                    inv.predecessor@,
                    recipient@,
                ),
            ),
            no_product_fell(old(self)@.pools, final(self)@.pools),
            r is Ok ==> pool_became(
                old(self)@.pools,
                final(self)@.pools,
                token@,
                after_near_in(
                    pool_of(old(self)@.pools, token@),
                    exact_out_outcome(
                        tokens_out,
                        inv.attached_deposit,
                        pool_of(old(self)@.pools, token@).token_bal as u128,
                        pool_of(old(self)@.pools, token@).near_bal as u128,
                        old(self)@.fee,
                    )->Ok_0,
                ),
            ),
    {
        if tokens_out == 0 || inv.attached_deposit == 0 {
            return Err(ClpError::Zero);
        }
        let i = match self.find(&token) {
            None => {
                return Err(ClpError::PoolMissing);
            },
            Some(i) => i,
        };
        let fee = self.fee;
        let trade = self.pools[i].pool.swap_near_exact_out(tokens_out, inv.attached_deposit, fee);
        proof {
            lemma_pool_replaced(*old(self), *self, i as int);
        }
        match trade {
            Err(e) => {
                assert(self@.pools =~= old(self)@.pools);
                Err(e)
            },
            Ok(s) => {
                proof {
                    crate::pool::swap::lemma_trade_sound(
                        tokens_out,
                        inv.attached_deposit,
                        old(self)@.pools[i as int].1.near_bal as u128,
                        old(self)@.pools[i as int].1.token_bal as u128,
                        fee,
                    );
                }
                let sent = one_step(send_tokens(token, recipient, s.amount_out));
                Ok(and_near_change(sent, &inv.predecessor, inv.attached_deposit - s.amount_in))
            },
        }
    }

    /// Sells `tokens_paid` of `token` of the caller for the native asset, at
    /// least `min_near` of it, to be paid to the caller.
    pub fn swap_reserve_to_near_exact_in(
        &self,
        inv: &Invocation,
        token: AccountId,
        tokens_paid: Balance,
        min_near: Balance,
    ) -> (r: Result<Vec<Step>, ClpError>)
        requires
            self.wf(),
        ensures
            agrees(
                r,
                self@,
                self@,
                swap_reserve_exact_in_model(
                    self@,
                    inv.current@,
                    token@,
                    tokens_paid,
                    min_near,
                    inv.predecessor@,
                    inv.predecessor@,
                ),
            ),
    {
        self.swap_reserve_to_near_exact_in_xfr(
            inv,
            token,
            tokens_paid,
            min_near,
            inv.predecessor.clone(),
        )
    }

    /// Sells `tokens_paid` of `token` of the caller for the native asset, at
    /// least `min_near` of it, to be paid to `recipient`.
    pub fn swap_reserve_to_near_exact_in_xfr(
        &self,
        inv: &Invocation,
        token: AccountId,
        tokens_paid: Balance,
        min_near: Balance,
        recipient: AccountId,
    ) -> (r: Result<Vec<Step>, ClpError>)
        requires
            self.wf(),
        ensures
            agrees(
                r,
                self@,
                self@,
                swap_reserve_exact_in_model(
                    self@,
                    inv.current@,
                    token@,
                    tokens_paid,
                    min_near,
                    inv.predecessor@,
                    recipient@,
                ),
            ),
    {
        if tokens_paid == 0 || min_near == 0 {
            return Err(ClpError::Zero);
        }
        let i = match self.find(&token) {
            None => {
                return Err(ClpError::PoolMissing);
            },
            Some(i) => i,
        };
        match self.pools[i].pool.quote_reserve_exact_in(tokens_paid, min_near, self.fee) {
            Err(e) => Err(e),
            Ok(_) => {
                let next = Pending::ReserveExactIn {
                    token: token.clone(),
                    payer: inv.predecessor.clone(),
                    recipient,
                    tokens_paid,
                    min_near,
                };
                Ok(
                    one_step(
                        pull_tokens(
                            &inv.current,
                            token,
                            inv.predecessor.clone(),
                            tokens_paid,
                            next,
                        ),
                    ),
                )
            },
        }
    }

    /// Buys `near_out` of the native asset for the caller with tokens of
    /// `token` of the caller, at most `max_tokens` of them.
    pub fn swap_reserve_to_near_exact_out(
        &self,
        inv: &Invocation,
        token: AccountId,
        near_out: Balance,
        max_tokens: Balance,
    ) -> (r: Result<Vec<Step>, ClpError>)
        requires
            self.wf(),
        ensures
            agrees(
                r,
                self@,
                self@,
                swap_reserve_exact_out_model(
                    self@,
                    inv.current@,
                    token@,
                    near_out,
                    max_tokens,
                    inv.predecessor@,
                    inv.predecessor@,
                ),
            ),
    {
        self.swap_reserve_to_near_exact_out_xfr(
            inv,
            token,
            near_out,
            max_tokens,
            inv.predecessor.clone(),
        )
    }

    /// Buys `near_out` of the native asset for `recipient` with tokens of
    /// `token` of the caller, at most `max_tokens` of them.
    pub fn swap_reserve_to_near_exact_out_xfr(
        &self,
        inv: &Invocation,
        token: AccountId,
        near_out: Balance,
        max_tokens: Balance,
        recipient: AccountId,
    ) -> (r: Result<Vec<Step>, ClpError>)
        requires
            self.wf(),
        ensures
            agrees(
                r,
                self@,
                self@,
                swap_reserve_exact_out_model(
                    self@,
                    inv.current@,
                    token@,
                    near_out,
                    max_tokens,
                    inv.predecessor@,
                    recipient@,
                ),
            ),
    {
        if near_out == 0 || max_tokens == 0 {
            return Err(ClpError::Zero);
        }
        let i = match self.find(&token) {
            None => {
                return Err(ClpError::PoolMissing);
            },
            Some(i) => i,
        };
        match self.pools[i].pool.quote_reserve_exact_out(near_out, max_tokens, self.fee) {
            Err(e) => Err(e),
            Ok(s) => {
                let next = Pending::ReserveExactOut {
                    token: token.clone(),
                    payer: inv.predecessor.clone(),
                    recipient,
                    near_out,
                    tokens_paid: s.amount_in,
                };
                Ok(
                    one_step(
                        pull_tokens(
                            &inv.current,
                            token,
                            inv.predecessor.clone(),
                            s.amount_in,
                            next,
                        ),
                    ),
                )
            },
        }
    }

    /// Sells `tokens_from` of `from` of the caller for tokens of `to`, at
    /// least `min_tokens_to` of them, to be sent to the caller.
    pub fn swap_tokens_exact_in(
        &self,
        inv: &Invocation,
        from: AccountId,
        to: AccountId,
        tokens_from: Balance,
        min_tokens_to: Balance,
    ) -> (r: Result<Vec<Step>, ClpError>)
        requires
            self.wf(),
        ensures
            agrees(
                r,
                self@,
                self@,
                swap_tokens_exact_in_model(
                    self@,
                    inv.current@,
                    from@,
                    to@,
                    tokens_from,
                    min_tokens_to,
                    inv.predecessor@,
                    inv.predecessor@,
                ),
            ),
    {
        self.swap_tokens_exact_in_xfr(
            inv,
            from,
            to,
            tokens_from,
            min_tokens_to,
            inv.predecessor.clone(),
        )
    }

    /// Sells `tokens_from` of `from` of the caller for tokens of `to`, at
    /// least `min_tokens_to` of them, to be sent to `recipient`.
    pub fn swap_tokens_exact_in_xfr(
        &self,
        inv: &Invocation,
        from: AccountId,
        to: AccountId,
        tokens_from: Balance,
        min_tokens_to: Balance,
        recipient: AccountId,
    ) -> (r: Result<Vec<Step>, ClpError>)
        requires
            self.wf(),
        ensures
            agrees(
                r,
                self@,
                self@,
                swap_tokens_exact_in_model(
                    self@,
                    inv.current@,
                    from@,
                    to@,
                    tokens_from,
                    min_tokens_to,
                    inv.predecessor@,
                    recipient@,
                ),
            ),
    {
        if tokens_from == 0 || min_tokens_to == 0 {
            return Err(ClpError::Zero);
        }
        if from == to {
            return Err(ClpError::SameAsset);
        }
        match self.quote_tokens_exact_in(&from, &to, tokens_from, min_tokens_to) {
            Err(e) => Err(e),
            Ok(_) => {
                let next = Pending::TokensExactIn {
                    from: from.clone(),
                    to,
                    payer: inv.predecessor.clone(),
                    recipient,
                    tokens_paid: tokens_from,
                    min_tokens_to,
                };
                Ok(
                    one_step(
                        pull_tokens(&inv.current, from, inv.predecessor.clone(), tokens_from, next),
                    ),
                )
            },
        }
    }

    /// Buys `tokens_to` of `to` for the caller with tokens of `from` of the
    /// caller, at most `max_tokens_from` of them.
    pub fn swap_tokens_exact_out(
        &self,
        inv: &Invocation,
        from: AccountId,
        to: AccountId,
        tokens_to: Balance,
        max_tokens_from: Balance,
    ) -> (r: Result<Vec<Step>, ClpError>)
        requires
            self.wf(),
        ensures
            agrees(
                r,
                self@,
                self@,
                swap_tokens_exact_out_model(
                    self@,
                    inv.current@,
                    from@,
                    to@,
                    tokens_to,
                    max_tokens_from,
                    inv.predecessor@,
                    inv.predecessor@,
                ),
            ),
    {
        self.swap_tokens_exact_out_xfr(
            inv,
            from,
            to,
            tokens_to,
            max_tokens_from,
            inv.predecessor.clone(),
        )
    }

    /// Buys `tokens_to` of `to` for `recipient` with tokens of `from` of the
    /// caller, at most `max_tokens_from` of them.
    pub fn swap_tokens_exact_out_xfr(
        &self,
        inv: &Invocation,
        from: AccountId,
        to: AccountId,
        tokens_to: Balance,
        max_tokens_from: Balance,
        recipient: AccountId,
    ) -> (r: Result<Vec<Step>, ClpError>)
        requires
            self.wf(),
        ensures
            agrees(
                r,
                self@,
                self@,
                swap_tokens_exact_out_model(
                    self@,
                    inv.current@,
                    from@,
                    to@,
                    tokens_to,
                    max_tokens_from,
                    inv.predecessor@,
                    recipient@,
                ),
            ),
    {
        if tokens_to == 0 || max_tokens_from == 0 {
            return Err(ClpError::Zero);
        }
        if from == to {
            return Err(ClpError::SameAsset);
        }
        match self.quote_tokens_exact_out(&from, &to, tokens_to, max_tokens_from) {
            Err(e) => Err(e),
            Ok((first, _)) => {
                let next = Pending::TokensExactOut {
                    from: from.clone(),
                    to,
                    payer: inv.predecessor.clone(),
                    recipient,
                    tokens_to,
                    tokens_paid: first.amount_in,
                };
                Ok(
                    one_step(
                        pull_tokens(
                            &inv.current,
                            from,
                            inv.predecessor.clone(),
                            first.amount_in,
                            next,
                        ),
                    ),
                )
            },
        }
    }
}

} // verus!

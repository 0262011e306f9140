//! What a trade would cost or yield, against the reserves as they stand.
//! Nothing is changed.

use vstd::prelude::*;
use crate::clp::{listed, pool_of, ClpView, NearCLP};
use crate::errors::ClpError;
use crate::pool::{AccountId, Balance, PoolView};
use crate::pricing::{
    calc_in_amount, calc_in_amount_spec, calc_out_amount, calc_out_amount_spec, Fee,
};

verus! {

/// The native amount got for `tokens_in` of pool `a`, and the tokens of pool
/// `b` that it buys: one trade in each pool, each with its fee.
pub open spec fn two_hop_exact_in(a: PoolView, b: PoolView, tokens_in: Balance, fee: Fee) -> Result<
    (Balance, Balance),
    ClpError,
> {
    match calc_out_amount_spec(tokens_in, a.token_bal as u128, a.near_bal as u128, fee) {
        Err(e) => Err(e),
        Ok(near_mid) => match calc_out_amount_spec(
            near_mid,
            b.near_bal as u128,
            b.token_bal as u128,
            fee,
        ) {
            Err(e) => Err(e),
            Ok(tokens_out) => Ok((near_mid, tokens_out)),
        },
    }
}

/// The native amount to pay for `tokens_out` of pool `b`, and the tokens of
/// pool `a` that have to be sold for it: one trade in each pool, each with
/// its fee.
pub open spec fn two_hop_exact_out(
    a: PoolView,
    b: PoolView,
    tokens_out: Balance,
    fee: Fee,
) -> Result<(Balance, Balance), ClpError> {
    match calc_in_amount_spec(tokens_out, b.token_bal as u128, b.near_bal as u128, fee) {
        Err(e) => Err(e),
        Ok(near_mid) => match calc_in_amount_spec(
            near_mid,
            a.near_bal as u128,
            a.token_bal as u128,
            fee,
        ) {
            Err(e) => Err(e),
            Ok(tokens_in) => Ok((near_mid, tokens_in)),
        },
    }
}

/// What a price enquiry on one pool returns: a zero amount and an unknown
/// token are refused before the pool is asked.
pub open spec fn price_in_pool(
    c: ClpView,
    token: Seq<char>,
    amount: Balance,
    ask: spec_fn(PoolView) -> Result<Balance, ClpError>,
) -> Result<Balance, ClpError> {
    if amount == 0 {
        Err(ClpError::Zero)
    } else if !listed(c.pools, token) {
        Err(ClpError::PoolMissing)
    } else {
        ask(pool_of(c.pools, token))
    }
}

/// What a price enquiry across two pools returns: a zero amount, two legs of
/// the same token and an unknown token are refused before the pools are
/// asked.
pub open spec fn price_across_pools(
    c: ClpView,
    from: Seq<char>,
    to: Seq<char>,
    amount: Balance,
    ask: spec_fn(PoolView, PoolView) -> Result<(Balance, Balance), ClpError>,
) -> Result<Balance, ClpError> {
    if amount == 0 {
        Err(ClpError::Zero)
    } else if from == to {
        Err(ClpError::SameAsset)
    } else if !listed(c.pools, from) || !listed(c.pools, to) {
        Err(ClpError::PoolMissing)
    } else {
        match ask(pool_of(c.pools, from), pool_of(c.pools, to)) {
            Err(e) => Err(e),
            Ok((_, amount)) => Ok(amount),
        }
    }
}

impl NearCLP {
    /// The reserve tokens that `near_in` of the native asset would buy.
    pub fn price_near_to_token_in(&self, token: AccountId, near_in: Balance) -> (r: Result<
        Balance,
        ClpError,
    >)
        requires
            self.wf(),
        ensures
            r == price_in_pool(
                self@,
                token@,
                near_in,
                |p: PoolView|
                    calc_out_amount_spec(
                        near_in,
                        p.near_bal as u128,
                        p.token_bal as u128,
                        self@.fee,
                    ),
            ),
            listed(self@.pools, token@) && pool_of(self@.pools, token@).is_empty() ==> r is Err,
    {
        if near_in == 0 {
            return Err(ClpError::Zero);
        }
        match self.find(&token) {
            None => Err(ClpError::PoolMissing),
            Some(i) => {
                let p = self.pools[i].pool.pool_info();
                calc_out_amount(near_in, p.near_bal, p.token_bal, self.fee)
            },
        }
    }

    /// The native amount that `tokens_out` reserve tokens would cost.
    pub fn price_near_to_token_out(&self, token: AccountId, tokens_out: Balance) -> (r: Result<
        Balance,
        ClpError,
    >)
        requires
            self.wf(),
        ensures
            r == price_in_pool(
                self@,
                token@,
                tokens_out,
                |p: PoolView|
                    calc_in_amount_spec(
                        tokens_out,
                        p.token_bal as u128,
                        p.near_bal as u128,
                        self@.fee,
                    ),
            ),
            listed(self@.pools, token@) && pool_of(self@.pools, token@).is_empty() ==> r is Err,
    {
        if tokens_out == 0 {
            return Err(ClpError::Zero);
        }
        match self.find(&token) {
            None => Err(ClpError::PoolMissing),
            Some(i) => {
                let p = self.pools[i].pool.pool_info();
                calc_in_amount(tokens_out, p.token_bal, p.near_bal, self.fee)
            },
        }
    }

    /// The native amount that `tokens_in` reserve tokens would buy.
    pub fn price_token_to_near_in(&self, token: AccountId, tokens_in: Balance) -> (r: Result<
        Balance,
        ClpError,
    >)
        requires
            self.wf(),
        ensures
            r == price_in_pool(
                self@,
                token@,
                tokens_in,
                |p: PoolView|
                    calc_out_amount_spec(
                        tokens_in,
                        p.token_bal as u128,
                        p.near_bal as u128,
                        self@.fee,
                    ),
            ),
            listed(self@.pools, token@) && pool_of(self@.pools, token@).is_empty() ==> r is Err,
    {
        if tokens_in == 0 {
            return Err(ClpError::Zero);
        }
        match self.find(&token) {
            None => Err(ClpError::PoolMissing),
            Some(i) => {
                let p = self.pools[i].pool.pool_info();
                calc_out_amount(tokens_in, p.token_bal, p.near_bal, self.fee)
            },
        }
    }

    /// The reserve tokens that `near_out` of the native asset would cost.
    pub fn price_token_to_near_out(&self, token: AccountId, near_out: Balance) -> (r: Result<
        Balance,
        ClpError,
    >)
        requires
            self.wf(),
        ensures
            r == price_in_pool(
                self@,
                token@,
                near_out,
                |p: PoolView|
                    calc_in_amount_spec(
                        near_out,
                        p.near_bal as u128,
                        p.token_bal as u128,
                        self@.fee,
                    ),
            ),
            listed(self@.pools, token@) && pool_of(self@.pools, token@).is_empty() ==> r is Err,
    {
        if near_out == 0 {
            return Err(ClpError::Zero);
        }
        match self.find(&token) {
            None => Err(ClpError::PoolMissing),
            Some(i) => {
                let p = self.pools[i].pool.pool_info();
                calc_in_amount(near_out, p.near_bal, p.token_bal, self.fee)
            },
        }
    }

    /// The native amount and the tokens of `to` that `tokens_in` of `from`
    /// would buy, trading through both pools.
    pub fn price_swap_tokens_in(&self, from: &AccountId, to: &AccountId, tokens_in: Balance) -> (r:
        Result<(Balance, Balance), ClpError>)
        requires
            self.wf(),
        ensures
            r == (if !listed(self@.pools, from@) || !listed(self@.pools, to@) {
                Err::<(Balance, Balance), ClpError>(ClpError::PoolMissing)
            } else {
                two_hop_exact_in(
                    pool_of(self@.pools, from@),
                    pool_of(self@.pools, to@),
                    tokens_in,
                    self@.fee,
                )
            }),
    {
        let a = match self.find(from) {
            None => {
                return Err(ClpError::PoolMissing);
            },
            Some(i) => self.pools[i].pool.pool_info(),
        };
        let b = match self.find(to) {
            None => {
                return Err(ClpError::PoolMissing);
            },
            Some(i) => self.pools[i].pool.pool_info(),
        };
        let near_mid = calc_out_amount(tokens_in, a.token_bal, a.near_bal, self.fee)?;
        let tokens_out = calc_out_amount(near_mid, b.near_bal, b.token_bal, self.fee)?;
        Ok((near_mid, tokens_out))
    }

    /// The native amount and the tokens of `from` that `tokens_out` of `to`
    /// would cost, trading through both pools.
    pub fn price_swap_tokens_out(
        &self,
        from: &AccountId,
        to: &AccountId,
        tokens_out: Balance,
    ) -> (r: Result<(Balance, Balance), ClpError>)
        requires
            self.wf(),
        ensures
            r == (if !listed(self@.pools, from@) || !listed(self@.pools, to@) {
                Err::<(Balance, Balance), ClpError>(ClpError::PoolMissing)
            } else {
                two_hop_exact_out(
                    pool_of(self@.pools, from@),
                    pool_of(self@.pools, to@),
                    tokens_out,
                    self@.fee,
                )
            }),
    {
        let a = match self.find(from) {
            None => {
                return Err(ClpError::PoolMissing);
            },
            Some(i) => self.pools[i].pool.pool_info(),
        };
        let b = match self.find(to) {
            None => {
                return Err(ClpError::PoolMissing);
            },
            Some(i) => self.pools[i].pool.pool_info(),
        };
        let near_mid = calc_in_amount(tokens_out, b.token_bal, b.near_bal, self.fee)?;
        let tokens_in = calc_in_amount(near_mid, a.near_bal, a.token_bal, self.fee)?;
        Ok((near_mid, tokens_in))
    }

    /// The tokens of `to` that `tokens_in` of `from` would buy.
    pub fn price_token_to_token_in(&self, from: AccountId, to: AccountId, tokens_in: Balance) -> (r:
        Result<Balance, ClpError>)
        requires
            self.wf(),
        ensures
            r == price_across_pools(
                self@,
                from@,
                to@,
                tokens_in,
                |a: PoolView, b: PoolView| two_hop_exact_in(a, b, tokens_in, self@.fee),
            ),
    {
        if tokens_in == 0 {
            return Err(ClpError::Zero);
        }
        if from == to {
            return Err(ClpError::SameAsset);
        }
        let (_, tokens_out) = self.price_swap_tokens_in(&from, &to, tokens_in)?;
        Ok(tokens_out)
    }

    /// The tokens of `from` that `tokens_out` of `to` would cost.
    pub fn price_token_to_token_out(
        &self,
        from: AccountId,
        to: AccountId,
        tokens_out: Balance,
    ) -> (r: Result<Balance, ClpError>)
        requires
            self.wf(),
        ensures
            r == price_across_pools(
                self@,
                from@,
                to@,
                tokens_out,
                |a: PoolView, b: PoolView| two_hop_exact_out(a, b, tokens_out, self@.fee),
            ),
    {
        if tokens_out == 0 {
            return Err(ClpError::Zero);
        }
        if from == to {
            return Err(ClpError::SameAsset);
        }
        let (_, tokens_in) = self.price_swap_tokens_out(&from, &to, tokens_out)?;
        Ok(tokens_in)
    }
}

} // verus!

//! Trading one asset of a pool for the other.
//!
//! A trade is priced by the constant-product rule against the reserves as
//! they stand, checked against the trader's limit, and then moves both
//! reserves. The product of the reserves never falls.

use vstd::prelude::*;
use crate::errors::ClpError;
use crate::pool::{Balance, Pool, PoolView};
use crate::pricing::{
    calc_in_amount, calc_in_amount_spec, calc_out_amount, calc_out_amount_spec, Fee,
};

verus! {

/// What a trade moved: `amount_in` into one reserve, `amount_out` out of the
/// other.
#[derive(Clone, Copy, Debug, PartialEq, Eq, Structural)]
pub struct Swapped {
    pub amount_in: Balance,
    pub amount_out: Balance,
}

/// Whether a trade of an exact input is accepted against reserves `in_bal` and
/// `out_bal`, and what it moves.
pub open spec fn exact_in_outcome(
    amount_in: Balance,
    min_out: Balance,
    in_bal: Balance,
    out_bal: Balance,
    fee: Fee,
) -> Result<Swapped, ClpError> {
    if amount_in == 0 || min_out == 0 {
        Err(ClpError::Zero)
    } else {
        match calc_out_amount_spec(amount_in, in_bal, out_bal, fee) {
            Err(e) => Err(e),
            Ok(bought) => if bought < min_out {
                Err(ClpError::MinNotMet)
            } else if in_bal + amount_in > u128::MAX {
                Err(ClpError::Arith)
            } else {
                Ok(Swapped { amount_in, amount_out: bought })
            },
        }
    }
}

/// Whether a trade for an exact output is accepted against reserves `out_bal`
/// and `in_bal`, and what it moves.
pub open spec fn exact_out_outcome(
    amount_out: Balance,
    max_in: Balance,
    out_bal: Balance,
    in_bal: Balance,
    fee: Fee,
) -> Result<Swapped, ClpError> {
    if amount_out == 0 || max_in == 0 {
        Err(ClpError::Zero)
    } else {
        match calc_in_amount_spec(amount_out, out_bal, in_bal, fee) {
            Err(e) => Err(e),
            Ok(pay) => if pay > max_in {
                Err(ClpError::MaxExceeded)
            } else if in_bal + pay > u128::MAX {
                Err(ClpError::Arith)
            } else {
                Ok(Swapped { amount_in: pay, amount_out })
            },
        }
    }
}

/// A trade moved amounts that the reserves can take and give, and did not
/// lower their product.
pub open spec fn sound_trade(s: Swapped, in_bal: Balance, out_bal: Balance) -> bool {
    &&& 0 < in_bal
    &&& in_bal + s.amount_in <= u128::MAX
    &&& s.amount_out < out_bal
    &&& (in_bal + s.amount_in) * (out_bal - s.amount_out) >= in_bal * out_bal
}

/// The pool after a trade that paid the native asset in.
pub open spec fn after_near_in(p: PoolView, s: Swapped) -> PoolView {
    PoolView {
        near_bal: p.near_bal + s.amount_in as nat,
        token_bal: (p.token_bal - s.amount_out) as nat,
        total_shares: p.total_shares,
        shares: p.shares,
        pool_id: p.pool_id,
    }
}

/// The pool after a trade that paid reserve tokens in.
pub open spec fn after_tokens_in(p: PoolView, s: Swapped) -> PoolView {
    PoolView {
        near_bal: (p.near_bal - s.amount_out) as nat,
        token_bal: p.token_bal + s.amount_in as nat,
        total_shares: p.total_shares,
        shares: p.shares,
        pool_id: p.pool_id,
    }
}

/// Any trade that is accepted leaves the product of the reserves at least as
/// large as it was, and a trade for an exact output raises it.
pub proof fn lemma_trade_sound(
    amount: Balance,
    limit: Balance,
    in_bal: Balance,
    out_bal: Balance,
    fee: Fee,
)
    requires
        fee.wf(),
    ensures
        exact_in_outcome(amount, limit, in_bal, out_bal, fee) matches Ok(s) ==> sound_trade(
            s,
            in_bal,
            out_bal,
        ) && s.amount_in == amount && s.amount_out >= limit,
        exact_out_outcome(amount, limit, out_bal, in_bal, fee) matches Ok(s) ==> sound_trade(
            s,
            in_bal,
            out_bal,
        ) && s.amount_out == amount && 1 <= s.amount_in <= limit && (in_bal + s.amount_in) * (
        out_bal - s.amount_out) > in_bal * out_bal,
{
    if exact_in_outcome(amount, limit, in_bal, out_bal, fee) is Ok {
        crate::pricing::lemma_out_amount_bounds(amount as int, in_bal as int, out_bal as int, fee);
        crate::pricing::lemma_product_grows_exact_in(
            amount as int,
            in_bal as int,
            out_bal as int,
            fee,
        );
    }
    if exact_out_outcome(amount, limit, out_bal, in_bal, fee) is Ok {
        crate::pricing::lemma_product_grows_exact_out(
            amount as int,
            out_bal as int,
            in_bal as int,
            fee,
        );
    }
}

/// Prices the purchase bought with exactly `amount_in` and holds it against
/// the least amount that the trader accepts.
pub fn quote_exact_in(
    amount_in: Balance,
    min_out: Balance,
    in_bal: Balance,
    out_bal: Balance,
    fee: Fee,
) -> (r: Result<Swapped, ClpError>)
    requires
        fee.wf(),
    ensures
        r == exact_in_outcome(amount_in, min_out, in_bal, out_bal, fee),
        (in_bal == 0 || out_bal == 0) ==> r is Err,
        r matches Ok(s) ==> sound_trade(s, in_bal, out_bal) && s.amount_in == amount_in
            && s.amount_out >= min_out,
{
    if amount_in == 0 || min_out == 0 {
        return Err(ClpError::Zero);
    }
    let bought = calc_out_amount(amount_in, in_bal, out_bal, fee)?;
    if bought < min_out {
        return Err(ClpError::MinNotMet);
    }
    if amount_in > u128::MAX - in_bal {
        return Err(ClpError::Arith);
    }
    Ok(Swapped { amount_in, amount_out: bought })
}

/// Prices the payment for exactly `amount_out` and holds it against the most
/// that the trader is willing to pay.
pub fn quote_exact_out(
    amount_out: Balance,
    max_in: Balance,
    out_bal: Balance,
    in_bal: Balance,
    fee: Fee,
) -> (r: Result<Swapped, ClpError>)
    requires
        fee.wf(),
    ensures
        r == exact_out_outcome(amount_out, max_in, out_bal, in_bal, fee),
        (in_bal == 0 || out_bal == 0) ==> r is Err,
        r matches Ok(s) ==> sound_trade(s, in_bal, out_bal) && s.amount_out == amount_out && 1
            <= s.amount_in <= max_in,
{
    if amount_out == 0 || max_in == 0 {
        return Err(ClpError::Zero);
    }
    let pay = calc_in_amount(amount_out, out_bal, in_bal, fee)?;
    if pay > max_in {
        return Err(ClpError::MaxExceeded);
    }
    if pay > u128::MAX - in_bal {
        return Err(ClpError::Arith);
    }
    Ok(Swapped { amount_in: pay, amount_out })
}

impl Pool {
    /// The reserve tokens that `near_in` of the native asset buys, if they
    /// reach `min_tokens`.
    pub fn quote_near_exact_in(&self, near_in: Balance, min_tokens: Balance, fee: Fee) -> (r:
        Result<Swapped, ClpError>)
        requires
            self.wf(),
            fee.wf(),
        ensures
            r == exact_in_outcome(
                near_in,
                min_tokens,
                self@.near_bal as u128,
                self@.token_bal as u128,
                fee,
            ),
            self@.is_empty() ==> r is Err,
            r matches Ok(s) ==> sound_trade(s, self@.near_bal as u128, self@.token_bal as u128),
    {
        quote_exact_in(near_in, min_tokens, self.near_bal, self.token_bal, fee)
    }

    /// The native amount to pay for `tokens_out` reserve tokens, if it stays
    /// within `max_near`.
    pub fn quote_near_exact_out(&self, tokens_out: Balance, max_near: Balance, fee: Fee) -> (r:
        Result<Swapped, ClpError>)
        requires
            self.wf(),
            fee.wf(),
        ensures
            r == exact_out_outcome(
                tokens_out,
                max_near,
                self@.token_bal as u128,
                self@.near_bal as u128,
                fee,
            ),
            self@.is_empty() ==> r is Err,
            r matches Ok(s) ==> sound_trade(s, self@.near_bal as u128, self@.token_bal as u128),
    {
        quote_exact_out(tokens_out, max_near, self.token_bal, self.near_bal, fee)
    }

    /// The native amount that `tokens_in` reserve tokens buy, if it reaches
    /// `min_near`.
    pub fn quote_reserve_exact_in(&self, tokens_in: Balance, min_near: Balance, fee: Fee) -> (r:
        Result<Swapped, ClpError>)
        requires
            self.wf(),
            fee.wf(),
        ensures
            r == exact_in_outcome(
                tokens_in,
                min_near,
                self@.token_bal as u128,
                self@.near_bal as u128,
                fee,
            ),
            self@.is_empty() ==> r is Err,
            r matches Ok(s) ==> sound_trade(s, self@.token_bal as u128, self@.near_bal as u128),
    {
        quote_exact_in(tokens_in, min_near, self.token_bal, self.near_bal, fee)
    }

    /// The reserve tokens to pay for `near_out` of the native asset, if they
    /// stay within `max_tokens`.
    pub fn quote_reserve_exact_out(&self, near_out: Balance, max_tokens: Balance, fee: Fee) -> (r:
        Result<Swapped, ClpError>)
        requires
            self.wf(),
            fee.wf(),
        ensures
            r == exact_out_outcome(
                near_out,
                max_tokens,
                self@.near_bal as u128,
                self@.token_bal as u128,
                fee,
            ),
            self@.is_empty() ==> r is Err,
            r matches Ok(s) ==> sound_trade(s, self@.token_bal as u128, self@.near_bal as u128),
    {
        quote_exact_out(near_out, max_tokens, self.near_bal, self.token_bal, fee)
    }

    /// Moves the reserves by a trade that paid the native asset in.
    pub(crate) fn settle_near_in(&mut self, s: Swapped)
        requires
            old(self).wf(),
            sound_trade(s, old(self)@.near_bal as u128, old(self)@.token_bal as u128),
        ensures
            final(self).wf(),
            final(self)@ == after_near_in(old(self)@, s),
            final(self)@.product() >= old(self)@.product(),
    {
        self.near_bal = self.near_bal + s.amount_in;
        self.token_bal = self.token_bal - s.amount_out;
    }

    /// Moves the reserves by a trade that paid reserve tokens in.
    pub(crate) fn settle_tokens_in(&mut self, s: Swapped)
        requires
            old(self).wf(),
            sound_trade(s, old(self)@.token_bal as u128, old(self)@.near_bal as u128),
        ensures
            final(self).wf(),
            final(self)@ == after_tokens_in(old(self)@, s),
            final(self)@.product() >= old(self)@.product(),
    {
        proof {
            let n = self@.near_bal as int;
            let t = self@.token_bal as int;
            assert((n - s.amount_out) * (t + s.amount_in) == (t + s.amount_in) * (n
                - s.amount_out)) by (nonlinear_arith);
            assert(n * t == t * n) by (nonlinear_arith);
        }
        self.token_bal = self.token_bal + s.amount_in;
        self.near_bal = self.near_bal - s.amount_out;
    }

    /// Sells `near_in` of the native asset for reserve tokens, at least
    /// `min_tokens` of them.
    pub fn swap_near_exact_in(&mut self, near_in: Balance, min_tokens: Balance, fee: Fee) -> (r:
        Result<Swapped, ClpError>)
        requires
            old(self).wf(),
            fee.wf(),
        ensures
            final(self).wf(),
            r == exact_in_outcome(
                near_in,
                min_tokens,
                old(self)@.near_bal as u128,
                old(self)@.token_bal as u128,
                fee,
            ),
            match r {
                Ok(s) => final(self)@ == after_near_in(old(self)@, s),
                Err(_) => final(self)@ == old(self)@,
            },
            final(self)@.product() >= old(self)@.product(),
    {
        let s = self.quote_near_exact_in(near_in, min_tokens, fee)?;
        self.settle_near_in(s);
        Ok(s)
    }

    /// Buys `tokens_out` reserve tokens for the native asset, at most
    /// `max_near` of it.
    pub fn swap_near_exact_out(&mut self, tokens_out: Balance, max_near: Balance, fee: Fee) -> (r:
        Result<Swapped, ClpError>)
        requires
            old(self).wf(),
            fee.wf(),
        ensures
            final(self).wf(),
            r == exact_out_outcome(
                tokens_out,
                max_near,
                old(self)@.token_bal as u128,
                old(self)@.near_bal as u128,
                fee,
            ),
            match r {
                Ok(s) => final(self)@ == after_near_in(old(self)@, s),
                Err(_) => final(self)@ == old(self)@,
            },
            final(self)@.product() >= old(self)@.product(),
    {
        let s = self.quote_near_exact_out(tokens_out, max_near, fee)?;
        self.settle_near_in(s);
        Ok(s)
    }

    /// Sells `tokens_in` reserve tokens for the native asset, at least
    /// `min_near` of it.
    pub fn swap_reserve_exact_in(&mut self, tokens_in: Balance, min_near: Balance, fee: Fee) -> (r:
        Result<Swapped, ClpError>)
        requires
            old(self).wf(),
            fee.wf(),
        ensures
            final(self).wf(),
            r == exact_in_outcome(
                tokens_in,
                min_near,
                old(self)@.token_bal as u128,
                old(self)@.near_bal as u128,
                fee,
            ),
            match r {
                Ok(s) => final(self)@ == after_tokens_in(old(self)@, s),
                Err(_) => final(self)@ == old(self)@,
            },
            final(self)@.product() >= old(self)@.product(),
    {
        let s = self.quote_reserve_exact_in(tokens_in, min_near, fee)?;
        self.settle_tokens_in(s);
        Ok(s)
    }

    /// Buys `near_out` of the native asset for reserve tokens, at most
    /// `max_tokens` of them.
    pub fn swap_reserve_exact_out(&mut self, near_out: Balance, max_tokens: Balance, fee: Fee) -> (r:
        Result<Swapped, ClpError>)
        requires
            old(self).wf(),
            fee.wf(),
        ensures
            final(self).wf(),
            r == exact_out_outcome(
                near_out,
                max_tokens,
                old(self)@.near_bal as u128,
                old(self)@.token_bal as u128,
                fee,
            ),
            match r {
                Ok(s) => final(self)@ == after_tokens_in(old(self)@, s),
                Err(_) => final(self)@ == old(self)@,
            },
            final(self)@.product() >= old(self)@.product(),
    {
        let s = self.quote_reserve_exact_out(near_out, max_tokens, fee)?;
        self.settle_tokens_in(s);
        Ok(s)
    }
}

} // verus!

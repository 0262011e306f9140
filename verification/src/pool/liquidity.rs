//! Adding liquidity to a pool and taking it out again.
//!
//! The first deposit into an empty pool sets the price: the provider names
//! both amounts. Every later deposit has to match the ratio of the reserves,
//! rounded against the provider, and every withdrawal takes the provider's
//! fraction of both reserves, rounded down.

use vstd::prelude::*;
use crate::errors::ClpError;
use crate::ledger::{lemma_balance_le_total, lemma_with_balance, with_balance};
use crate::pool::{Balance, Pool, PoolView};
use crate::pricing::lemma_div_bounds;
use crate::wide::mul_div;

verus! {

/// What a deposit moved.
#[derive(Clone, Copy, Debug, PartialEq, Eq, Structural)]
pub struct LiquidityAdded {
    /// The native amount paid in.
    pub near_in: Balance,
    /// The reserve tokens owed with it.
    pub token_in: Balance,
    /// The shares credited for it.
    pub shares_minted: Balance,
}

/// What a withdrawal moved.
#[derive(Clone, Copy, Debug, PartialEq, Eq, Structural)]
pub struct LiquidityRemoved {
    /// The shares given up.
    pub shares: Balance,
    /// The native amount paid out.
    pub near_out: Balance,
    /// The reserve tokens paid out.
    pub token_out: Balance,
}

/// The reserve tokens that have to come with `near_in` to keep the ratio of
/// a seeded pool: the quotient rounded down, plus one.
pub open spec fn token_required(p: PoolView, near_in: nat) -> nat {
    (near_in * p.token_bal) / p.near_bal + 1
}

/// The shares that `near_in` buys in a seeded pool.
pub open spec fn shares_for(p: PoolView, near_in: nat) -> nat {
    (near_in * p.total_shares) / p.near_bal
}

/// The native amount that `shares` stand for.
pub open spec fn near_share(p: PoolView, shares: nat) -> nat {
    (shares * p.near_bal) / p.total_shares
}

/// The reserve tokens that `shares` stand for.
pub open spec fn token_share(p: PoolView, shares: nat) -> nat {
    (shares * p.token_bal) / p.total_shares
}

/// Whether a deposit is accepted, and what it moves.
pub open spec fn deposit_outcome(
    p: PoolView,
    near_in: Balance,
    max_token: Balance,
    min_shares: Balance,
) -> Result<LiquidityAdded, ClpError> {
    if near_in == 0 || max_token == 0 {
        Err(ClpError::Zero)
    } else if p.total_shares == 0 {
        Ok(LiquidityAdded { near_in, token_in: max_token, shares_minted: near_in })
    } else if token_required(p, near_in as nat) > max_token {
        Err(ClpError::MaxExceeded)
    } else if shares_for(p, near_in as nat) < min_shares {
        Err(ClpError::MinNotMet)
    } else if p.near_bal + near_in > u128::MAX || p.token_bal + token_required(p, near_in as nat)
        > u128::MAX || p.total_shares + shares_for(p, near_in as nat) > u128::MAX {
        Err(ClpError::Arith)
    } else {
        Ok(
            LiquidityAdded {
                near_in,
                token_in: token_required(p, near_in as nat) as u128,
                shares_minted: shares_for(p, near_in as nat) as u128,
            },
        )
    }
}

/// The pool after a deposit has been credited to the provider.
pub open spec fn credited(p: PoolView, provider: Seq<char>, added: LiquidityAdded) -> PoolView {
    PoolView {
        near_bal: p.near_bal + added.near_in as nat,
        token_bal: p.token_bal + added.token_in as nat,
        total_shares: p.total_shares + added.shares_minted as nat,
        shares: with_balance(
            p.shares,
            provider,
            p.share_of(provider) + added.shares_minted as nat,
        ),
        pool_id: p.pool_id,
    }
}

/// Whether a withdrawal is accepted, and what it moves.
pub open spec fn redeem_outcome(
    p: PoolView,
    provider: Seq<char>,
    shares: Balance,
    min_near: Balance,
    min_tokens: Balance,
) -> Result<LiquidityRemoved, ClpError> {
    if shares == 0 || min_near == 0 || min_tokens == 0 {
        Err(ClpError::Zero)
    } else if p.share_of(provider) < shares {
        Err(ClpError::InsufficientShares)
    } else if near_share(p, shares as nat) < min_near || token_share(p, shares as nat)
        < min_tokens {
        Err(ClpError::MinNotMet)
    } else {
        Ok(
            LiquidityRemoved {
                shares,
                near_out: near_share(p, shares as nat) as u128,
                token_out: token_share(p, shares as nat) as u128,
            },
        )
    }
}

/// The pool after a withdrawal has been charged to the provider.
pub open spec fn debited(p: PoolView, provider: Seq<char>, removed: LiquidityRemoved) -> PoolView {
    PoolView {
        near_bal: (p.near_bal - removed.near_out) as nat,
        token_bal: (p.token_bal - removed.token_out) as nat,
        total_shares: (p.total_shares - removed.shares) as nat,
        shares: with_balance(
            p.shares,
            provider,
            (p.share_of(provider) - removed.shares) as nat,
        ),
        pool_id: p.pool_id,
    }
}

/// Whether a deposit can be taken back: the provider still holds the shares
/// minted for it, both reserves still cover it, and what is left is a pool
/// that is either empty or seeded.
pub open spec fn revert_outcome(p: PoolView, provider: Seq<char>, added: LiquidityAdded) -> Result<
    (),
    ClpError,
> {
    if p.share_of(provider) < added.shares_minted {
        Err(ClpError::InsufficientShares)
    } else if p.near_bal < added.near_in || p.token_bal < added.token_in {
        Err(ClpError::Depleted)
    } else if !(uncredited(p, provider, added).is_empty() || uncredited(
        p,
        provider,
        added,
    ).is_seeded()) {
        Err(ClpError::Depleted)
    } else {
        Ok(())
    }
}

/// The pool after a deposit has been taken back.
pub open spec fn uncredited(p: PoolView, provider: Seq<char>, added: LiquidityAdded) -> PoolView {
    PoolView {
        near_bal: (p.near_bal - added.near_in) as nat,
        token_bal: (p.token_bal - added.token_in) as nat,
        total_shares: (p.total_shares - added.shares_minted) as nat,
        shares: with_balance(
            p.shares,
            provider,
            (p.share_of(provider) - added.shares_minted) as nat,
        ),
        pool_id: p.pool_id,
    }
}

/// A fraction of a reserve is the whole reserve for all shares, and less
/// than the reserve for fewer.
pub proof fn lemma_fraction(shares: nat, bal: nat, all: nat)
    requires
        0 < shares <= all,
        0 < bal,
    ensures
        (shares * bal) / all <= bal,
        shares == all ==> (shares * bal) / all == bal,
        shares < all ==> (shares * bal) / all < bal,
{
    let q = (shares * bal) / all;
    assert(0 <= shares * bal) by (nonlinear_arith)
        requires
            0 < shares,
            0 < bal,
    ;
    lemma_div_bounds((shares * bal) as int, all as int);
    if shares == all {
        assert(q == bal) by (nonlinear_arith)
            requires
                q * all <= all * bal,
                all * bal < (q + 1) * all,
                0 < all,
        ;
    } else {
        assert(q < bal) by (nonlinear_arith)
            requires
                q * all <= shares * bal,
                shares < all,
                0 < bal,
                0 <= q,
        ;
    }
}

/// A deposit that is accepted leaves a pool that satisfies the invariant.
pub proof fn lemma_credited_wf(
    p: PoolView,
    provider: Seq<char>,
    near_in: Balance,
    max_token: Balance,
    min_shares: Balance,
)
    requires
        p.wf(),
        deposit_outcome(p, near_in, max_token, min_shares) is Ok,
    ensures
        credited(p, provider, deposit_outcome(p, near_in, max_token, min_shares)->Ok_0).wf(),
        credited(p, provider, deposit_outcome(p, near_in, max_token, min_shares)->Ok_0).is_seeded(),
        credited(p, provider, deposit_outcome(p, near_in, max_token, min_shares)->Ok_0).share_of(
            provider,
        ) == p.share_of(provider) + deposit_outcome(
            p,
            near_in,
            max_token,
            min_shares,
        )->Ok_0.shares_minted,
{
    let added = deposit_outcome(p, near_in, max_token, min_shares)->Ok_0;
    lemma_with_balance(p.shares, provider, p.share_of(provider) + added.shares_minted as nat);
    if p.total_shares != 0 {
        assert(0 <= near_in * p.token_bal) by (nonlinear_arith)
            requires
                0 <= near_in,
                0 <= p.token_bal,
        ;
        assert(0 <= near_in * p.total_shares) by (nonlinear_arith)
            requires
                0 <= near_in,
                0 <= p.total_shares,
        ;
        lemma_div_bounds((near_in * p.token_bal) as int, p.near_bal as int);
        lemma_div_bounds((near_in * p.total_shares) as int, p.near_bal as int);
    }
}

/// A withdrawal that is accepted pays out no more than the reserves hold and
/// leaves a pool that satisfies the invariant.
pub proof fn lemma_debited_wf(
    p: PoolView,
    provider: Seq<char>,
    shares: Balance,
    min_near: Balance,
    min_tokens: Balance,
)
    requires
        p.wf(),
        redeem_outcome(p, provider, shares, min_near, min_tokens) is Ok,
    ensures
        p.is_seeded(),
        shares <= p.share_of(provider) <= p.total_shares,
        near_share(p, shares as nat) <= p.near_bal,
        token_share(p, shares as nat) <= p.token_bal,
        debited(p, provider, redeem_outcome(p, provider, shares, min_near, min_tokens)->Ok_0).wf(),
        debited(
            p,
            provider,
            redeem_outcome(p, provider, shares, min_near, min_tokens)->Ok_0,
        ).share_of(provider) == p.share_of(provider) - shares,
{
    let removed = redeem_outcome(p, provider, shares, min_near, min_tokens)->Ok_0;
    lemma_balance_le_total(p.shares, provider);
    lemma_fraction(shares as nat, p.near_bal, p.total_shares);
    lemma_fraction(shares as nat, p.token_bal, p.total_shares);
    lemma_with_balance(p.shares, provider, (p.share_of(provider) - shares) as nat);
}

/// Liquidity that is added and at once taken out again returns no more than
/// was paid in, of either asset.
pub proof fn lemma_round_trip(
    p: PoolView,
    provider: Seq<char>,
    near_in: Balance,
    max_token: Balance,
    min_shares: Balance,
    min_near: Balance,
    min_tokens: Balance,
)
    requires
        p.wf(),
        deposit_outcome(p, near_in, max_token, min_shares) is Ok,
        redeem_outcome(
            credited(p, provider, deposit_outcome(p, near_in, max_token, min_shares)->Ok_0),
            provider,
            deposit_outcome(p, near_in, max_token, min_shares)->Ok_0.shares_minted,
            min_near,
            min_tokens,
        ) is Ok,
    ensures
        redeem_outcome(
            credited(p, provider, deposit_outcome(p, near_in, max_token, min_shares)->Ok_0),
            provider,
            deposit_outcome(p, near_in, max_token, min_shares)->Ok_0.shares_minted,
            min_near,
            min_tokens,
        )->Ok_0.near_out <= near_in,
        redeem_outcome(
            credited(p, provider, deposit_outcome(p, near_in, max_token, min_shares)->Ok_0),
            provider,
            deposit_outcome(p, near_in, max_token, min_shares)->Ok_0.shares_minted,
            min_near,
            min_tokens,
        )->Ok_0.token_out <= deposit_outcome(p, near_in, max_token, min_shares)->Ok_0.token_in,
{
    let added = deposit_outcome(p, near_in, max_token, min_shares)->Ok_0;
    let q = credited(p, provider, added);
    let s = added.shares_minted as int;
    lemma_credited_wf(p, provider, near_in, max_token, min_shares);
    lemma_debited_wf(q, provider, added.shares_minted, min_near, min_tokens);
    let n = p.near_bal as int;
    let t = p.token_bal as int;
    let all = p.total_shares as int;
    let dn = near_in as int;
    let dt = added.token_in as int;
    assert(0 <= s * (n + dn)) by (nonlinear_arith)
        requires
            0 <= s,
            0 <= n + dn,
    ;
    assert(0 <= s * (t + dt)) by (nonlinear_arith)
        requires
            0 <= s,
            0 <= t + dt,
    ;
    lemma_div_bounds(s * (n + dn), all + s);
    lemma_div_bounds(s * (t + dt), all + s);
    let near_out = (s * (n + dn)) / (all + s);
    let token_out = (s * (t + dt)) / (all + s);
    if p.total_shares == 0 {
        // the first deposit: the provider owns the whole pool
        lemma_fraction(s as nat, q.near_bal, q.total_shares);
        lemma_fraction(s as nat, q.token_bal, q.total_shares);
    } else {
        assert(0 <= dn * t) by (nonlinear_arith)
            requires
                0 <= dn,
                0 <= t,
        ;
        assert(0 <= dn * all) by (nonlinear_arith)
            requires
                0 <= dn,
                0 <= all,
        ;
        lemma_div_bounds(dn * t, n);
        lemma_div_bounds(dn * all, n);
        // s * n <= dn * all, hence s * (n + dn) <= dn * (all + s)
        assert(near_out <= dn) by (nonlinear_arith)
            requires
                s * n <= dn * all,
                near_out * (all + s) <= s * (n + dn),
                0 < all + s,
                0 <= s,
                0 <= near_out,
        ;
        // dt * n > dn * t and s * n <= dn * all, hence s * t <= dt * all
        assert(s * t * n <= dt * all * n) by (nonlinear_arith)
            requires
                s * n <= dn * all,
                dn * t < dt * n,
                0 <= t,
                0 < all,
                0 <= s,
        ;
        assert(s * t <= dt * all) by (nonlinear_arith)
            requires
                s * t * n <= dt * all * n,
                0 < n,
        ;
        assert(token_out <= dt) by (nonlinear_arith)
            requires
                s * t <= dt * all,
                token_out * (all + s) <= s * (t + dt),
                0 < all + s,
                0 <= s,
                0 <= token_out,
        ;
    }
}

/// Neither a deposit nor a withdrawal lowers what a share stands for, of
/// either asset: the reserves per share are kept, but for the rounding, which
/// goes to the pool.
pub proof fn lemma_share_value_kept(
    p: PoolView,
    provider: Seq<char>,
    near_in: Balance,
    max_token: Balance,
    min_shares: Balance,
    shares: Balance,
    min_near: Balance,
    min_tokens: Balance,
)
    requires
        p.wf(),
        p.is_seeded(),
    ensures
        deposit_outcome(p, near_in, max_token, min_shares) matches Ok(added) ==> ({
            let q = credited(p, provider, added);
            &&& q.near_bal * p.total_shares >= p.near_bal * q.total_shares
            &&& q.token_bal * p.total_shares >= p.token_bal * q.total_shares
        }),
        redeem_outcome(p, provider, shares, min_near, min_tokens) matches Ok(removed) ==> ({
            let q = debited(p, provider, removed);
            &&& q.near_bal * p.total_shares >= p.near_bal * q.total_shares
            &&& q.token_bal * p.total_shares >= p.token_bal * q.total_shares
        }),
{
    let n = p.near_bal as int;
    let t = p.token_bal as int;
    let all = p.total_shares as int;
    if deposit_outcome(p, near_in, max_token, min_shares) is Ok {
        let added = deposit_outcome(p, near_in, max_token, min_shares)->Ok_0;
        let dn = near_in as int;
        let dt = added.token_in as int;
        let s = added.shares_minted as int;
        assert(0 <= dn * t) by (nonlinear_arith)
            requires
                0 <= dn,
                0 <= t,
        ;
        assert(0 <= dn * all) by (nonlinear_arith)
            requires
                0 <= dn,
                0 <= all,
        ;
        lemma_div_bounds(dn * t, n);
        lemma_div_bounds(dn * all, n);
        assert((n + dn) * all >= n * (all + s)) by (nonlinear_arith)
            requires
                s * n <= dn * all,
        ;
        assert(s * t * n <= dt * all * n) by (nonlinear_arith)
            requires
                s * n <= dn * all,
                dn * t < dt * n,
                0 <= t,
                0 < all,
                0 <= s,
        ;
        assert((t + dt) * all >= t * (all + s)) by (nonlinear_arith)
            requires
                s * t * n <= dt * all * n,
                0 < n,
        ;
    }
    if redeem_outcome(p, provider, shares, min_near, min_tokens) is Ok {
        let removed = redeem_outcome(p, provider, shares, min_near, min_tokens)->Ok_0;
        lemma_debited_wf(p, provider, shares, min_near, min_tokens);
        let s = shares as int;
        let near_out = removed.near_out as int;
        let token_out = removed.token_out as int;
        assert(0 <= s * n) by (nonlinear_arith)
            requires
                0 <= s,
                0 <= n,
        ;
        assert(0 <= s * t) by (nonlinear_arith)
            requires
                0 <= s,
                0 <= t,
        ;
        lemma_div_bounds(s * n, all);
        lemma_div_bounds(s * t, all);
        assert((n - near_out) * all >= n * (all - s)) by (nonlinear_arith)
            requires
                near_out * all <= s * n,
        ;
        assert((t - token_out) * all >= t * (all - s)) by (nonlinear_arith)
            requires
                token_out * all <= s * t,
        ;
    }
}

impl Pool {
    /// Credits a deposit of `near_in` of the native asset to `provider`.
    ///
    /// Into an empty pool the provider pays `max_token` reserve tokens and
    /// sets the price; `min_shares` is not looked at. Into a seeded pool the
    /// provider owes the tokens that keep the ratio, which may not exceed
    /// `max_token`, and is credited the shares that the deposit buys, which
    /// may not fall short of `min_shares`.
    pub fn add_liquidity(
        &mut self,
        provider: &String,
        near_in: Balance,
        max_token: Balance,
        min_shares: Balance,
    ) -> (r: Result<LiquidityAdded, ClpError>)
        requires
            old(self).wf(),
        ensures
            final(self).wf(),
            r == deposit_outcome(old(self)@, near_in, max_token, min_shares),
            match r {
                Ok(added) => final(self)@ == credited(old(self)@, provider@, added),
                Err(_) => final(self)@ == old(self)@,
            },
    {
        if near_in == 0 || max_token == 0 {
            return Err(ClpError::Zero);
        }
        let added = if self.total_shares == 0 {
            LiquidityAdded { near_in, token_in: max_token, shares_minted: near_in }
        } else {
            let token_in: u128 = match mul_div(near_in, self.token_bal, self.near_bal) {
                Some(q) => {
                    if q >= max_token {
                        return Err(ClpError::MaxExceeded);
                    }
                    q + 1
                },
                None => {
                    return Err(ClpError::MaxExceeded);
                },
            };
            let shares_minted: u128 = match mul_div(near_in, self.total_shares, self.near_bal) {
                Some(s) => {
                    if s < min_shares {
                        return Err(ClpError::MinNotMet);
                    }
                    s
                },
                None => {
                    return Err(ClpError::Arith);
                },
            };
            if near_in > u128::MAX - self.near_bal || token_in > u128::MAX - self.token_bal
                || shares_minted > u128::MAX - self.total_shares {
                return Err(ClpError::Arith);
            }
            LiquidityAdded { near_in, token_in, shares_minted }
        };
        proof {
            lemma_credited_wf(self@, provider@, near_in, max_token, min_shares);
            lemma_balance_le_total(self@.shares, provider@);
        }
        let held = self.shares.get(provider);
        self.shares.set(provider, held + added.shares_minted);
        self.near_bal = self.near_bal + added.near_in;
        self.token_bal = self.token_bal + added.token_in;
        self.total_shares = self.total_shares + added.shares_minted;
        Ok(added)
    }

    /// Redeems `shares` of `provider` for its fraction of both reserves,
    /// provided that it yields at least `min_near` and `min_tokens`.
    pub fn withdraw_liquidity(
        &mut self,
        provider: &String,
        shares: Balance,
        min_near: Balance,
        min_tokens: Balance,
    ) -> (r: Result<LiquidityRemoved, ClpError>)
        requires
            old(self).wf(),
        ensures
            final(self).wf(),
            r == redeem_outcome(old(self)@, provider@, shares, min_near, min_tokens),
            match r {
                Ok(removed) => final(self)@ == debited(old(self)@, provider@, removed),
                Err(_) => final(self)@ == old(self)@,
            },
    {
        if shares == 0 || min_near == 0 || min_tokens == 0 {
            return Err(ClpError::Zero);
        }
        let held = self.shares.get(provider);
        if held < shares {
            return Err(ClpError::InsufficientShares);
        }
        proof {
            lemma_balance_le_total(self@.shares, provider@);
            lemma_fraction(shares as nat, self@.near_bal, self@.total_shares);
            lemma_fraction(shares as nat, self@.token_bal, self@.total_shares);
        }
        let near_out: u128 = match mul_div(shares, self.near_bal, self.total_shares) {
            Some(q) => q,
            None => {
                return Err(ClpError::Arith);
            },
        };
        let token_out: u128 = match mul_div(shares, self.token_bal, self.total_shares) {
            Some(q) => q,
            None => {
                return Err(ClpError::Arith);
            },
        };
        if near_out < min_near || token_out < min_tokens {
            return Err(ClpError::MinNotMet);
        }
        let removed = LiquidityRemoved { shares, near_out, token_out };
        proof {
            lemma_debited_wf(self@, provider@, shares, min_near, min_tokens);
        }
        self.shares.set(provider, held - shares);
        self.near_bal = self.near_bal - near_out;
        self.token_bal = self.token_bal - token_out;
        self.total_shares = self.total_shares - shares;
        Ok(removed)
    }

    /// Takes back a deposit whose reserve tokens never arrived.
    pub fn revert_liquidity(&mut self, provider: &String, added: LiquidityAdded) -> (r: Result<
        (),
        ClpError,
    >)
        requires
            old(self).wf(),
        ensures
            final(self).wf(),
            r == revert_outcome(old(self)@, provider@, added),
            match r {
                Ok(_) => final(self)@ == uncredited(old(self)@, provider@, added),
                Err(_) => final(self)@ == old(self)@,
            },
    {
        let held = self.shares.get(provider);
        if held < added.shares_minted {
            return Err(ClpError::InsufficientShares);
        }
        if self.near_bal < added.near_in || self.token_bal < added.token_in {
            return Err(ClpError::Depleted);
        }
        proof {
            lemma_balance_le_total(self@.shares, provider@);
            lemma_with_balance(
                self@.shares,
                provider@,
                (self@.share_of(provider@) - added.shares_minted) as nat,
            );
        }
        let near_left: u128 = self.near_bal - added.near_in;
        let token_left: u128 = self.token_bal - added.token_in;
        let shares_left: u128 = self.total_shares - added.shares_minted;
        let empty = near_left == 0 && token_left == 0 && shares_left == 0;
        let seeded = near_left > 0 && token_left > 0 && shares_left > 0;
        if !(empty || seeded) {
            return Err(ClpError::Depleted);
        }
        self.shares.set(provider, held - added.shares_minted);
        self.near_bal = near_left;
        self.token_bal = token_left;
        self.total_shares = shares_left;
        Ok(())
    }
}

} // verus!

//! The pricing rule: a constant product of the two reserves, with a fee
//! taken from what is paid in.
//!
//! Both calculators are pure. Products are taken in 256 bits and the quotient
//! is brought back to 128 bits; a value that outgrows either width is an
//! arithmetic failure, never a wrong price.

use vstd::prelude::*;
use crate::errors::ClpError;
use crate::wide::{pow256, U256, lemma_u256_bounds};

verus! {

/// The fee as a fraction `num / den` of the amount paid in.
#[derive(Clone, Copy, Debug, PartialEq, Eq, Structural)]
pub struct Fee {
    pub num: u128,
    pub den: u128,
}

impl Fee {
    /// A fee is a proper fraction: some part of the input always trades.
    pub open spec fn wf(self) -> bool {
        self.num < self.den
    }

    /// The numerator of the part of the input that trades.
    pub open spec fn keep(self) -> int {
        self.den - self.num
    }

    /// Three parts in a thousand.
    pub fn standard() -> (f: Fee)
        ensures
            f.num == 3,
            f.den == 1000,
            f.wf(),
    {
        Fee { num: 3, den: 1000 }
    }

    /// The fee `num / den`, if that is a proper fraction.
    pub fn new(num: u128, den: u128) -> (r: Option<Fee>)
        ensures
            r == (if num < den {
                Some(Fee { num, den })
            } else {
                None::<Fee>
            }),
    {
        if num < den {
            Some(Fee { num, den })
        } else {
            None
        }
    }
}

impl Default for Fee {
    fn default() -> (f: Fee)
        ensures
            f.num == 3,
            f.den == 1000,
    {
        Fee { num: 3, den: 1000 }
    }
}

/// What is paid in, scaled by the part of it that trades.
pub open spec fn effective_in(amount_in: int, fee: Fee) -> int {
    amount_in * fee.keep()
}

/// The amount bought for `amount_in`, rounded down.
pub open spec fn out_amount(amount_in: int, in_bal: int, out_bal: int, fee: Fee) -> int {
    (effective_in(amount_in, fee) * out_bal) / (in_bal * fee.den + effective_in(amount_in, fee))
}

/// The amount to pay for `amount_out`: the quotient rounded down, plus one.
pub open spec fn in_amount(amount_out: int, out_bal: int, in_bal: int, fee: Fee) -> int {
    (in_bal * amount_out * fee.den) / ((out_bal - amount_out) * fee.keep()) + 1
}

/// What `calc_out_amount` returns.
pub open spec fn calc_out_amount_spec(
    amount_in: u128,
    in_bal: u128,
    out_bal: u128,
    fee: Fee,
) -> Result<u128, ClpError> {
    if in_bal == 0 || out_bal == 0 {
        Err(ClpError::Depleted)
    } else if effective_in(amount_in as int, fee) * out_bal >= pow256() || in_bal * fee.den
        + effective_in(amount_in as int, fee) >= pow256() {
        Err(ClpError::Arith)
    } else {
        Ok(out_amount(amount_in as int, in_bal as int, out_bal as int, fee) as u128)
    }
}

/// What `calc_in_amount` returns.
pub open spec fn calc_in_amount_spec(
    amount_out: u128,
    out_bal: u128,
    in_bal: u128,
    fee: Fee,
) -> Result<u128, ClpError> {
    if in_bal == 0 || out_bal == 0 || amount_out >= out_bal {
        Err(ClpError::Depleted)
    } else if in_bal * amount_out * fee.den >= pow256() || in_amount(
        amount_out as int,
        out_bal as int,
        in_bal as int,
        fee,
    ) > u128::MAX {
        Err(ClpError::Arith)
    } else {
        Ok(in_amount(amount_out as int, out_bal as int, in_bal as int, fee) as u128)
    }
}

/// A quotient of naturals, times the divisor, is the largest multiple of the
/// divisor that does not exceed the dividend.
pub proof fn lemma_div_bounds(n: int, d: int)
    requires
        0 <= n,
        0 < d,
    ensures
        0 <= n / d,
        (n / d) * d <= n < (n / d + 1) * d,
{
    vstd::arithmetic::div_mod::lemma_fundamental_div_mod(n, d);
    vstd::arithmetic::div_mod::lemma_mod_pos_bound(n, d);
    vstd::arithmetic::div_mod::lemma_div_pos_is_pos(n, d);
    assert((n / d + 1) * d == d * (n / d) + d) by (nonlinear_arith);
    assert((n / d) * d == d * (n / d)) by (nonlinear_arith);
}

/// A dividend that reaches `k` times the divisor has a quotient of at least `k`.
pub proof fn lemma_div_at_least(n: int, d: int, k: int)
    requires
        0 < d,
        0 <= k,
        k * d <= n,
    ensures
        k <= n / d,
{
    lemma_div_bounds(n, d);
    assert(k < n / d + 1) by (nonlinear_arith)
        requires
            k * d <= n,
            n < (n / d + 1) * d,
            0 < d,
    ;
}

/// The amount bought stays below the reserve it is taken from.
pub proof fn lemma_out_amount_bounds(amount_in: int, in_bal: int, out_bal: int, fee: Fee)
    requires
        fee.wf(),
        0 <= amount_in,
        0 < in_bal,
        0 < out_bal,
    ensures
        0 <= out_amount(amount_in, in_bal, out_bal, fee) < out_bal,
        0 < in_bal * fee.den + effective_in(amount_in, fee),
        0 <= effective_in(amount_in, fee) * out_bal,
        out_amount(amount_in, in_bal, out_bal, fee) * (in_bal * fee.den + effective_in(
            amount_in,
            fee,
        )) <= effective_in(amount_in, fee) * out_bal,
{
    let g = fee.keep();
    let eff = effective_in(amount_in, fee);
    let d = in_bal * fee.den + eff;
    let out = out_amount(amount_in, in_bal, out_bal, fee);
    assert(0 <= eff) by (nonlinear_arith)
        requires
            eff == amount_in * g,
            0 <= amount_in,
            0 < g,
    ;
    assert(0 < in_bal * fee.den) by (nonlinear_arith)
        requires
            0 < in_bal,
            0 < fee.den,
    ;
    assert(0 <= eff * out_bal) by (nonlinear_arith)
        requires
            0 <= eff,
            0 < out_bal,
    ;
    lemma_div_bounds(eff * out_bal, d);
    assert(out < out_bal) by (nonlinear_arith)
        requires
            out * d <= eff * out_bal,
            eff < d,
            0 <= eff,
            0 < out_bal,
            0 <= out,
    ;
}

/// Buying with an exact input never lowers the product of the reserves.
pub proof fn lemma_product_grows_exact_in(amount_in: int, in_bal: int, out_bal: int, fee: Fee)
    requires
        fee.wf(),
        0 <= amount_in,
        0 < in_bal,
        0 < out_bal,
    ensures
        (in_bal + amount_in) * (out_bal - out_amount(amount_in, in_bal, out_bal, fee)) >= in_bal
            * out_bal,
{
    let g = fee.keep();
    let den = fee.den as int;
    let eff = effective_in(amount_in, fee);
    let out = out_amount(amount_in, in_bal, out_bal, fee);
    lemma_out_amount_bounds(amount_in, in_bal, out_bal, fee);
    // out * (in_bal * den + amount_in * g) <= amount_in * g * out_bal
    assert(out * in_bal * den <= amount_in * g * (out_bal - out)) by (nonlinear_arith)
        requires
            out * (in_bal * den + eff) <= eff * out_bal,
            eff == amount_in * g,
    ;
    assert(amount_in * g * (out_bal - out) <= amount_in * den * (out_bal - out))
        by (nonlinear_arith)
        requires
            0 <= amount_in,
            0 < out_bal - out,
            g <= den,
    ;
    assert(out * in_bal <= amount_in * (out_bal - out)) by (nonlinear_arith)
        requires
            out * in_bal * den <= amount_in * den * (out_bal - out),
            0 < den,
    ;
    assert((in_bal + amount_in) * (out_bal - out) == in_bal * out_bal - out * in_bal + amount_in
        * (out_bal - out)) by (nonlinear_arith);
}

/// Buying an exact output raises the product of the reserves.
pub proof fn lemma_product_grows_exact_out(amount_out: int, out_bal: int, in_bal: int, fee: Fee)
    requires
        fee.wf(),
        0 <= amount_out < out_bal,
        0 < in_bal,
    ensures
        in_amount(amount_out, out_bal, in_bal, fee) >= 1,
        (in_bal + in_amount(amount_out, out_bal, in_bal, fee)) * (out_bal - amount_out) > in_bal
            * out_bal,
{
    let g = fee.keep();
    let den = fee.den as int;
    let left = out_bal - amount_out;
    let n = in_bal * amount_out * den;
    let e = left * g;
    let pay = in_amount(amount_out, out_bal, in_bal, fee);
    assert(0 <= in_bal * amount_out) by (nonlinear_arith)
        requires
            0 < in_bal,
            0 <= amount_out,
    ;
    assert(0 <= n) by (nonlinear_arith)
        requires
            n == in_bal * amount_out * den,
            0 <= in_bal * amount_out,
            0 < den,
    ;
    assert(0 < e) by (nonlinear_arith)
        requires
            e == left * g,
            0 < left,
            0 < g,
    ;
    lemma_div_bounds(n, e);
    assert(pay == n / e + 1);
    // pay * left * g > in_bal * amount_out * den >= in_bal * amount_out * g
    assert(in_bal * amount_out * g <= n) by (nonlinear_arith)
        requires
            n == in_bal * amount_out * den,
            0 <= in_bal * amount_out,
            g <= den,
    ;
    assert(pay * left > in_bal * amount_out) by (nonlinear_arith)
        requires
            n < pay * e,
            e == left * g,
            in_bal * amount_out * g <= n,
            0 < g,
    ;
    assert((in_bal + pay) * left == in_bal * out_bal - in_bal * amount_out + pay * left)
        by (nonlinear_arith)
        requires
            left == out_bal - amount_out,
    ;
}

/// The exact-output price, paid in, buys at least the output it was
/// quoted for.
pub proof fn lemma_exact_out_self_consistent(amount_out: int, out_bal: int, in_bal: int, fee: Fee)
    requires
        fee.wf(),
        0 <= amount_out < out_bal,
        0 < in_bal,
    ensures
        out_amount(in_amount(amount_out, out_bal, in_bal, fee), in_bal, out_bal, fee)
            >= amount_out,
{
    let g = fee.keep();
    let den = fee.den as int;
    let left = out_bal - amount_out;
    let n = in_bal * amount_out * den;
    let e = left * g;
    let pay = in_amount(amount_out, out_bal, in_bal, fee);
    let eff = effective_in(pay, fee);
    let d = in_bal * den + eff;
    assert(0 <= in_bal * amount_out) by (nonlinear_arith)
        requires
            0 < in_bal,
            0 <= amount_out,
    ;
    assert(0 <= n) by (nonlinear_arith)
        requires
            n == in_bal * amount_out * den,
            0 <= in_bal * amount_out,
            0 < den,
    ;
    assert(0 < e) by (nonlinear_arith)
        requires
            e == left * g,
            0 < left,
            0 < g,
    ;
    lemma_div_bounds(n, e);
    assert(pay >= 1);
    lemma_out_amount_bounds(pay, in_bal, out_bal, fee);
    // eff * left > in_bal * amount_out * den, hence eff * out_bal > amount_out * d
    assert(amount_out * d <= eff * out_bal) by (nonlinear_arith)
        requires
            n < pay * e,
            e == left * g,
            left == out_bal - amount_out,
            n == in_bal * amount_out * den,
            eff == pay * g,
            d == in_bal * den + eff,
    ;
    lemma_div_at_least(eff * out_bal, d, amount_out);
}

/// The exact-output price, where it can be computed, buys at least the output
/// it was quoted for whenever the purchase itself can be computed.
pub proof fn lemma_calc_in_then_out(amount_out: u128, out_bal: u128, in_bal: u128, fee: Fee)
    requires
        fee.wf(),
        calc_in_amount_spec(amount_out, out_bal, in_bal, fee) is Ok,
    ensures
        match calc_out_amount_spec(
            calc_in_amount_spec(amount_out, out_bal, in_bal, fee)->Ok_0,
            in_bal,
            out_bal,
            fee,
        ) {
            Ok(bought) => bought >= amount_out,
            Err(e) => e == ClpError::Arith,
        },
{
    let pay = calc_in_amount_spec(amount_out, out_bal, in_bal, fee)->Ok_0;
    lemma_product_grows_exact_out(amount_out as int, out_bal as int, in_bal as int, fee);
    assert(pay as int == in_amount(amount_out as int, out_bal as int, in_bal as int, fee));
    lemma_exact_out_self_consistent(amount_out as int, out_bal as int, in_bal as int, fee);
    lemma_out_amount_bounds(pay as int, in_bal as int, out_bal as int, fee);
}

/// Pricing against a pool with an empty reserve fails, whatever the amount.
pub proof fn lemma_empty_pool_rejected(amount: u128, in_bal: u128, out_bal: u128, fee: Fee)
    requires
        in_bal == 0 || out_bal == 0,
    ensures
        calc_out_amount_spec(amount, in_bal, out_bal, fee) == Err::<u128, ClpError>(
            ClpError::Depleted,
        ),
        calc_in_amount_spec(amount, out_bal, in_bal, fee) == Err::<u128, ClpError>(
            ClpError::Depleted,
        ),
{
}

/// The amount of the output asset bought by paying `amount_in` into a pool
/// whose reserves are `in_bal` and `out_bal`.
pub fn calc_out_amount(amount_in: u128, in_bal: u128, out_bal: u128, fee: Fee) -> (r: Result<
    u128,
    ClpError,
>)
    requires
        fee.wf(),
    ensures
        r == calc_out_amount_spec(amount_in, in_bal, out_bal, fee),
        (in_bal == 0 || out_bal == 0) ==> r == Err::<u128, ClpError>(ClpError::Depleted),
        r matches Ok(bought) ==> bought < out_bal && (in_bal + amount_in) * (out_bal - bought)
            >= in_bal * out_bal,
{
    if in_bal == 0 || out_bal == 0 {
        return Err(ClpError::Depleted);
    }
    let eff = U256::mul_u128(amount_in, fee.den - fee.num);
    let scaled = U256::mul_u128(in_bal, fee.den);
    proof {
        lemma_out_amount_bounds(amount_in as int, in_bal as int, out_bal as int, fee);
        lemma_product_grows_exact_in(amount_in as int, in_bal as int, out_bal as int, fee);
        lemma_u256_bounds(eff);
        lemma_u256_bounds(scaled);
    }
    let numerator = match eff.checked_mul(U256::from_u128(out_bal)) {
        Some(n) => n,
        None => {
            return Err(ClpError::Arith);
        },
    };
    let denominator = match scaled.checked_add(eff) {
        Some(d) => d,
        None => {
            return Err(ClpError::Arith);
        },
    };
    proof {
        lemma_u256_bounds(numerator);
        lemma_u256_bounds(denominator);
    }
    match numerator.div(denominator).as_u128() {
        Some(bought) => Ok(bought),
        None => Err(ClpError::Arith),
    }
}

/// The amount of the input asset to pay for `amount_out` of the output asset
/// from a pool whose reserves are `out_bal` and `in_bal`.
pub fn calc_in_amount(amount_out: u128, out_bal: u128, in_bal: u128, fee: Fee) -> (r: Result<
    u128,
    ClpError,
>)
    requires
        fee.wf(),
    ensures
        r == calc_in_amount_spec(amount_out, out_bal, in_bal, fee),
        (in_bal == 0 || out_bal == 0) ==> r == Err::<u128, ClpError>(ClpError::Depleted),
        r matches Ok(pay) ==> pay >= 1 && amount_out < out_bal && (in_bal + pay) * (out_bal
            - amount_out) > in_bal * out_bal,
{
    if in_bal == 0 || out_bal == 0 || amount_out >= out_bal {
        return Err(ClpError::Depleted);
    }
    let left: u128 = out_bal - amount_out;
    let divisor = U256::mul_u128(left, fee.den - fee.num);
    proof {
        lemma_product_grows_exact_out(amount_out as int, out_bal as int, in_bal as int, fee);
        lemma_u256_bounds(divisor);
        assert(0 < left * fee.keep()) by (nonlinear_arith)
            requires
                0 < left,
                0 < fee.keep(),
        ;
    }
    let numerator = match U256::mul_u128(in_bal, amount_out).checked_mul(
        U256::from_u128(fee.den),
    ) {
        Some(n) => n,
        None => {
            return Err(ClpError::Arith);
        },
    };
    match numerator.div(divisor).as_u128() {
        Some(q) => match q.checked_add(1) {
            Some(pay) => Ok(pay),
            None => Err(ClpError::Arith),
        },
        None => Err(ClpError::Arith),
    }
}

} // verus!

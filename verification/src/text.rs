//! Amounts and call arguments as text.
//!
//! Amounts cross the host boundary as decimal strings, so that no digit is
//! lost to a reader that keeps numbers in 53 bits.

use vstd::prelude::*;
use vstd::string::StringExecFns;
use crate::effects::{Effect, EffectView};
use crate::pool::{AccountId, PoolInfo};

verus! {

/// `String::push` appends the character to the string's end.
pub assume_specification[ String::push ](s: &mut String, c: char)
    ensures
        final(s)@ == old(s)@.push(c),
;

/// The character of a decimal digit.
pub open spec fn digit_char(d: nat) -> char {
    if d == 0 {
        '0'
    } else if d == 1 {
        '1'
    } else if d == 2 {
        '2'
    } else if d == 3 {
        '3'
    } else if d == 4 {
        '4'
    } else if d == 5 {
        '5'
    } else if d == 6 {
        '6'
    } else if d == 7 {
        '7'
    } else if d == 8 {
        '8'
    } else {
        '9'
    }
}

/// A number in decimal, without leading zeros.
pub open spec fn decimal_of(n: nat) -> Seq<char>
    decreases n,
{
    if n < 10 {
        seq![digit_char(n)]
    } else {
        decimal_of(n / 10).push(digit_char(n % 10))
    }
}

/// The digits of `tail` in reverse, after the number `n` in decimal.
pub open spec fn decimal_then(n: nat, tail: Seq<char>) -> Seq<char> {
    decimal_of(n) + tail.reverse()
}

/// The character of the decimal digit `d`.
fn digit(d: u8) -> (c: char)
    requires
        d < 10,
    ensures
        c == digit_char(d as nat),
{
    if d == 0 {
        '0'
    } else if d == 1 {
        '1'
    } else if d == 2 {
        '2'
    } else if d == 3 {
        '3'
    } else if d == 4 {
        '4'
    } else if d == 5 {
        '5'
    } else if d == 6 {
        '6'
    } else if d == 7 {
        '7'
    } else if d == 8 {
        '8'
    } else {
        '9'
    }
}

/// Appends `n` in decimal to `out`.
pub fn push_decimal(out: &mut String, n: u128)
    ensures
        final(out)@ == old(out)@ + decimal_of(n as nat),
{
    // the digits, least significant first
    let mut low_first: Vec<char> = Vec::new();
    let mut rest: u128 = n;
    while rest >= 10
        invariant
            decimal_of(n as nat) == decimal_then(rest as nat, low_first@),
        decreases rest,
    {
        let ghost before = low_first@;
        low_first.push(digit((rest % 10) as u8));
        proof {
            let d = digit_char((rest % 10) as nat);
            assert(low_first@.reverse() =~= seq![d] + before.reverse());
            assert(decimal_of(rest as nat) == decimal_of((rest / 10) as nat).push(d));
            assert(decimal_of((rest / 10) as nat).push(d) + before.reverse() =~= decimal_of(
                (rest / 10) as nat,
            ) + (seq![d] + before.reverse()));
        }
        rest = rest / 10;
    }
    out.push(digit(rest as u8));
    let ghost head = out@;
    let mut i: usize = low_first.len();
    while i > 0
        invariant
            i <= low_first.len(),
            out@ == head + low_first@.reverse().take(low_first.len() - i),
        decreases i,
    {
        i = i - 1;
        out.push(low_first[i]);
        proof {
            let r = low_first@.reverse();
            let k = low_first.len() - i;
            assert(r.take(k) =~= r.take(k - 1).push(low_first@[i as int]));
            assert(head + r.take(k - 1).push(low_first@[i as int]) =~= (head + r.take(
                k - 1,
            )).push(low_first@[i as int]));
        }
    }
    proof {
        let r = low_first@.reverse();
        assert(r.take(low_first.len() as int) =~= r);
        assert(decimal_of(rest as nat) =~= seq![digit_char(rest as nat)]);
        assert(old(out)@ + decimal_of(n as nat) =~= head + r);
    }
}

/// `n` in decimal.
pub fn decimal(n: u128) -> (s: String)
    ensures
        s@ == decimal_of(n as nat),
{
    let mut s = String::new();
    push_decimal(&mut s, n);
    assert(Seq::<char>::empty() + decimal_of(n as nat) =~= decimal_of(n as nat));
    s
}

/// The figures of a pool as text: native reserve, token reserve and shares,
/// in round brackets.
pub open spec fn pool_info_text(info: PoolInfo) -> Seq<char> {
    seq!['('] + decimal_of(info.near_bal as nat) + seq![',', ' '] + decimal_of(
        info.token_bal as nat,
    ) + seq![',', ' '] + decimal_of(info.total_shares as nat) + seq![')']
}

impl PoolInfo {
    /// The figures as text, such as `(3000, 500, 3000)`.
    pub fn to_text(&self) -> (s: String)
        ensures
            s@ == pool_info_text(*self),
    {
        let mut s = String::new();
        s.push('(');
        push_decimal(&mut s, self.near_bal);
        s.push(',');
        s.push(' ');
        push_decimal(&mut s, self.token_bal);
        s.push(',');
        s.push(' ');
        push_decimal(&mut s, self.total_shares);
        s.push(')');
        assert(s@ =~= pool_info_text(*self));
        s
    }
}

/// A call of a method of a token contract, with its arguments as text.
pub struct TokenCall {
    /// The token contract.
    pub contract: AccountId,
    /// The method's name.
    pub method: String,
    /// The arguments, as key and value pairs in braces.
    pub args: String,
}

/// The arguments of `transfer`: the new owner and the amount.
pub open spec fn transfer_args(to: Seq<char>, amount: nat) -> Seq<char> {
    "{ \"new_owner_id\":\""@ + to + "\",\"amount\":\""@ + decimal_of(amount) + "\" }"@
}

/// The arguments of `transfer_from`: the owner, the new owner and the
/// amount.
pub open spec fn transfer_from_args(owner: Seq<char>, to: Seq<char>, amount: nat) -> Seq<char> {
    "{ \"owner_id\":\""@ + owner + "\",\"new_owner_id\":\""@ + to + "\",\"amount\":\""@
        + decimal_of(amount) + "\" }"@
}

/// The call that carries out an effect, as contract, method and arguments;
/// none for a payment of the native asset, which is no call.
pub open spec fn call_of(e: EffectView) -> Option<(Seq<char>, Seq<char>, Seq<char>)> {
    match e {
        EffectView::PayNear { .. } => None,
        EffectView::Transfer { token, to, amount } => Some(
            (token, "transfer"@, transfer_args(to, amount)),
        ),
        EffectView::TransferFrom { token, owner, to, amount } => Some(
            (token, "transfer_from"@, transfer_from_args(owner, to, amount)),
        ),
    }
}

impl Effect {
    /// The call of the token contract that carries out the effect.
    pub fn token_call(&self) -> (r: Option<TokenCall>)
        ensures
            match r {
                Some(call) => call_of(self@) == Some((call.contract@, call.method@, call.args@)),
                None => call_of(self@) is None,
            },
    {
        match self {
            Effect::PayNear { .. } => None,
            Effect::Transfer { token, to, amount } => {
                let mut args = String::from_str("{ \"new_owner_id\":\"");
                args.append(to.as_str());
                args.append("\",\"amount\":\"");
                push_decimal(&mut args, *amount);
                args.append("\" }");
                Some(
                    TokenCall {
                        contract: token.clone(),
                        method: String::from_str("transfer"),
                        args,
                    },
                )
            },
            Effect::TransferFrom { token, owner, to, amount } => {
                let mut args = String::from_str("{ \"owner_id\":\"");
                args.append(owner.as_str());
                args.append("\",\"new_owner_id\":\"");
                args.append(to.as_str());
                args.append("\",\"amount\":\"");
                push_decimal(&mut args, *amount);
                args.append("\" }");
                Some(
                    TokenCall {
                        contract: token.clone(),
                        method: String::from_str("transfer_from"),
                        args,
                    },
                )
            },
        }
    }
}

} // verus!

//! What the pools ask of the outside world: payments of the native asset and
//! transfers of reserve tokens, each with what is to be done once it has
//! resolved.
//!
//! The pools never move an asset themselves. An operation changes the local
//! accounts and returns the steps that the host has to dispatch; the host
//! reports the outcome of each step back, in an invocation of its own.

use vstd::prelude::*;
use crate::pool::{AccountId, Balance};
use crate::pool::liquidity::LiquidityAdded;

verus! {

/// What the host supplies of one invocation.
pub struct Invocation {
    /// The account that the pools run under.
    pub current: AccountId,
    /// The account that made the call.
    pub predecessor: AccountId,
    /// The native amount attached to the call.
    pub attached_deposit: Balance,
}

/// A movement of an asset that the host carries out.
pub enum Effect {
    /// Pay `amount` of the native asset to `to`.
    PayNear { to: AccountId, amount: Balance },
    /// Move `amount` of `token` from the pools' own balance to `to`.
    Transfer { token: AccountId, to: AccountId, amount: Balance },
    /// Move `amount` of `token` from `owner` to `to`, against the allowance
    /// that `owner` has granted the pools.
    TransferFrom { token: AccountId, owner: AccountId, to: AccountId, amount: Balance },
}

/// An effect as contracts speak of it.
pub enum EffectView {
    PayNear { to: Seq<char>, amount: nat },
    Transfer { token: Seq<char>, to: Seq<char>, amount: nat },
    TransferFrom { token: Seq<char>, owner: Seq<char>, to: Seq<char>, amount: nat },
}

impl View for Effect {
    type V = EffectView;

    open spec fn view(&self) -> EffectView {
        match *self {
            Effect::PayNear { to, amount } => EffectView::PayNear { to: to@, amount: amount as nat },
            Effect::Transfer { token, to, amount } => EffectView::Transfer {
                token: token@,
                to: to@,
                amount: amount as nat,
            },
            Effect::TransferFrom { token, owner, to, amount } => EffectView::TransferFrom {
                token: token@,
                owner: owner@,
                to: to@,
                amount: amount as nat,
            },
        }
    }
}

/// What is to be done when an effect has resolved.
pub enum Pending {
    /// Nothing if it succeeded; the same effect once more if it failed.
    Retry,
    /// The reserve tokens of a deposit that has been credited already: the
    /// deposit is taken back if they do not arrive.
    LiquidityDeposit { token: AccountId, provider: AccountId, added: LiquidityAdded },
    /// Reserve tokens sold for the native asset: the trade is made when they
    /// have arrived.
    ReserveExactIn {
        token: AccountId,
        payer: AccountId,
        recipient: AccountId,
        tokens_paid: Balance,
        min_near: Balance,
    },
    /// Reserve tokens paid for an exact native amount: the trade is made
    /// when they have arrived.
    ReserveExactOut {
        token: AccountId,
        payer: AccountId,
        recipient: AccountId,
        near_out: Balance,
        tokens_paid: Balance,
    },
    /// Tokens of one pool sold for tokens of another: both trades are made
    /// when they have arrived.
    TokensExactIn {
        from: AccountId,
        to: AccountId,
        payer: AccountId,
        recipient: AccountId,
        tokens_paid: Balance,
        min_tokens_to: Balance,
    },
    /// Tokens of one pool paid for an exact amount of tokens of another:
    /// both trades are made when they have arrived.
    TokensExactOut {
        from: AccountId,
        to: AccountId,
        payer: AccountId,
        recipient: AccountId,
        tokens_to: Balance,
        tokens_paid: Balance,
    },
}

/// A continuation as contracts speak of it.
pub enum PendingView {
    Retry,
    LiquidityDeposit { token: Seq<char>, provider: Seq<char>, added: LiquidityAdded },
    ReserveExactIn {
        token: Seq<char>,
        payer: Seq<char>,
        recipient: Seq<char>,
        tokens_paid: Balance,
        min_near: Balance,
    },
    ReserveExactOut {
        token: Seq<char>,
        payer: Seq<char>,
        recipient: Seq<char>,
        near_out: Balance,
        tokens_paid: Balance,
    },
    TokensExactIn {
        from: Seq<char>,
        to: Seq<char>,
        payer: Seq<char>,
        recipient: Seq<char>,
        tokens_paid: Balance,
        min_tokens_to: Balance,
    },
    TokensExactOut {
        from: Seq<char>,
        to: Seq<char>,
        payer: Seq<char>,
        recipient: Seq<char>,
        tokens_to: Balance,
        tokens_paid: Balance,
    },
}

impl View for Pending {
    type V = PendingView;

    open spec fn view(&self) -> PendingView {
        match *self {
            Pending::Retry => PendingView::Retry,
            Pending::LiquidityDeposit { token, provider, added } => PendingView::LiquidityDeposit {
                token: token@,
                provider: provider@,
                added,
            },
            Pending::ReserveExactIn {
                token,
                payer,
                recipient,
                tokens_paid,
                min_near,
            } => PendingView::ReserveExactIn {
                token: token@,
                payer: payer@,
                recipient: recipient@,
                tokens_paid,
                min_near,
            },
            Pending::ReserveExactOut {
                token,
                payer,
                recipient,
                near_out,
                tokens_paid,
            } => PendingView::ReserveExactOut {
                token: token@,
                payer: payer@,
                recipient: recipient@,
                near_out,
                tokens_paid,
            },
            Pending::TokensExactIn {
                from,
                to,
                payer,
                recipient,
                tokens_paid,
                min_tokens_to,
            } => PendingView::TokensExactIn {
                from: from@,
                to: to@,
                payer: payer@,
                recipient: recipient@,
                tokens_paid,
                min_tokens_to,
            },
            Pending::TokensExactOut {
                from,
                to,
                payer,
                recipient,
                tokens_to,
                tokens_paid,
            } => PendingView::TokensExactOut {
                from: from@,
                to: to@,
                payer: payer@,
                recipient: recipient@,
                tokens_to,
                tokens_paid,
            },
        }
    }
}

/// One effect to dispatch, and what to do when it has resolved.
pub struct Step {
    pub effect: Effect,
    pub next: Pending,
}

/// A step as contracts speak of it.
pub struct StepView {
    pub effect: EffectView,
    pub next: PendingView,
}

impl View for Step {
    type V = StepView;

    open spec fn view(&self) -> StepView {
        StepView { effect: self.effect@, next: self.next@ }
    }
}

/// The steps that a list of steps stands for.
pub open spec fn steps_of(steps: Seq<Step>) -> Seq<StepView> {
    Seq::new(steps.len(), |i: int| steps[i]@)
}

/// The transfer of `amount` of `token` from `from` to `to`: out of the pools'
/// own balance where `from` is the account that the pools run under, against
/// an allowance of `from` otherwise.
pub open spec fn transfer_between(
    current: Seq<char>,
    token: Seq<char>,
    from: Seq<char>,
    to: Seq<char>,
    amount: Balance,
) -> EffectView {
    if from == current {
        EffectView::Transfer { token, to, amount: amount as nat }
    } else {
        EffectView::TransferFrom { token, owner: from, to, amount: amount as nat }
    }
}

/// Describes the transfer of `amount` of `token` from `from` to `to`.
pub fn schedule_transfer(
    current: &AccountId,
    token: AccountId,
    from: AccountId,
    to: AccountId,
    amount: Balance,
) -> (e: Effect)
    ensures
        e@ == transfer_between(current@, token@, from@, to@, amount),
{
    if from == *current {
        Effect::Transfer { token, to, amount }
    } else {
        Effect::TransferFrom { token, owner: from, to, amount }
    }
}

/// The step that pays `amount` of the native asset to `to`, to be tried
/// again if it fails.
pub open spec fn pay_near_step(to: Seq<char>, amount: Balance) -> StepView {
    StepView {
        effect: EffectView::PayNear { to, amount: amount as nat },
        next: PendingView::Retry,
    }
}

/// The step that sends `amount` of `token` from the pools' own balance to
/// `to`, to be tried again if it fails.
pub open spec fn send_tokens_step(token: Seq<char>, to: Seq<char>, amount: Balance) -> StepView {
    StepView {
        effect: EffectView::Transfer { token, to, amount: amount as nat },
        next: PendingView::Retry,
    }
}

/// The step that pulls `amount` of `token` from `owner` into the pools' own
/// balance, with what is to follow.
pub open spec fn pull_tokens_step(
    current: Seq<char>,
    token: Seq<char>,
    owner: Seq<char>,
    amount: Balance,
    next: PendingView,
) -> StepView {
    StepView {
        effect: EffectView::TransferFrom { token, owner, to: current, amount: amount as nat },
        next,
    }
}

/// The payment of what is left of a native amount, if anything is.
pub open spec fn near_change(to: Seq<char>, amount: Balance) -> Seq<StepView> {
    if amount > 0 {
        seq![pay_near_step(to, amount)]
    } else {
        Seq::<StepView>::empty()
    }
}

/// The return of reserve tokens, if there are any to return.
pub open spec fn token_change(token: Seq<char>, to: Seq<char>, amount: Balance) -> Seq<StepView> {
    if amount > 0 {
        seq![send_tokens_step(token, to, amount)]
    } else {
        Seq::<StepView>::empty()
    }
}

/// A step that pays `amount` of the native asset to `to`.
pub fn pay_near(to: AccountId, amount: Balance) -> (s: Step)
    ensures
        s@ == pay_near_step(to@, amount),
{
    Step { effect: Effect::PayNear { to, amount }, next: Pending::Retry }
}

/// A step that sends `amount` of `token` from the pools' own balance to `to`.
pub fn send_tokens(token: AccountId, to: AccountId, amount: Balance) -> (s: Step)
    ensures
        s@ == send_tokens_step(token@, to@, amount),
{
    Step { effect: Effect::Transfer { token, to, amount }, next: Pending::Retry }
}

/// A step that pulls `amount` of `token` from `owner` into the pools' own
/// balance, with what is to follow.
pub fn pull_tokens(
    current: &AccountId,
    token: AccountId,
    owner: AccountId,
    amount: Balance,
    next: Pending,
) -> (s: Step)
    ensures
        s@ == pull_tokens_step(current@, token@, owner@, amount, next@),
{
    Step { effect: Effect::TransferFrom { token, owner, to: current.clone(), amount }, next }
}

/// The effect once more, to be tried again if it fails.
pub fn repeat_step(effect: &Effect) -> (s: Step)
    ensures
        s@ == (StepView { effect: effect@, next: PendingView::Retry }),
{
    let again = match effect {
        Effect::PayNear { to, amount } => Effect::PayNear { to: to.clone(), amount: *amount },
        Effect::Transfer { token, to, amount } => Effect::Transfer {
            token: token.clone(),
            to: to.clone(),
            amount: *amount,
        },
        Effect::TransferFrom { token, owner, to, amount } => Effect::TransferFrom {
            token: token.clone(),
            owner: owner.clone(),
            to: to.clone(),
            amount: *amount,
        },
    };
    Step { effect: again, next: Pending::Retry }
}

/// No steps.
pub fn no_steps() -> (r: Vec<Step>)
    ensures
        steps_of(r@) == Seq::<StepView>::empty(),
{
    let r: Vec<Step> = Vec::new();
    assert(steps_of(r@) =~= Seq::<StepView>::empty());
    r
}

/// One step.
pub fn one_step(s: Step) -> (r: Vec<Step>)
    ensures
        steps_of(r@) == seq![s@],
{
    let mut r: Vec<Step> = Vec::new();
    r.push(s);
    assert(steps_of(r@) =~= seq![s@]);
    r
}

/// The steps of `r` followed by `s`.
pub fn and_step(r: Vec<Step>, s: Step) -> (out: Vec<Step>)
    ensures
        steps_of(out@) == steps_of(r@).push(s@),
{
    let mut out = r;
    out.push(s);
    assert(steps_of(out@) =~= steps_of(r@).push(s@));
    out
}

/// The steps of `r`, followed by the payment of `amount` of the native asset
/// to `to` if `amount` is not zero.
pub fn and_near_change(r: Vec<Step>, to: &AccountId, amount: Balance) -> (out: Vec<Step>)
    ensures
        steps_of(out@) == steps_of(r@) + near_change(to@, amount),
{
    if amount > 0 {
        let out = and_step(r, pay_near(to.clone(), amount));
        assert(steps_of(out@) =~= steps_of(r@) + near_change(to@, amount));
        out
    } else {
        assert(steps_of(r@) =~= steps_of(r@) + near_change(to@, amount));
        r
    }
}

/// The steps of `r`, followed by the return of `amount` of `token` to `to`
/// if `amount` is not zero.
pub fn and_token_change(r: Vec<Step>, token: &AccountId, to: &AccountId, amount: Balance) -> (out:
    Vec<Step>)
    ensures
        steps_of(out@) == steps_of(r@) + token_change(token@, to@, amount),
{
    if amount > 0 {
        let out = and_step(r, send_tokens(token.clone(), to.clone(), amount));
        assert(steps_of(out@) =~= steps_of(r@) + token_change(token@, to@, amount));
        out
    } else {
        assert(steps_of(r@) =~= steps_of(r@) + token_change(token@, to@, amount));
        r
    }
}

} // verus!

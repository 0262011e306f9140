//! The registry of pools, one for each reserve token, with the accounts that
//! administer it.
//!
//! Every operation is a step of a state machine: it takes what the host knows
//! of the invocation, changes the registry, and returns the effects that the
//! host has to carry out. A failure changes nothing.

use vstd::prelude::*;
use crate::account::{is_valid_account, valid_account_id};
use crate::effects::{steps_of, Invocation, Step, StepView};
use crate::errors::ClpError;
use crate::pool::{AccountId, Balance, Pool, PoolInfo, PoolView};
use crate::pricing::Fee;

pub mod callbacks;
pub mod liquidity;
pub mod prices;
pub mod swaps;

verus! {

/// The pools of a registry: reserve tokens with their pools, in the order in
/// which the pools were created.
pub type Pools = Seq<(Seq<char>, PoolView)>;

/// No token has two pools.
pub open spec fn distinct_tokens(pools: Pools) -> bool {
    forall|i: int, j: int| 0 <= i < j < pools.len() ==> pools[i].0 != pools[j].0
}

/// The token has a pool.
pub open spec fn listed(pools: Pools, token: Seq<char>) -> bool {
    exists|i: int| 0 <= i < pools.len() && pools[i].0 == token
}

/// The place of the token's pool.
pub open spec fn place_of(pools: Pools, token: Seq<char>) -> int {
    choose|i: int| 0 <= i < pools.len() && pools[i].0 == token
}

/// The token's pool.
pub open spec fn pool_of(pools: Pools, token: Seq<char>) -> PoolView {
    pools[place_of(pools, token)].1
}

/// The tokens that have a pool, in order.
pub open spec fn tokens_of(pools: Pools) -> Seq<Seq<char>> {
    Seq::new(pools.len(), |i: int| pools[i].0)
}

/// Every pool of `after` stands under the token it stood under in `before`,
/// with a product of reserves that is no smaller.
pub open spec fn no_product_fell(before: Pools, after: Pools) -> bool {
    &&& after.len() == before.len()
    &&& forall|i: int|
        0 <= i < before.len() ==> (#[trigger] after[i]).0 == before[i].0 && after[i].1.product()
            >= before[i].1.product()
}

/// In `after` the token's pool is `p`, and every other token has the pool,
/// or the lack of one, that it had in `before`.
pub open spec fn pool_became(before: Pools, after: Pools, token: Seq<char>, p: PoolView) -> bool {
    &&& listed(after, token)
    &&& pool_of(after, token) == p
    &&& forall|other: Seq<char>|
        other != token ==> #[trigger] listed(after, other) == listed(before, other)
    &&& forall|other: Seq<char>|
        other != token && listed(before, other) ==> #[trigger] pool_of(after, other) == pool_of(
            before,
            other,
        )
}

/// The registry as contracts speak of it.
pub struct ClpView {
    pub owner: Seq<char>,
    pub fee_dst: Seq<char>,
    pub fee: Fee,
    pub pools: Pools,
}

impl ClpView {
    /// What holds of every registry: the fee is a proper fraction, no token
    /// has two pools, and every pool satisfies its invariant.
    pub open spec fn wf(self) -> bool {
        &&& self.fee.wf()
        &&& distinct_tokens(self.pools)
        &&& forall|i: int| 0 <= i < self.pools.len() ==> (#[trigger] self.pools[i]).1.wf()
    }

    /// The registry with the token's pool replaced.
    pub open spec fn with_pool(self, token: Seq<char>, p: PoolView) -> ClpView {
        ClpView {
            owner: self.owner,
            fee_dst: self.fee_dst,
            fee: self.fee,
            pools: self.pools.update(place_of(self.pools, token), (token, p)),
        }
    }

    /// The registry with an empty pool for the token added at the end.
    pub open spec fn with_new_pool(self, token: Seq<char>, p: PoolView) -> ClpView {
        ClpView {
            owner: self.owner,
            fee_dst: self.fee_dst,
            fee: self.fee,
            pools: self.pools.push((token, p)),
        }
    }
}

/// What an operation is to do: the registry it leaves and the steps it
/// returns, or the failure.
pub type Outcome = Result<(ClpView, Seq<StepView>), ClpError>;

/// The operation did what `model` says: on success it returned those steps
/// and left that registry, on failure it returned that error and left the
/// registry as it was.
pub open spec fn agrees(
    r: Result<Vec<Step>, ClpError>,
    before: ClpView,
    after: ClpView,
    model: Outcome,
) -> bool {
    match model {
        Ok((state, steps)) => r is Ok && steps_of(r->Ok_0@) == steps && after == state,
        Err(e) => r is Err && r->Err_0 == e && after == before,
    }
}

/// Where tokens are distinct, a token's pool stands at one place only.
pub proof fn lemma_place_unique(pools: Pools, token: Seq<char>, i: int)
    requires
        distinct_tokens(pools),
        0 <= i < pools.len(),
        pools[i].0 == token,
    ensures
        listed(pools, token),
        place_of(pools, token) == i,
        pool_of(pools, token) == pools[i].1,
{
    let p = place_of(pools, token);
    if p < i {
        assert(pools[p].0 != pools[i].0);
    } else if i < p {
        assert(pools[i].0 != pools[p].0);
    }
}

/// Replacing the pool of a listed token by one that satisfies the pool
/// invariant keeps the registry's invariant, and touches no other pool.
pub proof fn lemma_with_pool(c: ClpView, token: Seq<char>, p: PoolView)
    requires
        c.wf(),
        listed(c.pools, token),
        p.wf(),
    ensures
        c.with_pool(token, p).wf(),
        listed(c.with_pool(token, p).pools, token),
        pool_of(c.with_pool(token, p).pools, token) == p,
        place_of(c.with_pool(token, p).pools, token) == place_of(c.pools, token),
        tokens_of(c.with_pool(token, p).pools) == tokens_of(c.pools),
        pool_became(c.pools, c.with_pool(token, p).pools, token, p),
        p.product() >= pool_of(c.pools, token).product() ==> no_product_fell(
            c.pools,
            c.with_pool(token, p).pools,
        ),
{
    let i = place_of(c.pools, token);
    let after = c.with_pool(token, p).pools;
    lemma_replaced_pool_found(c, token, p);
    assert forall|k: int| 0 <= k < after.len() implies (#[trigger] after[k]).1.wf() by {
        if k != i {
            assert(c.pools[k].1.wf());
        }
    }
    lemma_place_unique(after, token, i);
    assert(tokens_of(after) =~= tokens_of(c.pools));
    if p.product() >= pool_of(c.pools, token).product() {
        assert forall|k: int| 0 <= k < c.pools.len() implies (#[trigger] after[k]).0
            == c.pools[k].0 && after[k].1.product() >= c.pools[k].1.product() by {}
    }
}

/// In every pool of a registry the shares of all accounts add up to the
/// pool's total, and no account holds more than that.
pub proof fn lemma_share_sum(c: ClpView, token: Seq<char>, account: Seq<char>)
    requires
        c.wf(),
        listed(c.pools, token),
    ensures
        pool_of(c.pools, token).wf(),
        crate::ledger::total(pool_of(c.pools, token).shares) == pool_of(c.pools, token).total_shares,
        pool_of(c.pools, token).share_of(account) <= pool_of(c.pools, token).total_shares,
{
    let i = place_of(c.pools, token);
    assert(c.pools[i].1.wf());
    crate::ledger::lemma_balance_le_total(pool_of(c.pools, token).shares, account);
}

/// Looking a token up in a registry in which one pool was replaced finds the
/// new pool under that pool's token and the pool that was there under any
/// other. For use with `broadcast use`, where a proof follows a registry
/// through several operations.
pub broadcast proof fn lemma_replaced_pool_found(c: ClpView, token: Seq<char>, p: PoolView)
    requires
        distinct_tokens(c.pools),
        listed(c.pools, token),
    ensures
        pool_became(c.pools, (#[trigger] c.with_pool(token, p)).pools, token, p),
        distinct_tokens(c.with_pool(token, p).pools),
{
    let i = place_of(c.pools, token);
    let after = c.with_pool(token, p).pools;
    assert(distinct_tokens(after)) by {
        assert forall|a: int, b: int| 0 <= a < b < after.len() implies after[a].0 != after[b].0 by {
            assert(c.pools[a].0 != c.pools[b].0);
        }
    }
    lemma_place_unique(after, token, i);
    assert forall|other: Seq<char>| other != token implies #[trigger] listed(after, other)
        == listed(c.pools, other) by {
        if listed(c.pools, other) {
            let k = place_of(c.pools, other);
            assert(after[k] == c.pools[k]);
            lemma_place_unique(after, other, k);
        }
        if listed(after, other) {
            let k = place_of(after, other);
            assert(after[k] == c.pools[k]);
            lemma_place_unique(c.pools, other, k);
        }
    }
    assert forall|other: Seq<char>| other != token && listed(c.pools, other) implies #[trigger] pool_of(
        after,
        other,
    ) == pool_of(c.pools, other) by {
        let k = place_of(c.pools, other);
        assert(after[k] == c.pools[k]);
        lemma_place_unique(after, other, k);
    }
}

/// Adding a pool for a token that has none keeps the registry's invariant,
/// and touches no other pool.
pub proof fn lemma_with_new_pool(c: ClpView, token: Seq<char>, p: PoolView)
    requires
        c.wf(),
        !listed(c.pools, token),
        p.wf(),
    ensures
        c.with_new_pool(token, p).wf(),
        pool_became(c.pools, c.with_new_pool(token, p).pools, token, p),
        tokens_of(c.with_new_pool(token, p).pools) == tokens_of(c.pools).push(token),
{
    let after = c.with_new_pool(token, p).pools;
    assert(distinct_tokens(after)) by {
        assert forall|a: int, b: int| 0 <= a < b < after.len() implies after[a].0 != after[b].0 by {
            if b == c.pools.len() {
                assert(c.pools[a].0 != token);
            } else {
                assert(c.pools[a].0 != c.pools[b].0);
            }
        }
    }
    assert forall|k: int| 0 <= k < after.len() implies (#[trigger] after[k]).1.wf() by {
        if k < c.pools.len() {
            assert(c.pools[k].1.wf());
        }
    }
    lemma_place_unique(after, token, c.pools.len() as int);
    assert(tokens_of(after) =~= tokens_of(c.pools).push(token));
    assert forall|other: Seq<char>| other != token implies #[trigger] listed(after, other)
        == listed(c.pools, other) by {
        if listed(c.pools, other) {
            let k = place_of(c.pools, other);
            assert(after[k] == c.pools[k]);
            lemma_place_unique(after, other, k);
        }
        if listed(after, other) {
            let k = place_of(after, other);
            assert(after[k] == c.pools[k]);
            lemma_place_unique(c.pools, other, k);
        }
    }
    assert forall|other: Seq<char>| other != token && listed(c.pools, other) implies #[trigger] pool_of(
        after,
        other,
    ) == pool_of(c.pools, other) by {
        let k = place_of(c.pools, other);
        assert(after[k] == c.pools[k]);
        lemma_place_unique(after, other, k);
    }
}

/// A product that did not fall in two successive changes did not fall over
/// both.
pub proof fn lemma_no_product_fell_trans(a: Pools, b: Pools, c: Pools)
    requires
        no_product_fell(a, b),
        no_product_fell(b, c),
    ensures
        no_product_fell(a, c),
{
    assert forall|i: int| 0 <= i < a.len() implies (#[trigger] c[i]).0 == a[i].0
        && c[i].1.product() >= a[i].1.product() by {
        assert(b[i].0 == a[i].0);
    }
}

/// The pool that a token gets when its pool is opened: empty, with the
/// token's bytes as the prefix of its share ledger.
pub open spec fn fresh_pool(token: Seq<char>) -> PoolView {
    PoolView {
        near_bal: 0,
        token_bal: 0,
        total_shares: 0,
        shares: Seq::<(Seq<char>, nat)>::empty(),
        pool_id: vstd::utf8::encode_utf8(token),
    }
}

/// The bytes of the token's identifier.
pub fn pool_prefix(token: &AccountId) -> (r: Vec<u8>)
    ensures
        r@ == vstd::utf8::encode_utf8(token@),
{
    vstd::slice::slice_to_vec(token.as_str().as_bytes())
}

/// A pool with the token it trades.
struct PoolEntry {
    token: AccountId,
    pool: Pool,
}

/// The registry of pools and its administration.
pub struct NearCLP {
    /// The account that protocol fees are meant for. No fee is paid out to
    /// it: the fee stays in the pool and raises the product of its reserves.
    pub fee_dst: AccountId,
    /// The account that may name a new owner and a new fee destination.
    pub owner: AccountId,
    fee: Fee,
    pools: Vec<PoolEntry>,
}

impl View for NearCLP {
    type V = ClpView;

    closed spec fn view(&self) -> ClpView {
        ClpView {
            owner: self.owner@,
            fee_dst: self.fee_dst@,
            fee: self.fee,
            pools: Seq::new(
                self.pools@.len(),
                |i: int| (self.pools@[i].token@, self.pools@[i].pool@),
            ),
        }
    }
}

impl NearCLP {
    /// The registry's invariant.
    pub open spec fn wf(&self) -> bool {
        self@.wf()
    }

    /// The account that administers the registry.
    pub fn owner(&self) -> (r: &AccountId)
        ensures
            r@ == self@.owner,
    {
        &self.owner
    }

    /// The account that protocol fees are meant for.
    pub fn fee_dst(&self) -> (r: &AccountId)
        ensures
            r@ == self@.fee_dst,
    {
        &self.fee_dst
    }

    /// A registry without pools that `owner` administers, with the standard
    /// fee of three parts in a thousand. Fails with `BadAccount` if `owner`
    /// is not a well-formed account identifier.
    pub fn new(owner: AccountId) -> (r: Result<NearCLP, ClpError>)
        ensures
            match r {
                Ok(c) => valid_account_id(owner@) && c.wf() && c@ == (ClpView {
                    owner: owner@,
                    fee_dst: owner@,
                    fee: Fee { num: 3, den: 1000 },
                    pools: Seq::<(Seq<char>, PoolView)>::empty(),
                }),
                Err(e) => !valid_account_id(owner@) && e == ClpError::BadAccount,
            },
    {
        Self::with_fee(owner, Fee::standard())
    }

    /// A registry without pools that `owner` administers and that charges
    /// `fee` on every trade.
    pub fn with_fee(owner: AccountId, fee: Fee) -> (r: Result<NearCLP, ClpError>)
        requires
            fee.wf(),
        ensures
            match r {
                Ok(c) => valid_account_id(owner@) && c.wf() && c@ == (ClpView {
                    owner: owner@,
                    fee_dst: owner@,
                    fee,
                    pools: Seq::<(Seq<char>, PoolView)>::empty(),
                }),
                Err(e) => !valid_account_id(owner@) && e == ClpError::BadAccount,
            },
    {
        if !is_valid_account(&owner) {
            return Err(ClpError::BadAccount);
        }
        let c = NearCLP { fee_dst: owner.clone(), owner, fee, pools: Vec::new() };
        assert(c@.pools =~= Seq::<(Seq<char>, PoolView)>::empty());
        Ok(c)
    }

    /// The fee charged on every trade.
    pub fn fee(&self) -> (f: Fee)
        ensures
            f == self@.fee,
    {
        self.fee
    }

    /// Names the account that protocol fees are meant for. Only the owner
    /// may, and only a well-formed account can be named.
    pub fn set_fee_dst(&mut self, inv: &Invocation, fee_dst: AccountId) -> (r: Result<
        (),
        ClpError,
    >)
        ensures
            r is Ok <==> inv.predecessor@ == old(self)@.owner && valid_account_id(fee_dst@),
            r is Ok ==> final(self)@ == (ClpView { fee_dst: fee_dst@, ..old(self)@ }),
            r is Err ==> final(self)@ == old(self)@ && r->Err_0 == (if inv.predecessor@ != old(
                self,
            )@.owner {
                ClpError::Unauthorized
            } else {
                ClpError::BadAccount
            }),
            old(self).wf() ==> final(self).wf(),
    {
        if inv.predecessor != self.owner {
            return Err(ClpError::Unauthorized);
        }
        if !is_valid_account(&fee_dst) {
            return Err(ClpError::BadAccount);
        }
        self.fee_dst = fee_dst;
        Ok(())
    }

    /// Hands the registry to a new owner. Only the owner may, and only a
    /// well-formed account can be named.
    pub fn change_owner(&mut self, inv: &Invocation, new_owner: AccountId) -> (r: Result<
        (),
        ClpError,
    >)
        ensures
            r is Ok <==> inv.predecessor@ == old(self)@.owner && valid_account_id(new_owner@),
            r is Ok ==> final(self)@ == (ClpView { owner: new_owner@, ..old(self)@ }),
            r is Err ==> final(self)@ == old(self)@ && r->Err_0 == (if inv.predecessor@ != old(
                self,
            )@.owner {
                ClpError::Unauthorized
            } else {
                ClpError::BadAccount
            }),
            old(self).wf() ==> final(self).wf(),
    {
        if inv.predecessor != self.owner {
            return Err(ClpError::Unauthorized);
        }
        if !is_valid_account(&new_owner) {
            return Err(ClpError::BadAccount);
        }
        self.owner = new_owner;
        Ok(())
    }

    /// The place of the token's pool.
    fn find(&self, token: &AccountId) -> (r: Option<usize>)
        requires
            self.wf(),
        ensures
            match r {
                Some(i) => i < self@.pools.len() && i < self.pools@.len() && self@.pools[i as int].0
                    == token@ && listed(self@.pools, token@) && place_of(self@.pools, token@) == i
                    && pool_of(self@.pools, token@) == self.pools@[i as int].pool@
                    && self.pools@[i as int].pool.wf(),
                None => !listed(self@.pools, token@),
            },
    {
        let mut i: usize = 0;
        while i < self.pools.len()
            invariant
                self.wf(),
                i <= self.pools.len(),
                self@.pools.len() == self.pools@.len(),
                forall|j: int| 0 <= j < i ==> self@.pools[j].0 != token@,
            decreases self.pools.len() - i,
        {
            if self.pools[i].token == *token {
                proof {
                    lemma_place_unique(self@.pools, token@, i as int);
                    assert(self@.pools[i as int].1.wf());
                }
                return Some(i);
            }
            i = i + 1;
        }
        None
    }

    /// Opens an empty pool for `token`. Anyone may; a token that has a pool
    /// cannot get another.
    pub fn create_pool(&mut self, token: AccountId) -> (r: Result<(), ClpError>)
        requires
            old(self).wf(),
        ensures
            final(self).wf(),
            r is Ok <==> !listed(old(self)@.pools, token@),
            match r {
                Ok(_) => final(self)@ == old(self)@.with_new_pool(token@, fresh_pool(token@))
                    && pool_became(
                    old(self)@.pools,
                    final(self)@.pools,
                    token@,
                    fresh_pool(token@),
                ),
                Err(e) => e == ClpError::PoolExists && final(self)@ == old(self)@,
            },
    {
        if self.find(&token).is_some() {
            return Err(ClpError::PoolExists);
        }
        let pool = Pool::new(pool_prefix(&token));
        let ghost before = self@;
        let ghost added = pool@;
        self.pools.push(PoolEntry { token, pool });
        proof {
            lemma_with_new_pool(before, token@, added);
            assert(self@.pools =~= before.pools.push((token@, added)));
        }
        Ok(())
    }
}

/// A registry in which one pool has changed is the registry it was, with
/// that pool replaced.
proof fn lemma_pool_replaced(before: NearCLP, after: NearCLP, i: int)
    requires
        before.wf(),
        0 <= i < before.pools@.len(),
        after.pools@.len() == before.pools@.len(),
        forall|j: int| 0 <= j < before.pools@.len() && j != i ==> after.pools@[j] == before.pools@[j],
        after.pools@[i].token == before.pools@[i].token,
        after.owner == before.owner,
        after.fee_dst == before.fee_dst,
        after.fee == before.fee,
        after.pools@[i].pool@.wf(),
    ensures
        after@ == before@.with_pool(before.pools@[i].token@, after.pools@[i].pool@),
        after.wf(),
        pool_became(
            before@.pools,
            after@.pools,
            before.pools@[i].token@,
            after.pools@[i].pool@,
        ),
        listed(before@.pools, before.pools@[i].token@),
        place_of(before@.pools, before.pools@[i].token@) == i,
        after.pools@[i].pool@.product() >= before.pools@[i].pool@.product() ==> no_product_fell(
            before@.pools,
            after@.pools,
        ),
{
    let token = before.pools@[i].token@;
    lemma_place_unique(before@.pools, token, i);
    lemma_with_pool(before@, token, after.pools@[i].pool@);
    assert(after@.pools =~= before@.with_pool(token, after.pools@[i].pool@).pools);
}

impl NearCLP {
    /// The public figures of the token's pool, if it has one.
    pub fn pool_info(&self, token: &AccountId) -> (r: Option<PoolInfo>)
        requires
            self.wf(),
        ensures
            r == (if listed(self@.pools, token@) {
                Some(pool_of(self@.pools, token@).info())
            } else {
                None::<PoolInfo>
            }),
    {
        match self.find(token) {
            None => None,
            Some(i) => Some(self.pools[i].pool.pool_info()),
        }
    }

    /// The reserve tokens that have a pool, in the order in which the pools
    /// were opened.
    pub fn list_pools(&self) -> (r: Vec<AccountId>)
        ensures
            r@.len() == self@.pools.len(),
            forall|i: int| 0 <= i < r@.len() ==> (#[trigger] r@[i])@ == self@.pools[i].0,
            Seq::new(r@.len(), |i: int| r@[i]@) == tokens_of(self@.pools),
    {
        let mut out: Vec<AccountId> = Vec::new();
        let mut i: usize = 0;
        while i < self.pools.len()
            invariant
                i <= self.pools.len(),
                self@.pools.len() == self.pools@.len(),
                out@.len() == i,
                forall|j: int| 0 <= j < i ==> (#[trigger] out@[j])@ == self@.pools[j].0,
            decreases self.pools.len() - i,
        {
            out.push(self.pools[i].token.clone());
            i = i + 1;
        }
        assert(Seq::new(out@.len(), |i: int| out@[i]@) =~= tokens_of(self@.pools));
        out
    }

    /// The shares that `owner` holds in the token's pool.
    pub fn shares_balance_of(&self, token: AccountId, owner: AccountId) -> (r: Result<
        Balance,
        ClpError,
    >)
        requires
            self.wf(),
        ensures
            r == (if listed(self@.pools, token@) {
                Ok::<Balance, ClpError>(pool_of(self@.pools, token@).share_of(owner@) as u128)
            } else {
                Err::<Balance, ClpError>(ClpError::PoolMissing)
            }),
            r matches Ok(held) ==> held == pool_of(self@.pools, token@).share_of(owner@),
    {
        match self.find(&token) {
            None => Err(ClpError::PoolMissing),
            Some(i) => Ok(self.pools[i].pool.share_of(&owner)),
        }
    }

    /// A copy of the token's pool, if it has one.
    pub fn get_pool(&self, token: &AccountId) -> (r: Option<Pool>)
        requires
            self.wf(),
        ensures
            match r {
                Some(p) => listed(self@.pools, token@) && p.wf() && p@ == pool_of(
                    self@.pools,
                    token@,
                ),
                None => !listed(self@.pools, token@),
            },
    {
        match self.find(token) {
            None => None,
            Some(i) => {
                let p = &self.pools[i].pool;
                let held = p.holdings();
                let info = p.pool_info();
                let id = pool_prefix_of(p);
                proof {
                    assert(Pool::parts_view(id@, info, held@) =~= p@);
                }
                Pool::from_parts(id, info, held)
            },
        }
    }

    /// Puts `pool` in the place of the token's pool, or opens it as the
    /// token's pool if the token has none.
    pub fn set_pool(&mut self, token: &AccountId, pool: Pool)
        requires
            old(self).wf(),
            pool.wf(),
        ensures
            final(self).wf(),
            pool_became(old(self)@.pools, final(self)@.pools, token@, pool@),
            final(self)@ == (if listed(old(self)@.pools, token@) {
                old(self)@.with_pool(token@, pool@)
            } else {
                old(self)@.with_new_pool(token@, pool@)
            }),
    {
        let ghost before = self@;
        let ghost added = pool@;
        match self.find(token) {
            Some(i) => {
                proof {
                    lemma_with_pool(self@, token@, pool@);
                }
                self.pools.set(i, PoolEntry { token: token.clone(), pool });
                assert(self@.pools =~= before.with_pool(token@, added).pools);
            },
            None => {
                self.pools.push(PoolEntry { token: token.clone(), pool });
                proof {
                    lemma_with_new_pool(before, token@, added);
                    assert(self@.pools =~= before.pools.push((token@, added)));
                }
            },
        }
    }
}

/// A copy of the pool's ledger prefix.
fn pool_prefix_of(p: &Pool) -> (r: Vec<u8>)
    ensures
        r@ == p@.pool_id,
{
    vstd::slice::slice_to_vec(p.pool_id().as_slice())
}

} // verus!

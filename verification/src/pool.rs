//! One liquidity pool: the reserves of the native asset and of one reserve
//! token, and the shares that its liquidity providers hold.

use vstd::prelude::*;
use crate::ledger::{balance_of, distinct_accounts, holdings_of, total, Holdings, Ledger};

pub mod liquidity;
pub mod swap;

verus! {

/// An account identifier of the host ledger.
pub type AccountId = String;

/// An amount of the native asset, of a reserve token or of shares.
pub type Balance = u128;

/// The public figures of a pool. Shares are counted with the precision of
/// the native asset, and reported as they are held.
#[derive(Clone, Copy, Debug, PartialEq, Eq, Structural)]
pub struct PoolInfo {
    pub near_bal: Balance,
    pub token_bal: Balance,
    pub total_shares: Balance,
}

/// The state of a pool as contracts speak of it.
pub struct PoolView {
    pub near_bal: nat,
    pub token_bal: nat,
    pub total_shares: nat,
    pub shares: Holdings,
    pub pool_id: Seq<u8>,
}

impl PoolView {
    /// Nothing has been deposited, or nothing is left.
    pub open spec fn is_empty(self) -> bool {
        self.near_bal == 0 && self.token_bal == 0 && self.total_shares == 0
    }

    /// Both reserves are funded and shares are outstanding.
    pub open spec fn is_seeded(self) -> bool {
        self.near_bal > 0 && self.token_bal > 0 && self.total_shares > 0
    }

    /// What holds of every pool: the shares of all accounts add up to the
    /// total, no account is listed twice, the pool is either empty or
    /// seeded, and every figure fits 128 bits.
    pub open spec fn wf(self) -> bool {
        &&& distinct_accounts(self.shares)
        &&& total(self.shares) == self.total_shares
        &&& self.is_empty() || self.is_seeded()
        &&& self.near_bal <= u128::MAX
        &&& self.token_bal <= u128::MAX
        &&& self.total_shares <= u128::MAX
    }

    /// The product of the two reserves.
    pub open spec fn product(self) -> nat {
        self.near_bal * self.token_bal
    }

    /// The shares that the account holds.
    pub open spec fn share_of(self, account: Seq<char>) -> nat {
        balance_of(self.shares, account)
    }

    /// The public figures.
    pub open spec fn info(self) -> PoolInfo {
        PoolInfo {
            near_bal: self.near_bal as u128,
            token_bal: self.token_bal as u128,
            total_shares: self.total_shares as u128,
        }
    }
}

/// A pool of the native asset and one reserve token.
pub struct Pool {
    near_bal: Balance,
    token_bal: Balance,
    shares: Ledger,
    total_shares: Balance,
    pool_id: Vec<u8>,
}

impl View for Pool {
    type V = PoolView;

    closed spec fn view(&self) -> PoolView {
        PoolView {
            near_bal: self.near_bal as nat,
            token_bal: self.token_bal as nat,
            total_shares: self.total_shares as nat,
            shares: self.shares@,
            pool_id: self.pool_id@,
        }
    }
}

impl Pool {
    /// The pool's invariant.
    pub open spec fn wf(&self) -> bool {
        self@.wf()
    }

    /// An empty pool. `pool_id` is the prefix under which the pool's share
    /// ledger is kept apart from those of other pools.
    pub fn new(pool_id: Vec<u8>) -> (p: Pool)
        ensures
            p.wf(),
            p@.is_empty(),
            p@.shares == Seq::<(Seq<char>, nat)>::empty(),
            p@.pool_id == pool_id@,
    {
        Pool { near_bal: 0, token_bal: 0, shares: Ledger::new(), total_shares: 0, pool_id }
    }

    /// The pool with these figures and holdings, if they satisfy the pool's
    /// invariant.
    pub fn from_parts(
        pool_id: Vec<u8>,
        info: PoolInfo,
        holdings: Vec<(String, Balance)>,
    ) -> (r: Option<Pool>)
        ensures
            match r {
                Some(p) => p.wf() && p@ == Self::parts_view(pool_id@, info, holdings@),
                None => !Self::parts_view(pool_id@, info, holdings@).wf(),
            },
    {
        let shares = match Ledger::from_entries(holdings) {
            Some(l) => l,
            None => {
                return None;
            },
        };
        match shares.sum() {
            Some(s) => {
                if s != info.total_shares {
                    return None;
                }
            },
            None => {
                return None;
            },
        }
        let empty = info.near_bal == 0 && info.token_bal == 0 && info.total_shares == 0;
        let seeded = info.near_bal > 0 && info.token_bal > 0 && info.total_shares > 0;
        if !(empty || seeded) {
            return None;
        }
        Some(
            Pool {
                near_bal: info.near_bal,
                token_bal: info.token_bal,
                shares,
                total_shares: info.total_shares,
                pool_id,
            },
        )
    }

    /// The state that figures and holdings describe.
    pub open spec fn parts_view(
        pool_id: Seq<u8>,
        info: PoolInfo,
        holdings: Seq<(String, Balance)>,
    ) -> PoolView {
        PoolView {
            near_bal: info.near_bal as nat,
            token_bal: info.token_bal as nat,
            total_shares: info.total_shares as nat,
            shares: holdings_of(holdings),
            pool_id,
        }
    }

    /// The public figures of the pool.
    pub fn pool_info(&self) -> (info: PoolInfo)
        ensures
            info == self@.info(),
            info.near_bal == self@.near_bal,
            info.token_bal == self@.token_bal,
            info.total_shares == self@.total_shares,
    {
        PoolInfo {
            near_bal: self.near_bal,
            token_bal: self.token_bal,
            total_shares: self.total_shares,
        }
    }

    /// The shares that the account holds in this pool; nothing for an
    /// account that never held any.
    pub fn share_of(&self, account: &String) -> (r: Balance)
        requires
            self.wf(),
        ensures
            r == self@.share_of(account@),
    {
        self.shares.get(account)
    }

    /// The holdings, in the order in which the accounts first appeared.
    pub fn holdings(&self) -> (r: Vec<(String, Balance)>)
        ensures
            holdings_of(r@) == self@.shares,
    {
        self.shares.entries()
    }

    /// The prefix under which the pool's share ledger is stored.
    pub fn pool_id(&self) -> (r: &Vec<u8>)
        ensures
            r@ == self@.pool_id,
    {
        &self.pool_id
    }
}

} // verus!

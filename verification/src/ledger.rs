//! The share ledger of one pool: which account holds how many shares.
//!
//! The ledger is a list of holdings in the order in which the accounts first
//! appeared, with no account listed twice. An account that is not listed
//! holds nothing.

use vstd::prelude::*;

verus! {

/// What a ledger holds: accounts with their shares, in order of appearance.
pub type Holdings = Seq<(Seq<char>, nat)>;

/// No account is listed twice.
pub open spec fn distinct_accounts(h: Holdings) -> bool {
    forall|i: int, j: int| 0 <= i < j < h.len() ==> h[i].0 != h[j].0
}

/// The account is listed.
pub open spec fn holds(h: Holdings, account: Seq<char>) -> bool {
    exists|i: int| 0 <= i < h.len() && h[i].0 == account
}

/// A place at which the account is listed, if it is.
pub open spec fn position_of(h: Holdings, account: Seq<char>) -> int {
    choose|i: int| 0 <= i < h.len() && h[i].0 == account
}

/// The shares of an account; nothing for one that is not listed.
pub open spec fn balance_of(h: Holdings, account: Seq<char>) -> nat {
    if holds(h, account) {
        h[position_of(h, account)].1
    } else {
        0
    }
}

/// The holdings after the account's shares are set to `amount`: its entry is
/// overwritten where it stands, or added at the end.
pub open spec fn with_balance(h: Holdings, account: Seq<char>, amount: nat) -> Holdings {
    if holds(h, account) {
        h.update(position_of(h, account), (account, amount))
    } else {
        h.push((account, amount))
    }
}

/// The sum of all shares listed.
pub open spec fn total(h: Holdings) -> nat
    decreases h.len(),
{
    if h.len() == 0 {
        0
    } else {
        total(h.drop_last()) + h.last().1
    }
}

/// The holdings that a list of entries stands for.
pub open spec fn holdings_of(entries: Seq<(String, u128)>) -> Holdings {
    Seq::new(entries.len(), |i: int| (entries[i].0@, entries[i].1 as nat))
}

/// Where accounts are distinct, an account is listed at one place only.
pub proof fn lemma_position_unique(h: Holdings, account: Seq<char>, i: int)
    requires
        distinct_accounts(h),
        0 <= i < h.len(),
        h[i].0 == account,
    ensures
        holds(h, account),
        position_of(h, account) == i,
        balance_of(h, account) == h[i].1,
{
    let p = position_of(h, account);
    if p < i {
        assert(h[p].0 != h[i].0);
    } else if i < p {
        assert(h[i].0 != h[p].0);
    }
}

/// Adding an entry at the end adds its shares to the sum.
pub proof fn lemma_total_push(h: Holdings, entry: (Seq<char>, nat))
    ensures
        total(h.push(entry)) == total(h) + entry.1,
{
    assert(h.push(entry).drop_last() =~= h);
}

/// Overwriting an entry changes the sum by the difference of the shares.
pub proof fn lemma_total_update(h: Holdings, i: int, entry: (Seq<char>, nat))
    requires
        0 <= i < h.len(),
    ensures
        total(h.update(i, entry)) + h[i].1 == total(h) + entry.1,
    decreases h.len(),
{
    let u = h.update(i, entry);
    if i == h.len() - 1 {
        assert(u.drop_last() =~= h.drop_last());
    } else {
        assert(u.drop_last() =~= h.drop_last().update(i, entry));
        lemma_total_update(h.drop_last(), i, entry);
    }
}

/// No entry holds more than the sum of all.
pub proof fn lemma_entry_le_total(h: Holdings, i: int)
    requires
        0 <= i < h.len(),
    ensures
        h[i].1 <= total(h),
    decreases h.len(),
{
    if i < h.len() - 1 {
        lemma_entry_le_total(h.drop_last(), i);
    }
}

/// No account holds more than the sum of all shares.
pub proof fn lemma_balance_le_total(h: Holdings, account: Seq<char>)
    ensures
        balance_of(h, account) <= total(h),
{
    if holds(h, account) {
        lemma_entry_le_total(h, position_of(h, account));
    }
}

/// Setting an account's shares keeps the accounts distinct, changes the sum
/// by the difference, and touches no other account.
pub proof fn lemma_with_balance(h: Holdings, account: Seq<char>, amount: nat)
    requires
        distinct_accounts(h),
    ensures
        distinct_accounts(with_balance(h, account, amount)),
        total(with_balance(h, account, amount)) + balance_of(h, account) == total(h) + amount,
        balance_of(with_balance(h, account, amount), account) == amount,
        forall|other: Seq<char>|
            other != account ==> #[trigger] balance_of(with_balance(h, account, amount), other)
                == balance_of(h, other),
{
    let w = with_balance(h, account, amount);
    if holds(h, account) {
        let p = position_of(h, account);
        lemma_total_update(h, p, (account, amount));
        assert(distinct_accounts(w)) by {
            assert forall|i: int, j: int| 0 <= i < j < w.len() implies w[i].0 != w[j].0 by {
                assert(h[i].0 != h[j].0);
            }
        }
        lemma_position_unique(w, account, p);
        assert forall|other: Seq<char>| other != account implies #[trigger] balance_of(w, other)
            == balance_of(h, other) by {
            lemma_other_account_kept(h, w, account, other);
        }
    } else {
        lemma_total_push(h, (account, amount));
        assert(distinct_accounts(w)) by {
            assert forall|i: int, j: int| 0 <= i < j < w.len() implies w[i].0 != w[j].0 by {
                if j == h.len() {
                    assert(h[i].0 != account);
                } else {
                    assert(h[i].0 != h[j].0);
                }
            }
        }
        lemma_position_unique(w, account, h.len() as int);
        assert forall|other: Seq<char>| other != account implies #[trigger] balance_of(w, other)
            == balance_of(h, other) by {
            lemma_other_account_kept(h, w, account, other);
        }
    }
}

/// Two lists that agree on every entry of an account list the same shares
/// for it.
proof fn lemma_other_account_kept(h: Holdings, w: Holdings, account: Seq<char>, other: Seq<char>)
    requires
        distinct_accounts(h),
        distinct_accounts(w),
        other != account,
        h.len() <= w.len(),
        forall|i: int| 0 <= i < h.len() && h[i].0 != account ==> w[i] == h[i],
        forall|i: int| 0 <= i < h.len() && h[i].0 == account ==> w[i].0 == account,
        forall|i: int| h.len() <= i < w.len() ==> w[i].0 == account,
    ensures
        balance_of(w, other) == balance_of(h, other),
{
    if holds(h, other) {
        let p = position_of(h, other);
        assert(w[p] == h[p]);
        lemma_position_unique(w, other, p);
    } else {
        if holds(w, other) {
            let q = position_of(w, other);
            if q < h.len() {
                if h[q].0 != account {
                    assert(w[q] == h[q]);
                    assert(holds(h, other));
                }
            }
        }
    }
}

/// The shares of every account of one pool.
pub struct Ledger {
    entries: Vec<(String, u128)>,
}

impl View for Ledger {
    type V = Holdings;

    closed spec fn view(&self) -> Holdings {
        holdings_of(self.entries@)
    }
}

impl Ledger {
    /// A ledger lists no account twice.
    pub open spec fn wf(&self) -> bool {
        distinct_accounts(self@)
    }

    /// A ledger with no holdings.
    pub fn new() -> (r: Ledger)
        ensures
            r@ == Seq::<(Seq<char>, nat)>::empty(),
            r.wf(),
    {
        let r = Ledger { entries: Vec::new() };
        assert(r@ =~= Seq::<(Seq<char>, nat)>::empty());
        r
    }

    /// The number of accounts listed.
    pub fn len(&self) -> (n: usize)
        ensures
            n == self@.len(),
    {
        self.entries.len()
    }

    /// The place at which the account is listed.
    fn find(&self, account: &String) -> (r: Option<usize>)
        requires
            self.wf(),
        ensures
            match r {
                Some(i) => i < self@.len() && self@[i as int].0 == account@ && holds(
                    self@,
                    account@,
                ) && position_of(self@, account@) == i,
                None => !holds(self@, account@),
            },
    {
        let mut i: usize = 0;
        while i < self.entries.len()
            invariant
                self.wf(),
                i <= self.entries.len(),
                self@.len() == self.entries.len(),
                forall|j: int| 0 <= j < i ==> self@[j].0 != account@,
            decreases self.entries.len() - i,
        {
            if self.entries[i].0 == *account {
                proof {
                    lemma_position_unique(self@, account@, i as int);
                }
                return Some(i);
            }
            i = i + 1;
        }
        None
    }

    /// The shares that the account holds; nothing if it is not listed.
    pub fn get(&self, account: &String) -> (r: u128)
        requires
            self.wf(),
        ensures
            r == balance_of(self@, account@),
    {
        match self.find(account) {
            Some(i) => self.entries[i].1,
            None => 0,
        }
    }

    /// Sets the shares of the account, listing it if it was not.
    pub fn set(&mut self, account: &String, amount: u128)
        requires
            old(self).wf(),
        ensures
            final(self).wf(),
            final(self)@ == with_balance(old(self)@, account@, amount as nat),
    {
        proof {
            lemma_with_balance(self@, account@, amount as nat);
        }
        match self.find(account) {
            Some(i) => {
                self.entries.set(i, (account.clone(), amount));
            },
            None => {
                self.entries.push((account.clone(), amount));
            },
        }
        assert(self@ =~= with_balance(old(self)@, account@, amount as nat));
    }

    /// The sum of all shares, unless it outgrows 128 bits.
    pub fn sum(&self) -> (r: Option<u128>)
        ensures
            match r {
                Some(s) => s == total(self@),
                None => total(self@) > u128::MAX,
            },
    {
        let mut acc: u128 = 0;
        let mut i: usize = 0;
        while i < self.entries.len()
            invariant
                i <= self.entries.len(),
                self@.len() == self.entries.len(),
                acc == total(self@.take(i as int)),
            decreases self.entries.len() - i,
        {
            proof {
                assert(self@.take(i + 1).drop_last() =~= self@.take(i as int));
                lemma_total_prefix(self@, i + 1);
            }
            match acc.checked_add(self.entries[i].1) {
                Some(s) => {
                    acc = s;
                },
                None => {
                    return None;
                },
            }
            i = i + 1;
        }
        assert(self@.take(i as int) =~= self@);
        Some(acc)
    }

    /// A copy of the entries, in order.
    pub fn entries(&self) -> (r: Vec<(String, u128)>)
        ensures
            holdings_of(r@) == self@,
    {
        let mut out: Vec<(String, u128)> = Vec::new();
        let mut i: usize = 0;
        while i < self.entries.len()
            invariant
                i <= self.entries.len(),
                out@.len() == i,
                forall|j: int|
                    0 <= j < i ==> out@[j].0@ == self.entries@[j].0@ && out@[j].1
                        == self.entries@[j].1,
            decreases self.entries.len() - i,
        {
            out.push((self.entries[i].0.clone(), self.entries[i].1));
            i = i + 1;
        }
        assert(holdings_of(out@) =~= self@);
        out
    }

    /// The ledger with these entries, if no account is listed twice.
    pub fn from_entries(entries: Vec<(String, u128)>) -> (r: Option<Ledger>)
        ensures
            match r {
                Some(l) => l.wf() && l@ == holdings_of(entries@),
                None => !distinct_accounts(holdings_of(entries@)),
            },
    {
        let ghost h = holdings_of(entries@);
        let mut j: usize = 0;
        while j < entries.len()
            invariant
                j <= entries.len(),
                h == holdings_of(entries@),
                forall|a: int, b: int| 0 <= a < b < j ==> h[a].0 != h[b].0,
            decreases entries.len() - j,
        {
            let mut i: usize = 0;
            while i < j
                invariant
                    i <= j < entries.len(),
                    h == holdings_of(entries@),
                    forall|a: int| 0 <= a < i ==> h[a].0 != h[j as int].0,
                decreases j - i,
            {
                if entries[i].0 == entries[j].0 {
                    assert(h[i as int].0 == h[j as int].0);
                    return None;
                }
                i = i + 1;
            }
            j = j + 1;
        }
        Some(Ledger { entries })
    }
}

/// The sum of a prefix is below the sum of the whole.
proof fn lemma_total_prefix(h: Holdings, n: int)
    requires
        0 <= n <= h.len(),
    ensures
        total(h.take(n)) <= total(h),
    decreases h.len() - n,
{
    if n < h.len() {
        assert(h.take(n + 1).drop_last() =~= h.take(n));
        lemma_total_prefix(h, n + 1);
    } else {
        assert(h.take(n) =~= h);
    }
}

} // verus!

use near_clp::ledger::Ledger;
use near_clp::pool::liquidity::{LiquidityAdded, LiquidityRemoved};
use near_clp::pool::swap::{quote_exact_in, quote_exact_out, Swapped};
use near_clp::{ClpError, Fee, Pool, PoolInfo};

fn seeded_pool() -> Pool {
    let mut p = Pool::new(b"token1_near".to_vec());
    p.add_liquidity(&"alice_near".to_string(), 3000, 500, 3000).unwrap();
    p
}

fn figures(p: &Pool) -> (u128, u128, u128) {
    let i = p.pool_info();
    (i.near_bal, i.token_bal, i.total_shares)
}

fn share_sum(p: &Pool) -> u128 {
    p.holdings().iter().map(|(_, amount)| *amount).sum()
}

#[test]
fn ledger_lists_accounts_once() {
    let mut l = Ledger::new();
    assert_eq!(l.len(), 0);
    assert_eq!(l.get(&"alice_near".to_string()), 0);
    l.set(&"alice_near".to_string(), 5);
    l.set(&"bob_near".to_string(), 7);
    l.set(&"alice_near".to_string(), 9);
    assert_eq!(l.len(), 2);
    assert_eq!(l.get(&"alice_near".to_string()), 9);
    assert_eq!(l.get(&"bob_near".to_string()), 7);
    assert_eq!(l.get(&"carol_near".to_string()), 0);
    assert_eq!(l.sum(), Some(16));
    assert_eq!(l.entries(), vec![("alice_near".to_string(), 9), ("bob_near".to_string(), 7)]);
    l.set(&"bob_near".to_string(), 0);
    assert_eq!(l.len(), 2);
    assert_eq!(l.get(&"bob_near".to_string()), 0);
    assert_eq!(l.sum(), Some(9));
}

#[test]
fn ledger_from_entries_rejects_repeats() {
    let ok = Ledger::from_entries(vec![("a_near".to_string(), 1), ("b_near".to_string(), 2)]);
    assert_eq!(ok.expect("distinct accounts").get(&"b_near".to_string()), 2);
    let twice = Ledger::from_entries(vec![
        ("a_near".to_string(), 1),
        ("b_near".to_string(), 2),
        ("a_near".to_string(), 3),
    ]);
    assert!(twice.is_none());
    assert_eq!(Ledger::from_entries(vec![]).expect("empty").len(), 0);
}

#[test]
fn ledger_sum_that_outgrows_its_width() {
    let l = Ledger::from_entries(vec![("a_near".to_string(), u128::MAX), ("b_near".to_string(), 1)])
        .unwrap();
    assert_eq!(l.sum(), None);
}

#[test]
fn new_pool_is_empty() {
    let p = Pool::new(vec![1, 2, 3]);
    assert_eq!(p.pool_info(), PoolInfo { near_bal: 0, token_bal: 0, total_shares: 0 });
    assert_eq!(p.pool_id(), &vec![1u8, 2, 3]);
    assert!(p.holdings().is_empty());
    assert_eq!(p.share_of(&"alice_near".to_string()), 0);
}

#[test]
fn shares_add_up_to_the_total() {
    let mut p = seeded_pool();
    assert_eq!(share_sum(&p), 3000);
    p.add_liquidity(&"bob_near".to_string(), 600, 101, 600).unwrap();
    p.add_liquidity(&"carol_near".to_string(), 1, 5, 0).unwrap();
    assert_eq!(share_sum(&p), p.pool_info().total_shares);
    p.swap_near_exact_in(100, 1, Fee::standard()).unwrap();
    p.withdraw_liquidity(&"bob_near".to_string(), 123, 1, 1).unwrap();
    assert_eq!(share_sum(&p), p.pool_info().total_shares);
    p.withdraw_liquidity(&"alice_near".to_string(), 3000, 1, 1).unwrap();
    assert_eq!(share_sum(&p), p.pool_info().total_shares);
    assert_eq!(p.share_of(&"alice_near".to_string()), 0);
    assert_eq!(p.share_of(&"bob_near".to_string()), 477);
}

#[test]
fn pool_deposit_and_withdrawal_report_what_moved() {
    let mut p = seeded_pool();
    let added = p.add_liquidity(&"bob_near".to_string(), 600, 101, 600).unwrap();
    assert_eq!(added, LiquidityAdded { near_in: 600, token_in: 101, shares_minted: 600 });
    assert_eq!(figures(&p), (3600, 601, 3600));
    let removed = p.withdraw_liquidity(&"bob_near".to_string(), 600, 1, 1).unwrap();
    assert_eq!(removed, LiquidityRemoved { shares: 600, near_out: 600, token_out: 100 });
    assert_eq!(figures(&p), (3000, 501, 3000));
    assert_eq!(p.revert_liquidity(&"bob_near".to_string(), added), Err(ClpError::InsufficientShares));
}

#[test]
fn pool_from_parts_checks_the_invariant() {
    let holdings = vec![("alice_near".to_string(), 2000u128), ("bob_near".to_string(), 1000)];
    let info = PoolInfo { near_bal: 3000, token_bal: 500, total_shares: 3000 };
    let p = Pool::from_parts(b"t".to_vec(), info, holdings.clone()).expect("a sound pool");
    assert_eq!(p.pool_info(), info);
    assert_eq!(p.holdings(), holdings);
    assert_eq!(p.share_of(&"bob_near".to_string()), 1000);

    let short = PoolInfo { near_bal: 3000, token_bal: 500, total_shares: 2999 };
    assert!(Pool::from_parts(b"t".to_vec(), short, holdings.clone()).is_none());
    let lopsided = PoolInfo { near_bal: 0, token_bal: 500, total_shares: 3000 };
    assert!(Pool::from_parts(b"t".to_vec(), lopsided, holdings.clone()).is_none());
    let twice = vec![("alice_near".to_string(), 2000u128), ("alice_near".to_string(), 1000)];
    assert!(Pool::from_parts(b"t".to_vec(), info, twice).is_none());
    let empty = PoolInfo { near_bal: 0, token_bal: 0, total_shares: 0 };
    assert!(Pool::from_parts(b"t".to_vec(), empty, vec![("alice_near".to_string(), 0)]).is_some());
}

#[test]
fn quotes_do_not_move_the_reserves() {
    let p = seeded_pool();
    let fee = Fee::standard();
    assert_eq!(p.quote_near_exact_in(100, 16, fee), Ok(Swapped { amount_in: 100, amount_out: 16 }));
    assert_eq!(p.quote_near_exact_out(50, 335, fee), Ok(Swapped { amount_in: 335, amount_out: 50 }));
    assert_eq!(p.quote_reserve_exact_in(50, 271, fee), Ok(Swapped { amount_in: 50, amount_out: 271 }));
    assert_eq!(p.quote_reserve_exact_out(100, 18, fee), Ok(Swapped { amount_in: 18, amount_out: 100 }));
    assert_eq!(p.quote_reserve_exact_out(100, 17, fee), Err(ClpError::MaxExceeded));
    assert_eq!(p.quote_reserve_exact_in(50, 272, fee), Err(ClpError::MinNotMet));
    assert_eq!(figures(&p), (3000, 500, 3000));
    assert_eq!(quote_exact_in(100, 16, 3000, 500, fee), Ok(Swapped { amount_in: 100, amount_out: 16 }));
    assert_eq!(quote_exact_out(50, 335, 500, 3000, fee), Ok(Swapped { amount_in: 335, amount_out: 50 }));
    assert_eq!(
        quote_exact_in(u128::MAX, 1, u128::MAX, u128::MAX, Fee { num: 0, den: 1 }),
        Err(ClpError::Arith)
    );
}

#[test]
fn pool_swaps_move_both_reserves() {
    let fee = Fee::standard();
    let mut p = seeded_pool();
    assert_eq!(p.swap_near_exact_in(100, 16, fee), Ok(Swapped { amount_in: 100, amount_out: 16 }));
    assert_eq!(figures(&p), (3100, 484, 3000));
    let mut p = seeded_pool();
    assert_eq!(p.swap_near_exact_out(50, 400, fee), Ok(Swapped { amount_in: 335, amount_out: 50 }));
    assert_eq!(figures(&p), (3335, 450, 3000));
    let mut p = seeded_pool();
    assert_eq!(p.swap_reserve_exact_in(50, 1, fee), Ok(Swapped { amount_in: 50, amount_out: 271 }));
    assert_eq!(figures(&p), (2729, 550, 3000));
    let mut p = seeded_pool();
    assert_eq!(p.swap_reserve_exact_out(100, 18, fee), Ok(Swapped { amount_in: 18, amount_out: 100 }));
    assert_eq!(figures(&p), (2900, 518, 3000));
    assert_eq!(p.swap_reserve_exact_out(2900, u128::MAX, fee), Err(ClpError::Depleted));
    assert_eq!(figures(&p), (2900, 518, 3000));
}

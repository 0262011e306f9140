use near_clp::effects::{pay_near, schedule_transfer, send_tokens};
use near_clp::pool::liquidity::LiquidityAdded;
use near_clp::{ClpError, Effect, Invocation, NearCLP, Pending, PoolInfo, Step};

fn inv(predecessor: &str, attached_deposit: u128) -> Invocation {
    Invocation {
        current: "clp_near".to_string(),
        predecessor: predecessor.to_string(),
        attached_deposit,
    }
}

fn host() -> Invocation {
    inv("clp_near", 0)
}

fn token() -> String {
    "token1_near".to_string()
}

fn seeded() -> NearCLP {
    let mut c = NearCLP::new("owner_near".to_string()).unwrap();
    c.create_pool(token()).unwrap();
    c.add_liquidity(&inv("alice_near", 3000), token(), 500, 3000).unwrap();
    c
}

fn info(c: &NearCLP, token: &str) -> PoolInfo {
    c.pool_info(&token.to_string()).expect("the pool exists")
}

fn effects(steps: &[Step]) -> Vec<String> {
    steps
        .iter()
        .map(|s| match &s.effect {
            Effect::PayNear { to, amount } => format!("near {} -> {}", amount, to),
            Effect::Transfer { token, to, amount } => format!("{} {} -> {}", token, amount, to),
            Effect::TransferFrom { token, owner, to, amount } => {
                format!("{} {} {} -> {}", token, amount, owner, to)
            }
        })
        .collect()
}

fn report(c: &mut NearCLP, step: &Step, success: bool) -> Result<Vec<Step>, ClpError> {
    c.on_complete(&host(), &step.effect, &step.next, success)
}

#[test]
fn only_the_pools_account_may_report() {
    let mut c = seeded();
    let step = pay_near("bob_near".to_string(), 5);
    let r = c.on_complete(&inv("bob_near", 0), &step.effect, &step.next, false);
    assert!(matches!(r, Err(ClpError::Unauthorized)));
    let added = LiquidityAdded { near_in: 3000, token_in: 500, shares_minted: 3000 };
    let r = c.add_liquidity_transfer_callback(&inv("alice_near", 0), token(), "alice_near".to_string(), added, false);
    assert!(matches!(r, Err(ClpError::Unauthorized)));
    assert_eq!(info(&c, "token1_near"), PoolInfo { near_bal: 3000, token_bal: 500, total_shares: 3000 });
}

#[test]
fn a_failed_payment_is_scheduled_again() {
    let mut c = seeded();
    let step = send_tokens(token(), "bob_near".to_string(), 16);
    assert!(report(&mut c, &step, true).unwrap().is_empty());
    let again = report(&mut c, &step, false).unwrap();
    assert_eq!(effects(&again), vec!["token1_near 16 -> bob_near"]);
    assert!(matches!(again[0].next, Pending::Retry));
    let step = pay_near("bob_near".to_string(), 7);
    assert_eq!(effects(&report(&mut c, &step, false).unwrap()), vec!["near 7 -> bob_near"]);
}

#[test]
fn a_deposit_whose_tokens_arrive_stands() {
    let mut c = seeded();
    let steps = c.add_liquidity(&inv("bob_near", 600), token(), 101, 600).unwrap();
    assert!(report(&mut c, &steps[0], true).unwrap().is_empty());
    assert_eq!(info(&c, "token1_near"), PoolInfo { near_bal: 3600, token_bal: 601, total_shares: 3600 });
}

#[test]
fn a_deposit_whose_tokens_do_not_arrive_is_taken_back() {
    let mut c = seeded();
    let steps = c.add_liquidity(&inv("bob_near", 600), token(), 101, 600).unwrap();
    let back = report(&mut c, &steps[0], false).unwrap();
    assert_eq!(effects(&back), vec!["near 600 -> bob_near"]);
    assert_eq!(info(&c, "token1_near"), PoolInfo { near_bal: 3000, token_bal: 500, total_shares: 3000 });
    assert_eq!(c.shares_balance_of(token(), "bob_near".to_string()), Ok(0));
    assert_eq!(c.shares_balance_of(token(), "alice_near".to_string()), Ok(3000));
}

#[test]
fn a_first_deposit_can_be_taken_back_by_name() {
    let mut c = NearCLP::new("owner_near".to_string()).unwrap();
    c.create_pool(token()).unwrap();
    c.add_liquidity(&inv("alice_near", 3000), token(), 500, 3000).unwrap();
    let added = LiquidityAdded { near_in: 3000, token_in: 500, shares_minted: 3000 };
    let back = c
        .add_liquidity_transfer_callback(&host(), token(), "alice_near".to_string(), added, false)
        .unwrap();
    assert_eq!(effects(&back), vec!["near 3000 -> alice_near"]);
    assert_eq!(info(&c, "token1_near"), PoolInfo { near_bal: 0, token_bal: 0, total_shares: 0 });
}

#[test]
fn a_deposit_that_was_spent_cannot_be_taken_back() {
    let mut c = seeded();
    let steps = c.add_liquidity(&inv("bob_near", 600), token(), 101, 600).unwrap();
    c.withdraw_liquidity(&inv("bob_near", 0), token(), 600, 1, 1).unwrap();
    let before = info(&c, "token1_near");
    assert!(matches!(report(&mut c, &steps[0], false), Err(ClpError::InsufficientShares)));
    assert_eq!(info(&c, "token1_near"), before);

    // the pool cannot be left with one reserve empty
    let mut c = NearCLP::new("owner_near".to_string()).unwrap();
    c.create_pool(token()).unwrap();
    c.add_liquidity(&inv("alice_near", 3000), token(), 500, 3000).unwrap();
    c.swap_near_to_reserve_exact_in(&inv("bob_near", 100), token(), 16).unwrap();
    let added = LiquidityAdded { near_in: 3000, token_in: 500, shares_minted: 3000 };
    let r = c.add_liquidity_transfer_callback(&host(), token(), "alice_near".to_string(), added, false);
    assert!(matches!(r, Err(ClpError::Depleted)));
    assert_eq!(info(&c, "token1_near"), PoolInfo { near_bal: 3100, token_bal: 484, total_shares: 3000 });
    let unknown = c.add_liquidity_transfer_callback(&host(), "nope_near".to_string(), "alice_near".to_string(), added, false);
    assert!(matches!(unknown, Err(ClpError::PoolMissing)));
}

#[test]
fn reserve_sold_for_near_trades_when_the_tokens_arrive() {
    let mut c = seeded();
    let steps = c
        .swap_reserve_to_near_exact_in_xfr(&inv("bob_near", 0), token(), 50, 271, "carol_near".to_string())
        .unwrap();
    assert_eq!(effects(&steps), vec!["token1_near 50 bob_near -> clp_near"]);
    assert_eq!(info(&c, "token1_near"), PoolInfo { near_bal: 3000, token_bal: 500, total_shares: 3000 });
    let paid = report(&mut c, &steps[0], true).unwrap();
    assert_eq!(effects(&paid), vec!["near 271 -> carol_near"]);
    assert_eq!(info(&c, "token1_near"), PoolInfo { near_bal: 2729, token_bal: 550, total_shares: 3000 });
    assert!(2729u128 * 550 >= 3000 * 500);
}

#[test]
fn reserve_sold_for_near_does_nothing_when_the_tokens_fail() {
    let mut c = seeded();
    let steps = c.swap_reserve_to_near_exact_in(&inv("bob_near", 0), token(), 50, 271).unwrap();
    assert!(report(&mut c, &steps[0], false).unwrap().is_empty());
    assert_eq!(info(&c, "token1_near"), PoolInfo { near_bal: 3000, token_bal: 500, total_shares: 3000 });
}

#[test]
fn reserve_is_sent_back_when_the_price_has_moved() {
    let mut c = seeded();
    let steps = c.swap_reserve_to_near_exact_in(&inv("bob_near", 0), token(), 50, 271).unwrap();
    // someone else sells tokens first: the native reserve shrinks
    let other = c.swap_reserve_to_near_exact_in(&inv("dave_near", 0), token(), 100, 1).unwrap();
    report(&mut c, &other[0], true).unwrap();
    let before = info(&c, "token1_near");
    let back = report(&mut c, &steps[0], true).unwrap();
    assert_eq!(effects(&back), vec!["token1_near 50 -> bob_near"]);
    assert_eq!(info(&c, "token1_near"), before);
}

#[test]
fn reserve_paid_for_exact_near_returns_what_is_not_needed() {
    let mut c = seeded();
    assert!(matches!(
        c.swap_reserve_to_near_exact_out(&inv("bob_near", 0), token(), 100, 17),
        Err(ClpError::MaxExceeded)
    ));
    let steps = c.swap_reserve_to_near_exact_out(&inv("bob_near", 0), token(), 100, 18).unwrap();
    assert_eq!(effects(&steps), vec!["token1_near 18 bob_near -> clp_near"]);
    // native liquidity arrives in between: the price of the native asset falls
    c.swap_near_to_reserve_exact_in(&inv("dave_near", 3000), token(), 1).unwrap();
    let before = info(&c, "token1_near");
    let need = c.price_token_to_near_out(token(), 100).unwrap();
    assert!(need < 18);
    let done = report(&mut c, &steps[0], true).unwrap();
    assert_eq!(
        effects(&done),
        vec!["near 100 -> bob_near".to_string(), format!("token1_near {} -> bob_near", 18 - need)]
    );
    let after = info(&c, "token1_near");
    assert_eq!(after.near_bal, before.near_bal - 100);
    assert_eq!(after.token_bal, before.token_bal + need);
    assert!(after.near_bal * after.token_bal > before.near_bal * before.token_bal);
}

fn two_pools() -> NearCLP {
    let mut c = NearCLP::new("owner_near".to_string()).unwrap();
    c.create_pool("aaa_near".to_string()).unwrap();
    c.create_pool("bbb_near".to_string()).unwrap();
    c.add_liquidity(&inv("alice_near", 1_000_000), "aaa_near".to_string(), 1_000_000, 1).unwrap();
    c.add_liquidity(&inv("alice_near", 1_000_000), "bbb_near".to_string(), 1_000_000, 1).unwrap();
    c
}

#[test]
fn two_hop_trades_in_both_pools_when_the_tokens_arrive() {
    let mut c = two_pools();
    let steps = c
        .swap_tokens_exact_in_xfr(
            &inv("bob_near", 0),
            "aaa_near".to_string(),
            "bbb_near".to_string(),
            1000,
            992,
            "carol_near".to_string(),
        )
        .unwrap();
    let sent = report(&mut c, &steps[0], true).unwrap();
    assert_eq!(effects(&sent), vec!["bbb_near 992 -> carol_near"]);
    assert_eq!(info(&c, "aaa_near"), PoolInfo { near_bal: 999_004, token_bal: 1_001_000, total_shares: 1_000_000 });
    assert_eq!(info(&c, "bbb_near"), PoolInfo { near_bal: 1_000_996, token_bal: 999_008, total_shares: 1_000_000 });
    assert!(999_004u128 * 1_001_000 >= 1_000_000u128 * 1_000_000);
    assert!(1_000_996u128 * 999_008 >= 1_000_000u128 * 1_000_000);
}

#[test]
fn two_hop_exact_out_trades_and_returns_the_rest() {
    let mut c = two_pools();
    let steps = c
        .swap_tokens_exact_out(&inv("bob_near", 0), "aaa_near".to_string(), "bbb_near".to_string(), 993, 1001)
        .unwrap();
    let sent = report(&mut c, &steps[0], true).unwrap();
    assert_eq!(effects(&sent), vec!["bbb_near 993 -> bob_near"]);
    assert_eq!(info(&c, "aaa_near"), PoolInfo { near_bal: 999_003, token_bal: 1_001_001, total_shares: 1_000_000 });
    assert_eq!(info(&c, "bbb_near"), PoolInfo { near_bal: 1_000_997, token_bal: 999_007, total_shares: 1_000_000 });
}

#[test]
fn two_hop_sends_the_tokens_back_when_it_cannot_trade() {
    let mut c = two_pools();
    let steps = c
        .swap_tokens_exact_in(&inv("bob_near", 0), "aaa_near".to_string(), "bbb_near".to_string(), 1000, 992)
        .unwrap();
    // pool B is drained in between
    c.withdraw_liquidity(&inv("alice_near", 0), "bbb_near".to_string(), 1_000_000, 1, 1).unwrap();
    let back = report(&mut c, &steps[0], true).unwrap();
    assert_eq!(effects(&back), vec!["aaa_near 1000 -> bob_near"]);
    assert_eq!(info(&c, "aaa_near"), PoolInfo { near_bal: 1_000_000, token_bal: 1_000_000, total_shares: 1_000_000 });
    assert_eq!(info(&c, "bbb_near"), PoolInfo { near_bal: 0, token_bal: 0, total_shares: 0 });
    assert!(report(&mut c, &steps[0], false).unwrap().is_empty());
}

#[test]
fn transfers_from_the_pools_account_need_no_allowance() {
    let own = schedule_transfer(
        &"clp_near".to_string(),
        token(),
        "clp_near".to_string(),
        "bob_near".to_string(),
        5,
    );
    assert!(matches!(own, Effect::Transfer { amount: 5, .. }));
    let other = schedule_transfer(
        &"clp_near".to_string(),
        token(),
        "alice_near".to_string(),
        "clp_near".to_string(),
        5,
    );
    match other {
        Effect::TransferFrom { token, owner, to, amount } => {
            assert_eq!((token.as_str(), owner.as_str(), to.as_str(), amount), ("token1_near", "alice_near", "clp_near", 5));
        }
        _ => panic!("a transfer from another account goes against its allowance"),
    }
}

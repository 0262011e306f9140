use near_clp::{ClpError, Effect, Invocation, NearCLP, Pending, PoolInfo, Step};

fn inv(predecessor: &str, attached_deposit: u128) -> Invocation {
    Invocation {
        current: "clp_near".to_string(),
        predecessor: predecessor.to_string(),
        attached_deposit,
    }
}

fn token() -> String {
    "token1_near".to_string()
}

/// A registry with one pool at (3000, 500, 3000), all shares held by `alice_near`.
fn seeded() -> NearCLP {
    let mut c = NearCLP::new("owner_near".to_string()).unwrap();
    c.create_pool(token()).unwrap();
    c.add_liquidity(&inv("alice_near", 3000), token(), 500, 3000).unwrap();
    c
}

fn info(c: &NearCLP, token: &str) -> PoolInfo {
    c.pool_info(&token.to_string()).expect("the pool exists")
}

fn effects(steps: &[Step]) -> Vec<String> {
    steps
        .iter()
        .map(|s| match &s.effect {
            Effect::PayNear { to, amount } => format!("near {} -> {}", amount, to),
            Effect::Transfer { token, to, amount } => format!("{} {} -> {}", token, amount, to),
            Effect::TransferFrom { token, owner, to, amount } => {
                format!("{} {} {} -> {}", token, amount, owner, to)
            }
        })
        .collect()
}

#[test]
fn double_create_fails() {
    let mut c = NearCLP::new("owner_near".to_string()).unwrap();
    assert_eq!(c.create_pool(token()), Ok(()));
    assert_eq!(c.create_pool(token()), Err(ClpError::PoolExists));
    assert_eq!(info(&c, "token1_near"), PoolInfo { near_bal: 0, token_bal: 0, total_shares: 0 });
}

#[test]
fn first_deposit_sets_price() {
    let mut c = NearCLP::new("owner_near".to_string()).unwrap();
    c.create_pool(token()).unwrap();
    let steps = c.add_liquidity(&inv("alice_near", 3000), token(), 500, 3000).unwrap();
    assert_eq!(info(&c, "token1_near"), PoolInfo { near_bal: 3000, token_bal: 500, total_shares: 3000 });
    assert_eq!(c.shares_balance_of(token(), "alice_near".to_string()), Ok(3000));
    assert_eq!(c.shares_balance_of(token(), "bob_near".to_string()), Ok(0));
    assert_eq!(effects(&steps), vec!["token1_near 500 alice_near -> clp_near"]);
    match &steps[0].next {
        Pending::LiquidityDeposit { token, provider, added } => {
            assert_eq!(token, "token1_near");
            assert_eq!(provider, "alice_near");
            assert_eq!((added.near_in, added.token_in, added.shares_minted), (3000, 500, 3000));
        }
        _ => panic!("a deposit waits for its tokens"),
    }
}

#[test]
fn first_deposit_ignores_min_shares() {
    let mut c = NearCLP::new("owner_near".to_string()).unwrap();
    c.create_pool(token()).unwrap();
    c.add_liquidity(&inv("alice_near", 7), token(), 9, u128::MAX).unwrap();
    assert_eq!(info(&c, "token1_near"), PoolInfo { near_bal: 7, token_bal: 9, total_shares: 7 });
}

#[test]
fn deposit_needs_positive_amounts() {
    let mut c = seeded();
    assert!(matches!(c.add_liquidity(&inv("bob_near", 0), token(), 500, 1), Err(ClpError::Zero)));
    assert!(matches!(c.add_liquidity(&inv("bob_near", 10), token(), 0, 1), Err(ClpError::Zero)));
    assert_eq!(info(&c, "token1_near"), PoolInfo { near_bal: 3000, token_bal: 500, total_shares: 3000 });
}

#[test]
fn later_deposit_keeps_the_ratio() {
    let mut c = seeded();
    // 600 * 500 / 3000 + 1 = 101 tokens, 600 * 3000 / 3000 = 600 shares
    assert!(matches!(
        c.add_liquidity(&inv("bob_near", 600), token(), 100, 600),
        Err(ClpError::MaxExceeded)
    ));
    assert!(matches!(
        c.add_liquidity(&inv("bob_near", 600), token(), 101, 601),
        Err(ClpError::MinNotMet)
    ));
    let steps = c.add_liquidity(&inv("bob_near", 600), token(), 101, 600).unwrap();
    assert_eq!(effects(&steps), vec!["token1_near 101 bob_near -> clp_near"]);
    assert_eq!(info(&c, "token1_near"), PoolInfo { near_bal: 3600, token_bal: 601, total_shares: 3600 });
    assert_eq!(c.shares_balance_of(token(), "bob_near".to_string()), Ok(600));
    assert_eq!(c.shares_balance_of(token(), "alice_near".to_string()), Ok(3000));
}

#[test]
fn deposit_that_outgrows_the_pool_is_refused() {
    let mut c = seeded();
    assert!(matches!(
        c.add_liquidity(&inv("bob_near", u128::MAX), token(), u128::MAX, 1),
        Err(ClpError::Arith)
    ));
    assert_eq!(info(&c, "token1_near"), PoolInfo { near_bal: 3000, token_bal: 500, total_shares: 3000 });
}

#[test]
fn exact_in_swap() {
    let mut c = seeded();
    let before = info(&c, "token1_near");
    let steps = c.swap_near_to_reserve_exact_in(&inv("bob_near", 100), token(), 16).unwrap();
    let after = info(&c, "token1_near");
    assert_eq!(after, PoolInfo { near_bal: 3100, token_bal: 484, total_shares: 3000 });
    assert_eq!(before.near_bal * before.token_bal, 1_500_000);
    assert_eq!(after.near_bal * after.token_bal, 1_500_400);
    assert_eq!(effects(&steps), vec!["token1_near 16 -> bob_near"]);
    assert!(matches!(steps[0].next, Pending::Retry));
}

#[test]
fn exact_in_swap_below_the_minimum_fails() {
    let mut c = seeded();
    assert!(matches!(
        c.swap_near_to_reserve_exact_in(&inv("bob_near", 100), token(), 17),
        Err(ClpError::MinNotMet)
    ));
    assert!(matches!(
        c.swap_near_to_reserve_exact_in(&inv("bob_near", 0), token(), 1),
        Err(ClpError::Zero)
    ));
    assert!(matches!(
        c.swap_near_to_reserve_exact_in(&inv("bob_near", 100), token(), 0),
        Err(ClpError::Zero)
    ));
    assert_eq!(info(&c, "token1_near"), PoolInfo { near_bal: 3000, token_bal: 500, total_shares: 3000 });
}

#[test]
fn exact_in_swap_to_a_recipient() {
    let mut c = seeded();
    let steps = c
        .swap_near_to_reserve_exact_in_xfr(&inv("bob_near", 100), token(), 16, "carol_near".to_string())
        .unwrap();
    assert_eq!(effects(&steps), vec!["token1_near 16 -> carol_near"]);
}

#[test]
fn exact_out_swap_respects_max() {
    let mut c = seeded();
    assert_eq!(c.price_near_to_token_out(token(), 50), Ok(335));
    assert!(matches!(
        c.swap_near_to_reserve_exact_out(&inv("bob_near", 334), token(), 50),
        Err(ClpError::MaxExceeded)
    ));
    assert_eq!(info(&c, "token1_near"), PoolInfo { near_bal: 3000, token_bal: 500, total_shares: 3000 });
    let steps = c.swap_near_to_reserve_exact_out(&inv("bob_near", 335), token(), 50).unwrap();
    assert_eq!(effects(&steps), vec!["token1_near 50 -> bob_near"]);
    assert_eq!(info(&c, "token1_near"), PoolInfo { near_bal: 3335, token_bal: 450, total_shares: 3000 });
}

#[test]
fn exact_out_swap_refunds_the_surplus() {
    let mut c = seeded();
    let steps = c
        .swap_near_to_reserve_exact_out_xfr(&inv("bob_near", 1000), token(), 50, "carol_near".to_string())
        .unwrap();
    assert_eq!(effects(&steps), vec!["token1_near 50 -> carol_near", "near 665 -> bob_near"]);
    assert_eq!(info(&c, "token1_near"), PoolInfo { near_bal: 3335, token_bal: 450, total_shares: 3000 });
}

#[test]
fn exact_out_swap_cannot_drain_the_reserve() {
    let mut c = seeded();
    assert!(matches!(
        c.swap_near_to_reserve_exact_out(&inv("bob_near", u128::MAX), token(), 500),
        Err(ClpError::Depleted)
    ));
    assert!(matches!(
        c.swap_near_to_reserve_exact_out(&inv("bob_near", u128::MAX), token(), 501),
        Err(ClpError::Depleted)
    ));
}

#[test]
fn redeem_partial() {
    let mut c = seeded();
    let steps = c.withdraw_liquidity(&inv("alice_near", 0), token(), 1500, 1500, 250).unwrap();
    assert_eq!(effects(&steps), vec!["near 1500 -> alice_near", "token1_near 250 -> alice_near"]);
    assert_eq!(info(&c, "token1_near"), PoolInfo { near_bal: 1500, token_bal: 250, total_shares: 1500 });
    assert_eq!(c.shares_balance_of(token(), "alice_near".to_string()), Ok(1500));
}

#[test]
fn redeem_checks_in_order() {
    let mut c = seeded();
    assert!(matches!(c.withdraw_liquidity(&inv("alice_near", 0), token(), 0, 1, 1), Err(ClpError::Zero)));
    assert!(matches!(c.withdraw_liquidity(&inv("alice_near", 0), token(), 1, 0, 1), Err(ClpError::Zero)));
    assert!(matches!(c.withdraw_liquidity(&inv("alice_near", 0), token(), 1, 1, 0), Err(ClpError::Zero)));
    assert!(matches!(
        c.withdraw_liquidity(&inv("alice_near", 0), token(), 3001, 1, 1),
        Err(ClpError::InsufficientShares)
    ));
    assert!(matches!(
        c.withdraw_liquidity(&inv("bob_near", 0), token(), 1, 1, 1),
        Err(ClpError::InsufficientShares)
    ));
    assert!(matches!(
        c.withdraw_liquidity(&inv("alice_near", 0), token(), 1500, 1501, 250),
        Err(ClpError::MinNotMet)
    ));
    assert!(matches!(
        c.withdraw_liquidity(&inv("alice_near", 0), token(), 1500, 1500, 251),
        Err(ClpError::MinNotMet)
    ));
    assert_eq!(info(&c, "token1_near"), PoolInfo { near_bal: 3000, token_bal: 500, total_shares: 3000 });
}

#[test]
fn redeeming_everything_empties_the_pool() {
    let mut c = seeded();
    c.withdraw_liquidity(&inv("alice_near", 0), token(), 3000, 1, 1).unwrap();
    assert_eq!(info(&c, "token1_near"), PoolInfo { near_bal: 0, token_bal: 0, total_shares: 0 });
    assert_eq!(c.shares_balance_of(token(), "alice_near".to_string()), Ok(0));
    // the next deposit sets the price anew
    c.add_liquidity(&inv("bob_near", 10), token(), 40, 1).unwrap();
    assert_eq!(info(&c, "token1_near"), PoolInfo { near_bal: 10, token_bal: 40, total_shares: 10 });
}

#[test]
fn round_trip_returns_no_more_than_was_paid() {
    let mut c = seeded();
    c.swap_near_to_reserve_exact_in(&inv("carol_near", 777), token(), 1).unwrap();
    let before = info(&c, "token1_near");
    let steps = c.add_liquidity(&inv("bob_near", 1234), token(), u128::MAX, 1).unwrap();
    let (token_in, minted) = match &steps[0].next {
        Pending::LiquidityDeposit { added, .. } => (added.token_in, added.shares_minted),
        _ => panic!("a deposit waits for its tokens"),
    };
    let out = c.withdraw_liquidity(&inv("bob_near", 0), token(), minted, 1, 1).unwrap();
    let (near_out, token_out) = match (&out[0].effect, &out[1].effect) {
        (Effect::PayNear { amount: n, .. }, Effect::Transfer { amount: t, .. }) => (*n, *t),
        _ => panic!("a withdrawal pays both assets"),
    };
    assert!(near_out <= 1234);
    assert!(token_out <= token_in);
    let after = info(&c, "token1_near");
    assert!(after.near_bal >= before.near_bal && after.token_bal >= before.token_bal);
    assert_eq!(after.total_shares, before.total_shares);
}

fn two_pools() -> NearCLP {
    let mut c = NearCLP::new("owner_near".to_string()).unwrap();
    c.create_pool("aaa_near".to_string()).unwrap();
    c.create_pool("bbb_near".to_string()).unwrap();
    c.add_liquidity(&inv("alice_near", 1_000_000), "aaa_near".to_string(), 1_000_000, 1).unwrap();
    c.add_liquidity(&inv("alice_near", 1_000_000), "bbb_near".to_string(), 1_000_000, 1).unwrap();
    c
}

#[test]
fn two_hop_swap() {
    let c = two_pools();
    // leg 1: 1000 tokens of A buy 996 native; leg 2: 996 native buy 992 tokens of B
    assert_eq!(c.price_token_to_near_in("aaa_near".to_string(), 1000), Ok(996));
    assert_eq!(c.price_near_to_token_in("bbb_near".to_string(), 996), Ok(992));
    assert_eq!(c.price_token_to_token_in("aaa_near".to_string(), "bbb_near".to_string(), 1000), Ok(992));
    assert!(matches!(
        c.swap_tokens_exact_in(&inv("bob_near", 0), "aaa_near".to_string(), "bbb_near".to_string(), 1000, 994),
        Err(ClpError::MinNotMet)
    ));
    assert!(matches!(
        c.swap_tokens_exact_in(&inv("bob_near", 0), "aaa_near".to_string(), "bbb_near".to_string(), 1000, 993),
        Err(ClpError::MinNotMet)
    ));
    // a single fee over both legs would have bought 997 * 1000 * 1e6 / (1e9 + 997000) = 996
    let steps = c
        .swap_tokens_exact_in(&inv("bob_near", 0), "aaa_near".to_string(), "bbb_near".to_string(), 1000, 992)
        .unwrap();
    assert_eq!(effects(&steps), vec!["aaa_near 1000 bob_near -> clp_near"]);
    assert_eq!(info(&c, "aaa_near").token_bal, 1_000_000);
}

#[test]
fn two_hop_swap_needs_two_assets() {
    let c = two_pools();
    assert!(matches!(
        c.swap_tokens_exact_in(&inv("bob_near", 0), "aaa_near".to_string(), "aaa_near".to_string(), 1000, 1),
        Err(ClpError::SameAsset)
    ));
    assert!(matches!(
        c.swap_tokens_exact_out(&inv("bob_near", 0), "aaa_near".to_string(), "aaa_near".to_string(), 1000, 1),
        Err(ClpError::SameAsset)
    ));
    assert_eq!(
        c.price_token_to_token_in("aaa_near".to_string(), "aaa_near".to_string(), 1000),
        Err(ClpError::SameAsset)
    );
    assert_eq!(
        c.price_token_to_token_out("bbb_near".to_string(), "bbb_near".to_string(), 1000),
        Err(ClpError::SameAsset)
    );
    assert!(matches!(
        c.swap_tokens_exact_in(&inv("bob_near", 0), "aaa_near".to_string(), "ccc_near".to_string(), 1000, 1),
        Err(ClpError::PoolMissing)
    ));
    assert!(matches!(
        c.swap_tokens_exact_in(&inv("bob_near", 0), "aaa_near".to_string(), "bbb_near".to_string(), 0, 1),
        Err(ClpError::Zero)
    ));
}

#[test]
fn two_hop_exact_out_prices_backwards() {
    let c = two_pools();
    // 993 tokens of B cost 997 native, which cost 1001 tokens of A
    assert_eq!(c.price_near_to_token_out("bbb_near".to_string(), 993), Ok(997));
    assert_eq!(c.price_token_to_near_out("aaa_near".to_string(), 997), Ok(1001));
    assert_eq!(c.price_token_to_token_out("aaa_near".to_string(), "bbb_near".to_string(), 993), Ok(1001));
    assert_eq!(c.price_swap_tokens_out(&"aaa_near".to_string(), &"bbb_near".to_string(), 993), Ok((997, 1001)));
    assert_eq!(c.price_swap_tokens_in(&"aaa_near".to_string(), &"bbb_near".to_string(), 1000), Ok((996, 992)));
    assert!(matches!(
        c.swap_tokens_exact_out(&inv("bob_near", 0), "aaa_near".to_string(), "bbb_near".to_string(), 993, 1000),
        Err(ClpError::MaxExceeded)
    ));
    let steps = c
        .swap_tokens_exact_out_xfr(
            &inv("bob_near", 0),
            "aaa_near".to_string(),
            "bbb_near".to_string(),
            993,
            5000,
            "carol_near".to_string(),
        )
        .unwrap();
    assert_eq!(effects(&steps), vec!["aaa_near 1001 bob_near -> clp_near"]);
    match &steps[0].next {
        Pending::TokensExactOut { from, to, payer, recipient, tokens_to, tokens_paid } => {
            assert_eq!((from.as_str(), to.as_str()), ("aaa_near", "bbb_near"));
            assert_eq!((payer.as_str(), recipient.as_str()), ("bob_near", "carol_near"));
            assert_eq!((*tokens_to, *tokens_paid), (993, 1001));
        }
        _ => panic!("the trade waits for its tokens"),
    }
}

#[test]
fn pricing_an_empty_pool_fails() {
    let mut c = NearCLP::new("owner_near".to_string()).unwrap();
    c.create_pool(token()).unwrap();
    assert_eq!(c.price_near_to_token_in(token(), 5), Err(ClpError::Depleted));
    assert_eq!(c.price_near_to_token_out(token(), 5), Err(ClpError::Depleted));
    assert_eq!(c.price_token_to_near_in(token(), 5), Err(ClpError::Depleted));
    assert_eq!(c.price_token_to_near_out(token(), 5), Err(ClpError::Depleted));
    assert!(matches!(
        c.swap_near_to_reserve_exact_in(&inv("bob_near", 5), token(), 1),
        Err(ClpError::Depleted)
    ));
    assert!(matches!(
        c.swap_near_to_reserve_exact_out(&inv("bob_near", 5), token(), 1),
        Err(ClpError::Depleted)
    ));
    assert!(matches!(
        c.swap_reserve_to_near_exact_in(&inv("bob_near", 0), token(), 5, 1),
        Err(ClpError::Depleted)
    ));
    assert!(matches!(
        c.swap_reserve_to_near_exact_out(&inv("bob_near", 0), token(), 5, 1),
        Err(ClpError::Depleted)
    ));
}

#[test]
fn prices_need_a_positive_amount() {
    let c = seeded();
    assert_eq!(c.price_near_to_token_in(token(), 0), Err(ClpError::Zero));
    assert_eq!(c.price_near_to_token_out(token(), 0), Err(ClpError::Zero));
    assert_eq!(c.price_token_to_near_in(token(), 0), Err(ClpError::Zero));
    assert_eq!(c.price_token_to_near_out(token(), 0), Err(ClpError::Zero));
    assert_eq!(c.price_token_to_token_in(token(), "x_near".to_string(), 0), Err(ClpError::Zero));
    assert_eq!(c.price_token_to_token_out(token(), "x_near".to_string(), 0), Err(ClpError::Zero));
    assert_eq!(c.price_near_to_token_in(token(), 100), Ok(16));
    assert_eq!(c.price_token_to_near_in(token(), 50), Ok(271));
    assert_eq!(c.price_token_to_near_out(token(), 100), Ok(18));
}

#[test]
fn a_registry_can_charge_another_fee() {
    let free = near_clp::Fee::new(0, 1).expect("a proper fraction");
    let mut c = NearCLP::with_fee("owner_near".to_string(), free).unwrap();
    assert_eq!(c.fee(), free);
    c.create_pool(token()).unwrap();
    c.add_liquidity(&inv("alice_near", 3000), token(), 500, 1).unwrap();
    // 3000 * 500 / (3000 + 3000) = 250: without a fee the product stays
    let steps = c.swap_near_to_reserve_exact_in(&inv("bob_near", 3000), token(), 250).unwrap();
    assert_eq!(effects(&steps), vec!["token1_near 250 -> bob_near"]);
    assert_eq!(info(&c, "token1_near"), PoolInfo { near_bal: 6000, token_bal: 250, total_shares: 3000 });
    assert!(matches!(
        NearCLP::with_fee("no owner".to_string(), free),
        Err(ClpError::BadAccount)
    ));
    assert_eq!(c.owner(), "owner_near");
    assert_eq!(c.fee_dst(), "owner_near");
}

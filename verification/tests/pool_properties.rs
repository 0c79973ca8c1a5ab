use amm::errors::Error;
use amm::pool::Amm;

#[test]
fn default_is_empty_pool() {
    let contract = Amm::default();
    assert_eq!(contract.get_pool_details(), (0, 0, 0, 0));
    assert_eq!(contract.get_my_holdings(9), (0, 0, 0));
}

#[test]
fn provide_without_funding_fails() {
    let mut contract = Amm::new(0);
    assert_eq!(contract.provide(1, 10, 20), Err(Error::InsufficientAmount));
    assert_eq!(contract.get_pool_details(), (0, 0, 0, 0));
}

#[test]
fn estimate_on_empty_pool_fails() {
    let contract = Amm::new(0);
    assert_eq!(contract.get_withdraw_estimate(1), Err(Error::ZeroLiquidity));
}

#[test]
fn zero_amounts_are_refused() {
    let mut contract = Amm::new(0);
    contract.faucet(1, 100, 200);
    assert_eq!(contract.provide(1, 0, 20), Err(Error::ZeroAmount));
    assert_eq!(contract.provide(1, 10, 0), Err(Error::ZeroAmount));
    contract.provide(1, 10, 20).unwrap();
    assert_eq!(contract.withdraw(1, 0), Err(Error::ZeroAmount));
    assert_eq!(contract.swap_token1_to_token2(1, 0, 0), Err(Error::ZeroAmount));
    assert_eq!(contract.swap_token2_to_token1(1, 0, 0), Err(Error::ZeroAmount));
    assert_eq!(contract.get_pool_details(), (10, 20, 100_000_000, 0));
}

#[test]
fn non_equivalent_deposit_fails() {
    let mut contract = Amm::new(0);
    contract.faucet(1, 100, 200);
    contract.provide(1, 10, 20).unwrap();
    // share1 = 1e8 * 10 / 10 = 1e8 but share2 = 1e8 * 19 / 20 = 95_000_000.
    assert_eq!(contract.provide(1, 10, 19), Err(Error::NonEquivalentValue));
    assert_eq!(contract.get_pool_details(), (10, 20, 100_000_000, 0));
}

#[test]
fn tiny_deposit_mints_no_share() {
    let mut contract = Amm::new(0);
    contract.faucet(1, 300_000_000, 300_000_000);
    contract.provide(1, 200_000_000, 200_000_000).unwrap();
    // 1e8 * 1 / 2e8 truncates to zero shares on both sides.
    assert_eq!(contract.provide(1, 1, 1), Err(Error::ThresholdNotReached));
    assert_eq!(contract.get_pool_details(), (200_000_000, 200_000_000, 100_000_000, 0));
}

#[test]
fn estimate_above_total_shares_fails() {
    let mut contract = Amm::new(0);
    contract.faucet(1, 100, 200);
    let share = contract.provide(1, 10, 20).unwrap();
    assert_eq!(contract.get_withdraw_estimate(share + 1), Err(Error::InvalidShare));
}

#[test]
fn estimate_reads_are_idempotent() {
    let mut contract = Amm::new(0);
    contract.faucet(1, 100, 200);
    contract.provide(1, 10, 20).unwrap();
    let first = contract.get_withdraw_estimate(33_333_333);
    let second = contract.get_withdraw_estimate(33_333_333);
    // Floor rounding: 33_333_333 * 10 / 1e8 = 3 and 33_333_333 * 20 / 1e8 = 6.
    assert_eq!(first, Ok((3, 6)));
    assert_eq!(second, first);
    assert_eq!(contract.get_pool_details(), (10, 20, 100_000_000, 0));
}

#[test]
fn swap_input_covering_reserve_fails() {
    let mut contract = Amm::new(0);
    contract.faucet(1, 100, 200);
    contract.provide(1, 10, 20).unwrap();
    assert_eq!(contract.swap_token1_to_token2(1, 50, 0), Err(Error::InsufficientLiquidity));
    assert_eq!(contract.swap_token2_to_token1(1, 50, 0), Err(Error::InsufficientLiquidity));
    assert_eq!(contract.get_pool_details(), (10, 20, 100_000_000, 0));
}

#[test]
fn swap_below_minimum_output_fails() {
    let mut contract = Amm::new(0);
    contract.faucet(1, 200, 400);
    contract.provide(1, 100, 200).unwrap();
    // Output would be 200 - 20_000 / 150 = 67, short of the declared 100.
    assert_eq!(contract.swap_token1_to_token2(1, 50, 100), Err(Error::SlippageExceeded));
    assert_eq!(contract.get_pool_details(), (100, 200, 100_000_000, 0));
    assert_eq!(contract.swap_token1_to_token2(1, 50, 67), Ok(67));
    assert_eq!(contract.get_pool_details(), (150, 133, 100_000_000, 0));
}

#[test]
fn first_provision_round_trips_exactly() {
    let mut contract = Amm::new(0);
    contract.faucet(1, 50, 60);
    let share = contract.provide(1, 50, 60).unwrap();
    assert_eq!(contract.withdraw(1, share), Ok((50, 60)));
    assert_eq!(contract.get_pool_details(), (0, 0, 0, 0));
    assert_eq!(contract.get_my_holdings(1), (50, 60, 0));
}

#[test]
fn second_provider_round_trips() {
    let mut contract = Amm::new(0);
    contract.faucet(1, 10, 20);
    contract.provide(1, 10, 20).unwrap();
    contract.faucet(2, 5, 10);
    let share = contract.provide(2, 5, 10).unwrap();
    assert_eq!(share, 50_000_000);
    assert_eq!(contract.get_pool_details(), (15, 30, 150_000_000, 0));
    assert_eq!(contract.get_my_holdings(2), (0, 0, share));
    assert_eq!(contract.withdraw(2, share), Ok((5, 10)));
    assert_eq!(contract.get_pool_details(), (10, 20, 100_000_000, 0));
    assert_eq!(contract.get_my_holdings(2), (5, 10, 0));
    assert_eq!(contract.get_my_holdings(1), (0, 0, 100_000_000));
}

#[test]
fn fee_bearing_swap_between_accounts() {
    let mut contract = Amm::new(500);
    contract.faucet(1, 100, 200);
    contract.provide(1, 100, 200).unwrap();
    contract.faucet(2, 50, 0);
    let (r1, r2, _, _) = contract.get_pool_details();
    assert_eq!(contract.swap_token1_to_token2(2, 50, 10), Ok(40));
    assert_eq!(contract.get_my_holdings(1), (0, 0, 100_000_000));
    assert_eq!(contract.get_my_holdings(2), (0, 40, 0));
    let (n1, n2, shares, fees) = contract.get_pool_details();
    assert_eq!((n1, n2, shares, fees), (125, 160, 100_000_000, 500));
    // The post-swap division is exact here, so the pricing constant K is
    // preserved: 100 * 200 == 125 * 160.
    assert_eq!(r1 * r2, n1 * n2);
}

#[test]
fn draining_swap_can_empty_one_reserve() {
    let mut contract = Amm::new(0);
    contract.faucet(1, 20, 1);
    contract.provide(1, 10, 1).unwrap();
    // K = 10; the new first reserve is 19, and 10 / 19 truncates to zero, so
    // the whole second reserve is paid out while shares stay outstanding.
    assert_eq!(contract.swap_token1_to_token2(1, 9, 1), Ok(1));
    assert_eq!(contract.get_pool_details(), (19, 0, 100_000_000, 0));
    // Every operation needing an active pool now refuses.
    assert_eq!(contract.get_withdraw_estimate(1), Err(Error::ZeroLiquidity));
    assert_eq!(contract.withdraw(1, 1), Err(Error::ZeroLiquidity));
    assert_eq!(contract.swap_token2_to_token1(1, 1, 0), Err(Error::ZeroLiquidity));
}

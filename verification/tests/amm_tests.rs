use amm::errors::Error;
use amm::pool::Amm;

const CALLER: u64 = 1;

#[test]
fn new_works() {
    let contract = Amm::new(0);
    assert_eq!(contract.get_my_holdings(CALLER), (0, 0, 0));
    assert_eq!(contract.get_pool_details(), (0, 0, 0, 0));
}

#[test]
fn faucet_works() {
    let mut contract = Amm::new(0);
    contract.faucet(CALLER, 10, 20);
    assert_eq!(contract.get_my_holdings(CALLER), (10, 20, 0));
    assert_eq!(contract.get_pool_details(), (0, 0, 0, 0));
}

#[test]
fn active_pool_test() {
    let contract = Amm::new(0);
    let res = contract.active_pool();
    assert_eq!(res, Err(Error::ZeroLiquidity));
}

#[test]
fn provide_test() {
    let mut contract = Amm::new(0);
    contract.faucet(CALLER, 100, 200);
    let share = contract.provide(CALLER, 10, 20).unwrap();
    assert_eq!(share, 100_000_000);
    assert_eq!(contract.get_my_holdings(CALLER), (90, 180, share));
    assert_eq!(contract.get_pool_details(), (10, 20, share, 0));
}

#[test]
fn withdraw_test() {
    let mut contract = Amm::new(0);
    contract.faucet(CALLER, 100, 200);
    let share = contract.provide(CALLER, 10, 20).unwrap();
    assert_eq!(contract.withdraw(CALLER, share / 2).unwrap(), (5, 10));
    assert_eq!(contract.get_my_holdings(CALLER), (95, 190, share / 2));
    assert_eq!(contract.get_pool_details(), (5, 10, share / 2, 0));
}

#[test]
fn swap_token1_to_token2_test() {
    let mut contract = Amm::new(500); // 50%
    contract.faucet(CALLER, 200, 200);
    let share = contract.provide(CALLER, 100, 200).unwrap();
    assert_eq!(contract.get_my_holdings(CALLER), (100, 0, share));
    assert_eq!(contract.get_pool_details(), (100, 200, share, 500));

    let _res = contract.swap_token1_to_token2(CALLER, 50, 10);
    // 50 of the first asset provided; after the 50% fee, 25 move the price.
    // The pool rate is 1:2, so 25 would quote as 50 of the second asset, and
    // the realized output after slippage is 40 (pool rate becomes 125/160).
    assert_eq!(contract.get_my_holdings(CALLER), (50, 40, share));
    assert_eq!(contract.get_pool_details(), (125, 160, share, 500));
}

#[test]
fn swap_token2_to_token1_test() {
    let mut contract = Amm::new(0);
    contract.faucet(CALLER, 200, 200);
    let share = contract.provide(CALLER, 100, 100).unwrap();
    assert_eq!(contract.get_my_holdings(CALLER), (100, 100, share));
    assert_eq!(contract.get_pool_details(), (100, 100, share, 0));

    let _res = contract.swap_token2_to_token1(CALLER, 50, 20);
    println!("res: {:?}", _res);
    assert_eq!(contract.get_my_holdings(CALLER), (134, 50, share));
    // The second reserve grows by the full 50; the first reserve becomes
    // 10_000 / 150 = 66 under integer division, paying out 34. The product
    // of the reserves drops from 10_000 to 66 * 150 = 9_900: the floor
    // rounding is the only loss.
    assert_eq!(contract.get_pool_details(), (66, 150, share, 0));
}

use futarchy::amm::{Amm, AmmError, SwapType, TwapState, PRICE_SCALE};
use futarchy::address::Address;
use futarchy::create_position::{handler as create_position, AmmPosition, CreatePosition};
use futarchy::swap::handler as swap_handler;

fn pool(base: u64, quote: u64, fee_bps: u16) -> Amm {
    Amm {
        base_amount: base,
        quote_amount: quote,
        total_ownership: 1_000,
        swap_fee_bps: fee_bps,
        twap: TwapState { last_updated_slot: 0, aggregator: 0, last_price: 0 },
    }
}

fn k(amm: &Amm) -> u128 {
    amm.base_amount as u128 * amm.quote_amount as u128
}

#[test]
fn swap_base_to_quote_scenario() {
    let mut amm = pool(1000, 1000, 30);
    let k_before = k(&amm);
    assert_eq!(k_before, 1_000_000);
    // input after fee: 100 * 9970 / 10000 = 99; new quote: ceil(1_000_000 / 1099) = 910
    let out = amm.swap(100, SwapType::Sell).unwrap();
    assert_eq!(out, 90);
    assert_eq!(amm.base_amount, 1100);
    assert_eq!(amm.quote_amount, 910);
    assert_eq!(k(&amm), 1_001_000);
    assert!(k(&amm) >= k_before);
}

#[test]
fn swap_quote_to_base_mirrors_sell() {
    let mut amm = pool(1000, 1000, 30);
    let out = amm.swap(100, SwapType::Buy).unwrap();
    assert_eq!(out, 90);
    assert_eq!(amm.quote_amount, 1100);
    assert_eq!(amm.base_amount, 910);
}

#[test]
fn swap_without_fee_keeps_product_when_divisible() {
    let mut amm = pool(1000, 1000, 0);
    let out = amm.swap(1000, SwapType::Sell).unwrap();
    assert_eq!(out, 500);
    assert_eq!(k(&amm), 1_000_000);
}

#[test]
fn swap_without_fee_rounds_in_pool_favour() {
    let mut amm = pool(1000, 1000, 0);
    let out = amm.swap(3, SwapType::Sell).unwrap();
    // ceil(1_000_000 / 1003) = 998
    assert_eq!(out, 2);
    assert_eq!(k(&amm), 1003 * 998);
    assert!(k(&amm) > 1_000_000);
}

#[test]
fn swap_never_drains_the_other_side() {
    let mut amm = pool(1000, 1000, 30);
    let out = amm.swap(u64::MAX - 1000, SwapType::Sell).unwrap();
    assert_eq!(out, 999);
    assert_eq!(amm.quote_amount, 1);
    assert_eq!(amm.base_amount, u64::MAX);
}

#[test]
fn swap_rejects_zero_input() {
    let mut amm = pool(1000, 1000, 30);
    assert_eq!(amm.swap(0, SwapType::Buy), Err(AmmError::ZeroInput));
    assert_eq!(amm, pool(1000, 1000, 30));
}

#[test]
fn swap_rejects_unseeded_pool() {
    let mut amm = pool(1000, 1000, 30);
    amm.total_ownership = 0;
    assert_eq!(amm.swap(10, SwapType::Buy), Err(AmmError::NoLiquidity));
}

#[test]
fn swap_rejects_empty_reserve() {
    let mut amm = pool(1000, 0, 30);
    assert_eq!(amm.swap(10, SwapType::Sell), Err(AmmError::EmptyReserve));
    let mut amm = pool(0, 1000, 30);
    assert_eq!(amm.swap(10, SwapType::Sell), Err(AmmError::EmptyReserve));
}

#[test]
fn swap_rejects_reserve_overflow() {
    let mut amm = pool(u64::MAX - 5, 1000, 30);
    assert_eq!(amm.swap(10, SwapType::Sell), Err(AmmError::Overflow));
    assert_eq!(amm.base_amount, u64::MAX - 5);
}

#[test]
fn handler_credits_oracle_with_pre_swap_price() {
    let mut amm = pool(1000, 1000, 30);
    let out = swap_handler(&mut amm, SwapType::Sell, 100, 90, 10).unwrap();
    assert_eq!(out, 90);
    assert_eq!(amm.twap.last_updated_slot, 10);
    assert_eq!(amm.twap.last_price, PRICE_SCALE);
    assert_eq!(amm.twap.aggregator, 10 * PRICE_SCALE);
    assert_eq!(amm.base_amount, 1100);
    assert_eq!(amm.quote_amount, 910);
}

#[test]
fn handler_same_slot_leaves_oracle_alone() {
    let mut amm = pool(1000, 1000, 30);
    swap_handler(&mut amm, SwapType::Sell, 100, 0, 10).unwrap();
    let twap = amm.twap;
    swap_handler(&mut amm, SwapType::Buy, 50, 0, 10).unwrap();
    assert_eq!(amm.twap, twap);
}

#[test]
fn handler_later_slot_uses_new_price() {
    let mut amm = pool(1000, 1000, 30);
    swap_handler(&mut amm, SwapType::Sell, 100, 0, 10).unwrap();
    swap_handler(&mut amm, SwapType::Sell, 100, 0, 12).unwrap();
    let price = 910u128 * PRICE_SCALE / 1100;
    assert_eq!(amm.twap.last_price, price);
    assert_eq!(amm.twap.aggregator, 10 * PRICE_SCALE + 2 * price);
}

#[test]
fn handler_rejects_slippage_without_change() {
    let mut amm = pool(1000, 1000, 30);
    let before = amm;
    assert_eq!(
        swap_handler(&mut amm, SwapType::Sell, 100, 91, 10),
        Err(AmmError::SlippageExceeded)
    );
    assert_eq!(amm, before);
}

#[test]
fn handler_rejects_oracle_overflow() {
    let mut amm = pool(1000, 1000, 30);
    amm.twap.aggregator = u128::MAX - 1;
    let before = amm;
    assert_eq!(
        swap_handler(&mut amm, SwapType::Sell, 100, 0, 10),
        Err(AmmError::Overflow)
    );
    assert_eq!(amm, before);
}

#[test]
fn update_twap_is_idempotent_within_a_slot() {
    let mut amm = pool(2000, 1000, 30);
    amm.update_twap(7).unwrap();
    assert_eq!(amm.twap.aggregator, 7 * (PRICE_SCALE / 2));
    let once = amm;
    amm.update_twap(7).unwrap();
    amm.update_twap(3).unwrap();
    assert_eq!(amm, once);
}

#[test]
fn positions_are_unique_per_owner_and_pool() {
    let user = Address { hi: 1, lo: 2 };
    let pool_a = Address { hi: 3, lo: 4 };
    let pool_b = Address { hi: 5, lo: 6 };
    let mut positions: Vec<AmmPosition> = Vec::new();
    assert_eq!(create_position(&CreatePosition { user, amm: pool_a }, &mut positions), Ok(()));
    assert_eq!(positions, vec![AmmPosition { user, amm: pool_a, ownership: 0 }]);
    assert_eq!(
        create_position(&CreatePosition { user, amm: pool_a }, &mut positions),
        Err(AmmError::PositionExists)
    );
    assert_eq!(positions.len(), 1);
    assert_eq!(create_position(&CreatePosition { user, amm: pool_b }, &mut positions), Ok(()));
    assert_eq!(positions.len(), 2);
}

#[test]
fn swap_grid_keeps_product_and_never_drains() {
    let reserves = [1u64, 7, 1000, 123_456, u32::MAX as u64];
    let fees = [0u16, 1, 30, 100, 9_999, 10_000];
    let inputs = [1u64, 2, 99, 1_000_000, u32::MAX as u64];
    for &base in &reserves {
        for &quote in &reserves {
            for &fee in &fees {
                for &input in &inputs {
                    for swap_type in [SwapType::Buy, SwapType::Sell] {
                        let mut amm = pool(base, quote, fee);
                        let k_before = k(&amm);
                        let other = match swap_type {
                            SwapType::Buy => base,
                            SwapType::Sell => quote,
                        };
                        let out = amm.swap(input, swap_type).unwrap();
                        assert!(out < other);
                        assert!(k(&amm) >= k_before);
                    }
                }
            }
        }
    }
}

#[test]
fn swap_rejects_fee_above_scale() {
    let mut amm = pool(1000, 1000, 10_001);
    assert_eq!(amm.swap(100, SwapType::Sell), Err(AmmError::InvalidFee));
    assert_eq!(amm, pool(1000, 1000, 10_001));
    assert_eq!(swap_handler(&mut amm, SwapType::Buy, 100, 0, 3), Err(AmmError::InvalidFee));
    assert_eq!(amm, pool(1000, 1000, 10_001));
}

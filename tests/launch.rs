use futarchy::refund::{LaunchState, LaunchpadError, Refund};

fn refund_accounts(tokens: u64) -> Refund {
    Refund {
        launch_state: LaunchState::Refunding,
        launch_usdc_vault: 1_000,
        funder_usdc: 0,
        funder_tokens: tokens,
        token_supply: 1_000_000,
    }
}

#[test]
fn refund_pays_one_unit_per_ten_thousand_tokens() {
    let mut r = refund_accounts(25_000);
    assert_eq!(r.validate(), Ok(()));
    assert_eq!(r.handle(), Ok(2));
    assert_eq!(r.launch_usdc_vault, 998);
    assert_eq!(r.funder_usdc, 2);
    assert_eq!(r.funder_tokens, 0);
    assert_eq!(r.token_supply, 975_000);
}

#[test]
fn refund_requires_refunding_state() {
    let mut r = refund_accounts(25_000);
    r.launch_state = LaunchState::Live;
    assert_eq!(r.validate(), Err(LaunchpadError::LaunchNotRefunding));
}

#[test]
fn refund_rejects_empty_balance() {
    let mut r = refund_accounts(0);
    assert_eq!(r.handle(), Err(LaunchpadError::InvalidAmount));
}

#[test]
fn refund_rejects_short_vault() {
    let mut r = refund_accounts(100_000_000);
    r.token_supply = 100_000_000;
    assert_eq!(r.handle(), Err(LaunchpadError::InsufficientFunds));
    assert_eq!(r.funder_tokens, 100_000_000);
}

#[test]
fn refund_rejects_balance_overflow() {
    let mut r = refund_accounts(20_000);
    r.funder_usdc = u64::MAX;
    assert_eq!(r.handle(), Err(LaunchpadError::Overflow));
}

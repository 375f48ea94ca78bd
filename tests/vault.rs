use futarchy::address::Address;
use futarchy::conditional_vault::{payout_of, ConditionalVault, Question, VaultError};
use futarchy::initialize_conditional_vault::InitializeConditionalVault;
use futarchy::redeem_tokens::InteractWithNewVault;

fn addr(n: u128) -> Address {
    Address { hi: 0, lo: n }
}

fn question(nums: Vec<u64>, den: u64) -> Question {
    Question { question_id: addr(1), payout_numerators: nums, payout_denominator: den }
}

fn vault_record(n: usize) -> ConditionalVault {
    ConditionalVault {
        question: addr(1),
        underlying_token_mint: addr(2),
        underlying_token_account: addr(3),
        conditional_token_mints: (0..n).map(|i| addr(10 + i as u128)).collect(),
        pda_bump: 255,
        decimals: 6,
        seq_num: 0,
    }
}

fn accounts(
    q: Question,
    supplies: Vec<u64>,
    balances: Vec<u64>,
    user_underlying: u64,
    vault_underlying: u64,
) -> InteractWithNewVault {
    let n = supplies.len();
    InteractWithNewVault {
        question: q,
        vault: vault_record(n),
        conditional_token_supplies: supplies,
        user_conditional_balances: balances,
        user_underlying_balance: user_underlying,
        vault_underlying_balance: vault_underlying,
    }
}

#[test]
fn redeem_single_winner_scenario() {
    let mut a = accounts(question(vec![1, 0], 1), vec![50, 50], vec![50, 0], 0, 50);
    assert_eq!(a.handle_redeem_tokens(), Ok(50));
    assert_eq!(a.user_conditional_balances, vec![0, 0]);
    assert_eq!(a.conditional_token_supplies, vec![0, 50]);
    assert_eq!(a.user_underlying_balance, 50);
    assert_eq!(a.vault_underlying_balance, 0);
}

#[test]
fn redeem_twice_releases_nothing_the_second_time() {
    let mut a = accounts(question(vec![1, 0], 1), vec![50, 50], vec![50, 0], 0, 50);
    assert_eq!(a.handle_redeem_tokens(), Ok(50));
    let supplies = a.conditional_token_supplies.clone();
    assert_eq!(a.handle_redeem_tokens(), Ok(0));
    assert_eq!(a.conditional_token_supplies, supplies);
    assert_eq!(a.user_conditional_balances, vec![0, 0]);
    assert_eq!(a.user_underlying_balance, 50);
    assert_eq!(a.vault_underlying_balance, 0);
}

#[test]
fn redeem_rounds_each_term_down() {
    // 10 * 1 / 3 = 3 and 10 * 2 / 3 = 6
    let mut a = accounts(question(vec![1, 2], 3), vec![10, 10], vec![10, 10], 0, 10);
    assert_eq!(a.handle_redeem_tokens(), Ok(9));
    assert_eq!(a.vault_underlying_balance, 1);
}

#[test]
fn redeem_before_resolution_fails() {
    let mut a = accounts(question(vec![0, 0], 0), vec![50, 50], vec![50, 0], 0, 50);
    assert_eq!(a.validate_redeem_tokens(), Err(VaultError::CantRedeemConditionalTokens));
    assert_eq!(a.handle_redeem_tokens(), Err(VaultError::CantRedeemConditionalTokens));
    assert_eq!(a.user_conditional_balances, vec![50, 0]);
}

#[test]
fn validate_accepts_resolved_question() {
    let a = accounts(question(vec![1, 0], 1), vec![0, 0], vec![0, 0], 0, 0);
    assert_eq!(a.validate_redeem_tokens(), Ok(()));
}

#[test]
fn redeem_fails_when_vault_is_short() {
    let mut a = accounts(question(vec![1, 0], 1), vec![50, 50], vec![50, 0], 0, 5);
    assert_eq!(a.handle_redeem_tokens(), Err(VaultError::InsufficientVaultFunds));
    assert_eq!(a.vault_underlying_balance, 5);
}

#[test]
fn redeem_fails_on_user_balance_overflow() {
    let mut a = accounts(question(vec![1, 0], 1), vec![50, 50], vec![50, 0], u64::MAX, 50);
    assert_eq!(a.handle_redeem_tokens(), Err(VaultError::Overflow));
}

#[test]
fn redeem_fails_when_vault_ends_undercollateralised() {
    let mut a = accounts(question(vec![1, 0], 1), vec![100, 100], vec![50, 0], 0, 60);
    assert_eq!(a.handle_redeem_tokens(), Err(VaultError::AssertFailed));
    assert_eq!(a.conditional_token_supplies, vec![100, 100]);
    assert_eq!(a.vault_underlying_balance, 60);
}

#[test]
fn mint_then_redeem_returns_deposit() {
    let mut a = accounts(question(vec![0, 0, 0], 0), vec![0, 0, 0], vec![0, 0, 0], 1000, 0);
    assert_eq!(a.handle_mint_tokens(1000), Ok(()));
    assert_eq!(a.user_conditional_balances, vec![1000, 1000, 1000]);
    assert_eq!(a.conditional_token_supplies, vec![1000, 1000, 1000]);
    assert_eq!(a.user_underlying_balance, 0);
    assert_eq!(a.vault_underlying_balance, 1000);
    a.question = question(vec![0, 7, 0], 7);
    assert_eq!(a.handle_redeem_tokens(), Ok(1000));
    assert_eq!(a.user_underlying_balance, 1000);
    assert_eq!(a.vault_underlying_balance, 0);
}

#[test]
fn several_owners_never_drain_more_than_the_vault_holds() {
    let mut alice = accounts(question(vec![0, 0], 0), vec![0, 0], vec![0, 0], 300, 0);
    alice.handle_mint_tokens(300).unwrap();
    // bob buys 200 of outcome 1 from alice: move balances by hand
    alice.user_conditional_balances = vec![300, 100];
    let mut bob = accounts(question(vec![3, 1], 4), vec![300, 300], vec![0, 200], 0, 300);
    alice.question = question(vec![3, 1], 4);
    let paid_alice = alice.handle_redeem_tokens().unwrap();
    assert_eq!(paid_alice, 225 + 25);
    bob.conditional_token_supplies = alice.conditional_token_supplies.clone();
    bob.vault_underlying_balance = alice.vault_underlying_balance;
    let paid_bob = bob.handle_redeem_tokens().unwrap();
    assert_eq!(paid_bob, 50);
    assert!(paid_alice + paid_bob <= 300);
}

#[test]
fn mint_fails_without_enough_underlying() {
    let mut a = accounts(question(vec![0, 0], 0), vec![0, 0], vec![0, 0], 10, 0);
    assert_eq!(a.handle_mint_tokens(11), Err(VaultError::InsufficientUnderlyingTokens));
    assert_eq!(a.user_underlying_balance, 10);
}

#[test]
fn mint_fails_on_supply_overflow() {
    let mut a = accounts(question(vec![0, 0], 0), vec![0, u64::MAX], vec![0, 0], 10, u64::MAX - 20);
    assert_eq!(a.handle_mint_tokens(5), Err(VaultError::Overflow));
    assert_eq!(a.conditional_token_supplies, vec![0, u64::MAX]);
}

#[test]
fn mint_fails_when_vault_is_undercollateralised() {
    let mut a = accounts(question(vec![0, 0], 0), vec![100, 0], vec![0, 0], 10, 50);
    assert_eq!(a.handle_mint_tokens(5), Err(VaultError::AssertFailed));
}

#[test]
fn payout_of_weights_each_outcome() {
    assert_eq!(payout_of(&vec![10, 20, 30], &vec![1, 1, 2], 4), 2 + 5 + 15);
    assert_eq!(payout_of(&vec![], &vec![], 1), 0);
}

#[test]
fn check_invariant_before_and_after_resolution() {
    let v = vault_record(2);
    let open = question(vec![0, 0], 0);
    assert_eq!(v.check_invariant(&open, &vec![10, 10], 10), Ok(()));
    assert_eq!(v.check_invariant(&open, &vec![10, 11], 10), Err(VaultError::AssertFailed));
    let resolved = question(vec![1, 1], 2);
    assert_eq!(v.check_invariant(&resolved, &vec![10, 12], 11), Ok(()));
    assert_eq!(v.check_invariant(&resolved, &vec![10, 12], 10), Err(VaultError::AssertFailed));
}

#[test]
fn initialize_vault_records_one_mint_per_outcome() {
    let init = InitializeConditionalVault {
        question_key: addr(1),
        question: question(vec![0, 0], 0),
        underlying_token_mint: addr(2),
        underlying_decimals: 9,
        vault_underlying_token_account: addr(3),
        pda_bump: 254,
    };
    let derived = vec![addr(10), addr(11)];
    let vault = init.handle(&derived, &vec![addr(10), addr(11), addr(99)]).unwrap();
    assert_eq!(vault.conditional_token_mints, derived);
    assert_eq!(vault.question, addr(1));
    assert_eq!(vault.underlying_token_mint, addr(2));
    assert_eq!(vault.underlying_token_account, addr(3));
    assert_eq!(vault.decimals, 9);
    assert_eq!(vault.pda_bump, 254);
    assert_eq!(vault.seq_num, 0);
    assert_eq!(
        init.handle(&derived, &vec![addr(10)]).map(|v| v.seq_num),
        Err(VaultError::InvalidConditionalTokenMint)
    );
    assert_eq!(
        init.handle(&derived, &vec![addr(11), addr(10)]).map(|v| v.seq_num),
        Err(VaultError::InvalidConditionalTokenMint)
    );
}

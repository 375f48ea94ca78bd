use vstd::prelude::*;
use crate::conditional_vault::{
    payout_of,
    ConditionalVault,
    Question,
    VaultBook,
    VaultError,
};

verus! {

/// The records a user operation on a vault touches: the question, the vault,
/// each outcome token's supply and the user's balance of it (by outcome
/// index), and both underlying balances.
pub struct InteractWithNewVault {
    pub question: Question,
    pub vault: ConditionalVault,
    pub conditional_token_supplies: Vec<u64>,
    pub user_conditional_balances: Vec<u64>,
    pub user_underlying_balance: u64,
    pub vault_underlying_balance: u64,
}

impl View for InteractWithNewVault {
    type V = VaultBook;

    open spec fn view(&self) -> VaultBook {
        VaultBook {
            numerators: self.question.payout_numerators@,
            denominator: self.question.payout_denominator,
            supplies: self.conditional_token_supplies@,
            balances: self.user_conditional_balances@,
            user_underlying: self.user_underlying_balance,
            vault_underlying: self.vault_underlying_balance,
        }
    }
}

/// Tells whether every entry is zero.
fn all_zero(v: &Vec<u64>) -> (r: bool)
    ensures
        r == (forall|i: int| 0 <= i < v@.len() ==> v@[i] == 0),
{
    let mut i: usize = 0;
    while i < v.len()
        invariant
            0 <= i <= v@.len(),
            forall|k: int| 0 <= k < i ==> v@[k] == 0,
        decreases v@.len() - i,
    {
        if v[i] != 0 {
            return false;
        }
        i = i + 1;
    }
    true
}

/// Tells whether two vectors hold the same entries.
fn same_entries(a: &Vec<u64>, b: &Vec<u64>) -> (r: bool)
    ensures
        r == (a@ == b@),
{
    if a.len() != b.len() {
        return false;
    }
    let mut i: usize = 0;
    while i < a.len()
        invariant
            a@.len() == b@.len(),
            0 <= i <= a@.len(),
            forall|k: int| 0 <= k < i ==> a@[k] == b@[k],
        decreases a@.len() - i,
    {
        if a[i] != b[i] {
            return false;
        }
        i = i + 1;
    }
    assert(a@ =~= b@);
    true
}

impl InteractWithNewVault {
    pub open spec fn wf(&self) -> bool {
        &&& self@.wf()
        &&& self.vault.conditional_token_mints@.len() == self.question.payout_numerators@.len()
    }

    /// Refuses redemption until the question has resolved.
    pub fn validate_redeem_tokens(&self) -> (r: Result<(), VaultError>)
        ensures
            r is Ok <==> self.question.spec_is_resolved(),
            r is Err ==> r == Err::<(), VaultError>(VaultError::CantRedeemConditionalTokens),
    {
        if !self.question.is_resolved() {
            return Err(VaultError::CantRedeemConditionalTokens);
        }
        Ok(())
    }

    /// Redeems all of the user's outcome tokens: each balance is burnt, and
    /// the underlying value it is worth under the payout vector (each term
    /// rounded down) moves from the vault to the user. The balances are then
    /// read back and checked, and the vault's collateral rule is checked on
    /// the result. Returns the underlying amount released.
    pub fn handle_redeem_tokens(&mut self) -> (r: Result<u64, VaultError>)
        requires
            old(self).wf(),
        ensures
            match old(self)@.redeem_error() {
                Some(e) => r == Err::<u64, VaultError>(e) && *final(self) == *old(self),
                None => {
                    &&& r == Ok::<u64, VaultError>(old(self)@.redeemable() as u64)
                    &&& final(self)@ == old(self)@.after_redeem()
                    &&& final(self).wf()
                    &&& final(self).question == old(self).question
                    &&& final(self).vault == old(self).vault
                },
            },
            r is Ok ==> r->Ok_0 == 0 || exists|i: int|
                0 <= i < old(self)@.balances.len() && r->Ok_0 <= #[trigger] old(self)@.balances[i],
    {
        self.validate_redeem_tokens()?;
        let n = self.user_conditional_balances.len();

        // What each supply must come to once the user's balance is burnt.
        let mut expected_future_supplies: Vec<u64> = Vec::new();
        let mut burnt_supplies: Vec<u64> = Vec::new();
        let mut emptied_balances: Vec<u64> = Vec::new();
        let mut max_redeemable: u64 = 0;
        let mut i: usize = 0;
        while i < n
            invariant
                self.wf(),
                n == self@.balances.len(),
                0 <= i <= n,
                expected_future_supplies@.len() == i,
                burnt_supplies@ == expected_future_supplies@,
                emptied_balances@ == Seq::new(i as nat, |k: int| 0u64),
                forall|k: int|
                    0 <= k < i ==> #[trigger] expected_future_supplies@[k] == self@.supplies[k]
                        - self@.balances[k],
                forall|k: int| 0 <= k < i ==> #[trigger] self@.balances[k] <= max_redeemable,
                max_redeemable == 0 || exists|k: int|
                    0 <= k < i && #[trigger] self@.balances[k] == max_redeemable,
            decreases n - i,
        {
            let balance = self.user_conditional_balances[i];
            let remaining = self.conditional_token_supplies[i] - balance;
            expected_future_supplies.push(remaining);
            burnt_supplies.push(remaining);
            emptied_balances.push(0);
            if balance > max_redeemable {
                max_redeemable = balance;
            }
            i = i + 1;
            assert(emptied_balances@ =~= Seq::new(i as nat, |k: int| 0u64));
        }
        let total_redeemable = payout_of(
            &self.user_conditional_balances,
            &self.question.payout_numerators,
            self.question.payout_denominator,
        );
        proof {
            crate::conditional_vault::lemma_payout_at_most(
                self@.balances,
                self@.numerators,
                self@.denominator,
                max_redeemable as int,
                self@.balances.len() as int,
            );
        }
        if total_redeemable > max_redeemable {
            return Err(VaultError::AssertFailed);
        }
        if total_redeemable > self.vault_underlying_balance {
            return Err(VaultError::InsufficientVaultFunds);
        }
        if total_redeemable > u64::MAX - self.user_underlying_balance {
            return Err(VaultError::Overflow);
        }
        let user_underlying_balance_before = self.user_underlying_balance;
        let vault_underlying_balance_before = self.vault_underlying_balance;
        let vault_underlying_after = vault_underlying_balance_before - total_redeemable;
        assert(expected_future_supplies@ =~= self@.after_redeem().supplies);
        self.vault.check_invariant(&self.question, &expected_future_supplies, vault_underlying_after)?;

        // Burn every outcome balance, then pay the user out of the vault.
        self.conditional_token_supplies = burnt_supplies;
        self.user_conditional_balances = emptied_balances;
        self.vault_underlying_balance = vault_underlying_after;
        self.user_underlying_balance = user_underlying_balance_before + total_redeemable;

        // Read the balances back and hold them to what was computed above.
        if self.user_underlying_balance != user_underlying_balance_before + total_redeemable {
            return Err(VaultError::AssertFailed);
        }
        if self.vault_underlying_balance != vault_underlying_balance_before - total_redeemable {
            return Err(VaultError::AssertFailed);
        }
        if !all_zero(&self.user_conditional_balances) {
            return Err(VaultError::AssertFailed);
        }
        if !same_entries(&self.conditional_token_supplies, &expected_future_supplies) {
            return Err(VaultError::AssertFailed);
        }
        assert(self@ =~= old(self)@.after_redeem());
        Ok(total_redeemable)
    }
}

} // verus!

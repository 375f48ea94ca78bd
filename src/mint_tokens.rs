use vstd::prelude::*;
use crate::conditional_vault::VaultError;
use crate::redeem_tokens::InteractWithNewVault;

verus! {

impl InteractWithNewVault {
    /// Deposits `amount` of the underlying asset into the vault and mints
    /// `amount` of every outcome token to the user. The underlying balances
    /// are read back and checked, and the vault's collateral rule is checked
    /// on the result.
    pub fn handle_mint_tokens(&mut self, amount: u64) -> (r: Result<(), VaultError>)
        requires
            old(self).wf(),
        ensures
            match old(self)@.mint_error(amount) {
                Some(e) => r == Err::<(), VaultError>(e) && *final(self) == *old(self),
                None => {
                    &&& r == Ok::<(), VaultError>(())
                    &&& final(self)@ == old(self)@.after_mint(amount)
                    &&& final(self).wf()
                    &&& final(self).question == old(self).question
                    &&& final(self).vault == old(self).vault
                },
            },
    {
        if self.user_underlying_balance < amount {
            return Err(VaultError::InsufficientUnderlyingTokens);
        }
        if amount > u64::MAX - self.vault_underlying_balance {
            return Err(VaultError::Overflow);
        }
        let n = self.conditional_token_supplies.len();
        let mut minted_supplies: Vec<u64> = Vec::new();
        let mut minted_balances: Vec<u64> = Vec::new();
        let mut i: usize = 0;
        while i < n
            invariant
                self.wf(),
                n == self@.supplies.len(),
                self.user_underlying_balance >= amount,
                amount <= u64::MAX - self.vault_underlying_balance,
                0 <= i <= n,
                forall|k: int| 0 <= k < i ==> #[trigger] self@.supplies[k] + amount <= u64::MAX,
                minted_supplies@.len() == i,
                minted_balances@.len() == i,
                forall|k: int|
                    0 <= k < i ==> #[trigger] minted_supplies@[k] == self@.supplies[k] + amount,
                forall|k: int|
                    0 <= k < i ==> #[trigger] minted_balances@[k] == self@.balances[k] + amount,
            decreases n - i,
        {
            let supply = self.conditional_token_supplies[i];
            if supply > u64::MAX - amount {
                assert(self@.supplies[i as int] + amount > u64::MAX);
                return Err(VaultError::Overflow);
            }
            minted_supplies.push(supply + amount);
            minted_balances.push(self.user_conditional_balances[i] + amount);
            i = i + 1;
        }
        let user_underlying_balance_before = self.user_underlying_balance;
        let vault_underlying_balance_before = self.vault_underlying_balance;
        assert(minted_supplies@ =~= self@.after_mint(amount).supplies);
        assert(minted_balances@ =~= self@.after_mint(amount).balances);
        self.vault.check_invariant(
            &self.question,
            &minted_supplies,
            vault_underlying_balance_before + amount,
        )?;

        // Take the deposit, then mint.
        self.user_underlying_balance = user_underlying_balance_before - amount;
        self.vault_underlying_balance = vault_underlying_balance_before + amount;
        self.conditional_token_supplies = minted_supplies;
        self.user_conditional_balances = minted_balances;

        // Read the balances back and hold them to the deposit.
        if self.user_underlying_balance != user_underlying_balance_before - amount {
            return Err(VaultError::AssertFailed);
        }
        if self.vault_underlying_balance != vault_underlying_balance_before + amount {
            return Err(VaultError::AssertFailed);
        }
        assert(self@ =~= old(self)@.after_mint(amount));
        Ok(())
    }
}

} // verus!

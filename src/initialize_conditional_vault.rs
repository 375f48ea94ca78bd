use vstd::prelude::*;
use crate::address::Address;
use crate::conditional_vault::{ConditionalVault, Question, VaultError};

verus! {

/// What provisioning a vault reads: the question, the underlying asset and
/// the vault's own holding entry for it.
pub struct InitializeConditionalVault {
    pub question_key: Address,
    pub question: Question,
    pub underlying_token_mint: Address,
    pub underlying_decimals: u8,
    pub vault_underlying_token_account: Address,
    pub pda_bump: u8,
}

impl InitializeConditionalVault {
    /// Records a new vault with one outcome-token registry per outcome of the
    /// question. `derived_mints[i]` is the address that belongs to outcome
    /// `i`; `provided_mints` are the registries handed in, which must be those
    /// addresses in that order. The registries start with zero supply.
    pub fn handle(&self, derived_mints: &Vec<Address>, provided_mints: &Vec<Address>) -> (r: Result<
        ConditionalVault,
        VaultError,
    >)
        requires
            derived_mints@.len() == self.question.payout_numerators@.len(),
        ensures
            r is Ok <==> {
                &&& provided_mints@.len() >= derived_mints@.len()
                &&& forall|i: int|
                    0 <= i < derived_mints@.len() ==> provided_mints@[i] == derived_mints@[i]
            },
            r is Err ==> r == Err::<ConditionalVault, VaultError>(
                VaultError::InvalidConditionalTokenMint,
            ),
            r is Ok ==> {
                let vault = r->Ok_0;
                &&& vault.question == self.question_key
                &&& vault.underlying_token_mint == self.underlying_token_mint
                &&& vault.underlying_token_account == self.vault_underlying_token_account
                &&& vault.conditional_token_mints@ == derived_mints@
                &&& vault.pda_bump == self.pda_bump
                &&& vault.decimals == self.underlying_decimals
                &&& vault.seq_num == 0
            },
    {
        let expected_num_conditional_tokens = self.question.num_outcomes();
        let mut conditional_token_mints: Vec<Address> = Vec::new();
        let mut i: usize = 0;
        while i < expected_num_conditional_tokens
            invariant
                expected_num_conditional_tokens == derived_mints@.len(),
                0 <= i <= derived_mints@.len(),
                conditional_token_mints@ == derived_mints@.take(i as int),
                i <= provided_mints@.len(),
                forall|k: int| 0 <= k < i ==> provided_mints@[k] == derived_mints@[k],
            decreases derived_mints@.len() - i,
        {
            if i >= provided_mints.len() {
                return Err(VaultError::InvalidConditionalTokenMint);
            }
            if provided_mints[i] != derived_mints[i] {
                return Err(VaultError::InvalidConditionalTokenMint);
            }
            conditional_token_mints.push(derived_mints[i]);
            i = i + 1;
            assert(conditional_token_mints@ =~= derived_mints@.take(i as int));
        }
        assert(conditional_token_mints@ =~= derived_mints@);
        Ok(
            ConditionalVault {
                question: self.question_key,
                underlying_token_mint: self.underlying_token_mint,
                underlying_token_account: self.vault_underlying_token_account,
                conditional_token_mints,
                pda_bump: self.pda_bump,
                decimals: self.underlying_decimals,
                seq_num: 0,
            },
        )
    }
}

} // verus!

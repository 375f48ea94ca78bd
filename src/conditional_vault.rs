use vstd::prelude::*;
use crate::address::Address;

verus! {

#[derive(Clone, Copy, Debug, PartialEq, Eq, Structural)]
pub enum VaultError {
    /// The question has not resolved, so nothing can be redeemed.
    CantRedeemConditionalTokens,
    /// The user holds less underlying than the deposit asks for.
    InsufficientUnderlyingTokens,
    /// The vault holds less underlying than the payout.
    InsufficientVaultFunds,
    /// A balance or a supply would leave its integer range.
    Overflow,
    /// The accounts handed in do not match the vault's outcome count.
    InvalidConditionalTokenMint,
    /// A check after the operation failed: the vault would hold less
    /// underlying than it owes, or a balance read back is not as computed.
    AssertFailed,
}

/// A question as the vault sees it: a payout numerator per outcome over a
/// common denominator. It is resolved once the denominator is nonzero.
#[derive(Clone, Debug)]
pub struct Question {
    pub question_id: Address,
    pub payout_numerators: Vec<u64>,
    pub payout_denominator: u64,
}

/// Sum of the first `j` entries.
pub open spec fn sum_upto(s: Seq<u64>, j: int) -> int
    decreases j,
{
    if j <= 0 {
        0
    } else {
        sum_upto(s, j - 1) + s[j - 1]
    }
}

pub open spec fn seq_sum(s: Seq<u64>) -> int {
    sum_upto(s, s.len() as int)
}

/// Value owed for one outcome: `amount * numerator / denominator`, rounded down.
pub open spec fn payout_term(amount: int, numerator: int, den: int) -> int {
    amount * numerator / den
}

/// Value owed for the first `j` outcomes, each term rounded down.
pub open spec fn payout_upto(amounts: Seq<int>, nums: Seq<u64>, den: int, j: int) -> int
    decreases j,
{
    if j <= 0 {
        0
    } else {
        payout_upto(amounts, nums, den, j - 1) + payout_term(amounts[j - 1], nums[j - 1] as int, den)
    }
}

pub open spec fn as_ints(s: Seq<u64>) -> Seq<int> {
    s.map_values(|x: u64| x as int)
}

/// Underlying value that outcome-token `amounts` are worth under a payout vector.
pub open spec fn payout_value(amounts: Seq<u64>, nums: Seq<u64>, den: u64) -> int {
    payout_upto(as_ints(amounts), nums, den as int, amounts.len() as int)
}

impl Question {
    pub open spec fn spec_is_resolved(&self) -> bool {
        self.payout_denominator != 0
    }

    /// What the vault assumes of a question: once resolved, the numerators
    /// sum to at most the denominator.
    pub open spec fn wf(&self) -> bool {
        self.spec_is_resolved() ==> seq_sum(self.payout_numerators@) <= self.payout_denominator
    }

    pub fn is_resolved(&self) -> (r: bool)
        ensures
            r == self.spec_is_resolved(),
    {
        self.payout_denominator != 0
    }

    pub fn num_outcomes(&self) -> (r: usize)
        ensures
            r == self.payout_numerators@.len(),
    {
        self.payout_numerators.len()
    }
}

/// The vault record: one per question and underlying asset.
#[derive(Clone, Debug)]
pub struct ConditionalVault {
    pub question: Address,
    pub underlying_token_mint: Address,
    pub underlying_token_account: Address,
    pub conditional_token_mints: Vec<Address>,
    pub pda_bump: u8,
    pub decimals: u8,
    pub seq_num: u64,
}

/// The balances a vault operation reads and writes, with the payout vector.
pub struct VaultBook {
    pub numerators: Seq<u64>,
    pub denominator: u64,
    /// Supply of each outcome token.
    pub supplies: Seq<u64>,
    /// The user's balance of each outcome token.
    pub balances: Seq<u64>,
    pub user_underlying: u64,
    pub vault_underlying: u64,
}

/// The vault's collateral rule: before resolution each outcome's supply is
/// covered one for one; after it, the payout owed on all supplies is covered.
pub open spec fn collateralized(
    numerators: Seq<u64>,
    denominator: u64,
    supplies: Seq<u64>,
    vault_underlying: u64,
) -> bool {
    if denominator != 0 {
        payout_value(supplies, numerators, denominator) <= vault_underlying
    } else {
        forall|i: int| 0 <= i < supplies.len() ==> supplies[i] <= vault_underlying
    }
}

impl VaultBook {
    pub open spec fn wf(self) -> bool {
        &&& self.supplies.len() == self.numerators.len()
        &&& self.balances.len() == self.numerators.len()
        &&& forall|i: int| 0 <= i < self.balances.len() ==> self.balances[i] <= self.supplies[i]
        &&& self.denominator != 0 ==> seq_sum(self.numerators) <= self.denominator
    }

    pub open spec fn is_resolved(self) -> bool {
        self.denominator != 0
    }

    /// What the user's outcome balances are worth.
    pub open spec fn redeemable(self) -> int {
        payout_value(self.balances, self.numerators, self.denominator)
    }

    pub open spec fn redeem_error(self) -> Option<VaultError> {
        if !self.is_resolved() {
            Some(VaultError::CantRedeemConditionalTokens)
        } else if self.redeemable() > self.vault_underlying {
            Some(VaultError::InsufficientVaultFunds)
        } else if self.user_underlying + self.redeemable() > u64::MAX {
            Some(VaultError::Overflow)
        } else if !collateralized(
            self.numerators,
            self.denominator,
            self.after_redeem().supplies,
            self.after_redeem().vault_underlying,
        ) {
            Some(VaultError::AssertFailed)
        } else {
            None
        }
    }

    /// Every outcome balance burnt and its payout moved from the vault to the user.
    pub open spec fn after_redeem(self) -> VaultBook {
        VaultBook {
            supplies: Seq::new(
                self.supplies.len(),
                |i: int| (self.supplies[i] - self.balances[i]) as u64,
            ),
            balances: Seq::new(self.balances.len(), |i: int| 0u64),
            user_underlying: (self.user_underlying + self.redeemable()) as u64,
            vault_underlying: (self.vault_underlying - self.redeemable()) as u64,
            ..self
        }
    }

    pub open spec fn mint_error(self, amount: u64) -> Option<VaultError> {
        if self.user_underlying < amount {
            Some(VaultError::InsufficientUnderlyingTokens)
        } else if self.vault_underlying + amount > u64::MAX || exists|i: int|
            0 <= i < self.supplies.len() && self.supplies[i] + amount > u64::MAX {
            Some(VaultError::Overflow)
        } else if !collateralized(
            self.numerators,
            self.denominator,
            self.after_mint(amount).supplies,
            self.after_mint(amount).vault_underlying,
        ) {
            Some(VaultError::AssertFailed)
        } else {
            None
        }
    }

    /// `amount` underlying moved from the user to the vault, and `amount` of
    /// every outcome token minted to the user.
    pub open spec fn after_mint(self, amount: u64) -> VaultBook {
        VaultBook {
            supplies: Seq::new(self.supplies.len(), |i: int| (self.supplies[i] + amount) as u64),
            balances: Seq::new(self.balances.len(), |i: int| (self.balances[i] + amount) as u64),
            user_underlying: (self.user_underlying - amount) as u64,
            vault_underlying: (self.vault_underlying + amount) as u64,
            ..self
        }
    }
}


pub(crate) proof fn lemma_sum_upto_mono(s: Seq<u64>, j: int, k: int)
    requires
        0 <= j <= k <= s.len(),
    ensures
        0 <= sum_upto(s, j) <= sum_upto(s, k),
    decreases k,
{
    if k > j {
        lemma_sum_upto_mono(s, j, k - 1);
    } else if j > 0 {
        lemma_sum_upto_mono(s, j - 1, j - 1);
    }
}

proof fn lemma_term_bound(a: int, n: int, den: int, m: int)
    requires
        den > 0,
        0 <= a <= m,
        n >= 0,
    ensures
        0 <= payout_term(a, n, den),
        payout_term(a, n, den) * den <= m * n,
        payout_term(a, n, den) * den <= a * n,
{
    assert(0 <= a * n <= m * n) by (nonlinear_arith)
        requires
            0 <= a <= m,
            n >= 0,
    ;
    vstd::arithmetic::div_mod::lemma_fundamental_div_mod(a * n, den);
    vstd::arithmetic::div_mod::lemma_mod_bound(a * n, den);
    vstd::arithmetic::div_mod::lemma_div_pos_is_pos(a * n, den);
    assert(payout_term(a, n, den) * den == den * (a * n / den)) by (nonlinear_arith);
}

/// Weighted by numerators that sum to `sum_upto(nums, j)`, amounts of at
/// most `m` are worth at most `m` times that sum over the denominator.
pub(crate) proof fn lemma_payout_scaled_bound(a: Seq<int>, nums: Seq<u64>, den: int, m: int, j: int)
    requires
        den > 0,
        m >= 0,
        0 <= j <= a.len(),
        j <= nums.len(),
        forall|i: int| 0 <= i < j ==> 0 <= #[trigger] a[i] <= m,
    ensures
        0 <= payout_upto(a, nums, den, j),
        payout_upto(a, nums, den, j) * den <= m * sum_upto(nums, j),
    decreases j,
{
    if j > 0 {
        lemma_payout_scaled_bound(a, nums, den, m, j - 1);
        let n = nums[j - 1] as int;
        lemma_term_bound(a[j - 1], n, den, m);
        let p = payout_upto(a, nums, den, j - 1);
        let t = payout_term(a[j - 1], n, den);
        let s = sum_upto(nums, j - 1);
        assert((p + t) * den <= m * (s + n)) by (nonlinear_arith)
            requires
                p * den <= m * s,
                t * den <= m * n,
        ;
    }
}

/// Under a valid payout vector, outcome amounts of at most `m` each are
/// worth at most `m`, on every prefix.
pub(crate) proof fn lemma_payout_at_most(a: Seq<u64>, nums: Seq<u64>, den: u64, m: int, j: int)
    requires
        den > 0,
        a.len() == nums.len(),
        seq_sum(nums) <= den,
        0 <= j <= a.len(),
        m >= 0,
        forall|i: int| 0 <= i < a.len() ==> #[trigger] a[i] <= m,
    ensures
        0 <= payout_upto(as_ints(a), nums, den as int, j) <= m,
{
    let ai = as_ints(a);
    assert forall|i: int| 0 <= i < j implies 0 <= #[trigger] ai[i] <= m by {
        assert(ai[i] == a[i] as int);
    }
    lemma_payout_scaled_bound(ai, nums, den as int, m, j);
    lemma_sum_upto_mono(nums, j, nums.len() as int);
    let p = payout_upto(ai, nums, den as int, j);
    let s = sum_upto(nums, j);
    assert(p <= m) by (nonlinear_arith)
        requires
            p * den <= m * s,
            0 <= s <= den,
            den > 0,
            m >= 0,
    ;
}

/// Computes `payout_value` of `amounts`.
pub fn payout_of(amounts: &Vec<u64>, nums: &Vec<u64>, den: u64) -> (r: u64)
    requires
        den > 0,
        amounts@.len() == nums@.len(),
        seq_sum(nums@) <= den,
    ensures
        r == payout_value(amounts@, nums@, den),
{
    let n = amounts.len();
    let mut total: u64 = 0;
    let mut i: usize = 0;
    while i < n
        invariant
            n == amounts@.len(),
            n == nums@.len(),
            den > 0,
            seq_sum(nums@) <= den,
            0 <= i <= n,
            total == payout_upto(as_ints(amounts@), nums@, den as int, i as int),
        decreases n - i,
    {
        proof {
            lemma_payout_at_most(amounts@, nums@, den, u64::MAX as int, i as int);
            lemma_payout_at_most(amounts@, nums@, den, u64::MAX as int, i + 1);
            assert(as_ints(amounts@)[i as int] == amounts@[i as int] as int);
        }
        assert(amounts[i as int] * nums[i as int] <= u64::MAX * u64::MAX) by (nonlinear_arith)
            requires
                amounts[i as int] <= u64::MAX,
                nums[i as int] <= u64::MAX,
        ;
        let term: u128 = amounts[i] as u128 * nums[i] as u128 / den as u128;
        total = total + term as u64;
        i = i + 1;
    }
    total
}

impl ConditionalVault {
    /// Checks the collateral rule for the given outcome supplies and vault
    /// balance.
    pub fn check_invariant(
        &self,
        question: &Question,
        conditional_token_supplies: &Vec<u64>,
        vault_underlying_balance: u64,
    ) -> (r: Result<(), VaultError>)
        requires
            question.wf(),
            conditional_token_supplies@.len() == question.payout_numerators@.len(),
        ensures
            r is Ok <==> collateralized(
                question.payout_numerators@,
                question.payout_denominator,
                conditional_token_supplies@,
                vault_underlying_balance,
            ),
            r is Err ==> r == Err::<(), VaultError>(VaultError::AssertFailed),
    {
        if question.is_resolved() {
            let owed = payout_of(
                conditional_token_supplies,
                &question.payout_numerators,
                question.payout_denominator,
            );
            if owed > vault_underlying_balance {
                return Err(VaultError::AssertFailed);
            }
        } else {
            let mut i: usize = 0;
            while i < conditional_token_supplies.len()
                invariant
                    question.payout_denominator == 0,
                    0 <= i <= conditional_token_supplies@.len(),
                    forall|k: int|
                        0 <= k < i ==> conditional_token_supplies@[k] <= vault_underlying_balance,
                decreases conditional_token_supplies@.len() - i,
            {
                if conditional_token_supplies[i] > vault_underlying_balance {
                    assert(conditional_token_supplies@[i as int] > vault_underlying_balance);
                    return Err(VaultError::AssertFailed);
                }
                i = i + 1;
            }
        }
        Ok(())
    }
}

} // verus!

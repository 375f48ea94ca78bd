use vstd::prelude::*;
use crate::conditional_vault::{
    as_ints,
    payout_term,
    payout_upto,
    payout_value,
    seq_sum,
    sum_upto,
    VaultBook,
};

verus! {

proof fn lemma_payout_of_zeros(a: Seq<int>, nums: Seq<u64>, den: int, j: int)
    requires
        den > 0,
        0 <= j <= a.len(),
        forall|i: int| 0 <= i < j ==> a[i] == 0,
    ensures
        payout_upto(a, nums, den, j) == 0,
    decreases j,
{
    if j > 0 {
        lemma_payout_of_zeros(a, nums, den, j - 1);
        assert(a[j - 1] * nums[j - 1] == 0);
    }
}

/// Redeeming a second time, once every outcome balance has been burnt,
/// releases nothing and leaves every balance as it was.
pub proof fn lemma_redeem_twice(book: VaultBook)
    requires
        book.wf(),
        book.redeem_error() is None,
    ensures
        book.after_redeem().wf(),
        book.after_redeem().redeem_error() is None,
        book.after_redeem().redeemable() == 0,
        book.after_redeem().after_redeem() == book.after_redeem(),
{
    let once = book.after_redeem();
    lemma_payout_of_zeros(
        as_ints(once.balances),
        once.numerators,
        once.denominator as int,
        once.balances.len() as int,
    );
    let twice = once.after_redeem();
    assert(twice.supplies =~= once.supplies);
    assert(twice.balances =~= once.balances);
    assert(twice == once);
}

proof fn lemma_single_winner_payout(
    a: Seq<int>,
    nums: Seq<u64>,
    den: u64,
    amount: int,
    winner: int,
    j: int,
)
    requires
        den > 0,
        amount >= 0,
        0 <= j <= a.len(),
        j <= nums.len(),
        forall|i: int| 0 <= i < a.len() ==> a[i] == amount,
        forall|i: int| 0 <= i < nums.len() && i != winner ==> nums[i] == 0,
        0 <= winner < nums.len() ==> nums[winner] == den,
    ensures
        payout_upto(a, nums, den as int, j) == if 0 <= winner < j {
            amount
        } else {
            0
        },
    decreases j,
{
    if j > 0 {
        lemma_single_winner_payout(a, nums, den, amount, winner, j - 1);
        if j - 1 == winner {
            assert(amount * den / (den as int) == amount) by (nonlinear_arith)
                requires
                    den > 0,
            ;
        } else {
            assert(amount * nums[j - 1] == 0);
        }
    }
}

/// Minting `amount` for a user who holds no outcome tokens, and redeeming
/// after the question resolves with the whole denominator on one outcome,
/// returns exactly `amount`.
pub proof fn lemma_mint_then_redeem(
    book: VaultBook,
    amount: u64,
    resolved_numerators: Seq<u64>,
    denominator: u64,
    winner: int,
)
    requires
        book.wf(),
        book.mint_error(amount) is None,
        forall|i: int| 0 <= i < book.balances.len() ==> book.balances[i] == 0,
        resolved_numerators.len() == book.numerators.len(),
        denominator > 0,
        0 <= winner < resolved_numerators.len(),
        resolved_numerators[winner] == denominator,
        forall|i: int|
            0 <= i < resolved_numerators.len() && i != winner ==> resolved_numerators[i] == 0,
    ensures
        book.after_mint(amount).balances.len() == book.balances.len(),
        (VaultBook {
            numerators: resolved_numerators,
            denominator,
            ..book.after_mint(amount)
        }).redeemable() == amount,
{
    let minted = book.after_mint(amount);
    let held = as_ints(minted.balances);
    assert forall|i: int| 0 <= i < held.len() implies held[i] == amount by {
        assert(held[i] == minted.balances[i] as int);
    }
    lemma_single_winner_payout(
        held,
        resolved_numerators,
        denominator,
        amount as int,
        winner,
        held.len() as int,
    );
}

/// Sum over the first `j` owners of their balance of outcome `i`.
pub open spec fn column_sum(holdings: Seq<Seq<u64>>, i: int, j: int) -> int
    decreases j,
{
    if j <= 0 {
        0
    } else {
        column_sum(holdings, i, j - 1) + holdings[j - 1][i]
    }
}

/// Underlying released to the first `j` owners, each redeeming all it holds.
pub open spec fn released_total(holdings: Seq<Seq<u64>>, nums: Seq<u64>, den: u64, j: int) -> int
    decreases j,
{
    if j <= 0 {
        0
    } else {
        released_total(holdings, nums, den, j - 1) + payout_value(holdings[j - 1], nums, den)
    }
}

proof fn lemma_term_superadditive(a: int, b: int, n: int, den: int)
    requires
        a >= 0,
        b >= 0,
        n >= 0,
        den > 0,
    ensures
        payout_term(a, n, den) + payout_term(b, n, den) <= payout_term(a + b, n, den),
{
    let x = a * n;
    let y = b * n;
    assert((a + b) * n == x + y) by (nonlinear_arith)
        requires
            x == a * n,
            y == b * n,
    ;
    assert(x >= 0 && y >= 0) by (nonlinear_arith)
        requires
            a >= 0,
            b >= 0,
            n >= 0,
            x == a * n,
            y == b * n,
    ;
    vstd::arithmetic::div_mod::lemma_fundamental_div_mod(x, den);
    vstd::arithmetic::div_mod::lemma_fundamental_div_mod(y, den);
    vstd::arithmetic::div_mod::lemma_mod_bound(x, den);
    vstd::arithmetic::div_mod::lemma_mod_bound(y, den);
    let q = x / den + y / den;
    assert(q * den <= x + y) by (nonlinear_arith)
        requires
            x == den * (x / den) + x % den,
            y == den * (y / den) + y % den,
            x % den >= 0,
            y % den >= 0,
            q == x / den + y / den,
    ;
    vstd::arithmetic::div_mod::lemma_div_is_ordered(q * den, x + y, den);
    vstd::arithmetic::div_mod::lemma_div_multiples_vanish(q, den);
    assert(q * den == den * q) by (nonlinear_arith);
}

proof fn lemma_payout_superadditive(a: Seq<int>, b: Seq<int>, nums: Seq<u64>, den: int, j: int)
    requires
        den > 0,
        a.len() == b.len(),
        0 <= j <= a.len(),
        forall|i: int| 0 <= i < a.len() ==> a[i] >= 0 && b[i] >= 0,
    ensures
        payout_upto(a, nums, den, j) + payout_upto(b, nums, den, j) <= payout_upto(
            Seq::new(a.len(), |i: int| a[i] + b[i]),
            nums,
            den,
            j,
        ),
    decreases j,
{
    if j > 0 {
        lemma_payout_superadditive(a, b, nums, den, j - 1);
        lemma_term_superadditive(a[j - 1], b[j - 1], nums[j - 1] as int, den);
    }
}

proof fn lemma_column_sum_nonneg(holdings: Seq<Seq<u64>>, i: int, j: int)
    ensures
        column_sum(holdings, i, j) >= 0,
    decreases j,
{
    if j > 0 {
        lemma_column_sum_nonneg(holdings, i, j - 1);
    }
}

proof fn lemma_released_within_columns(
    holdings: Seq<Seq<u64>>,
    nums: Seq<u64>,
    den: u64,
    n: nat,
    j: int,
)
    requires
        den > 0,
        nums.len() == n,
        0 <= j <= holdings.len(),
        forall|k: int| 0 <= k < holdings.len() ==> (#[trigger] holdings[k]).len() == n,
    ensures
        released_total(holdings, nums, den, j) <= payout_upto(
            Seq::new(n, |i: int| column_sum(holdings, i, j)),
            nums,
            den as int,
            n as int,
        ),
    decreases j,
{
    let cols = Seq::new(n, |i: int| column_sum(holdings, i, j));
    if j == 0 {
        lemma_payout_of_zeros(cols, nums, den as int, n as int);
    } else {
        lemma_released_within_columns(holdings, nums, den, n, j - 1);
        let prev = Seq::new(n, |i: int| column_sum(holdings, i, j - 1));
        let last = as_ints(holdings[j - 1]);
        assert forall|i: int| 0 <= i < n implies prev[i] >= 0 && last[i] >= 0 by {
            lemma_column_sum_nonneg(holdings, i, j - 1);
        }
        lemma_payout_superadditive(prev, last, nums, den as int, n as int);
        assert(Seq::new(n, |i: int| prev[i] + last[i]) =~= cols);
    }
}

/// However the outcome supply is split among owners, the underlying they
/// are paid in total by redeeming all they hold never exceeds what the vault
/// held before the first redemption, provided every outcome's supply was
/// covered one for one and the payout vector is valid.
pub proof fn lemma_no_over_issuance(
    numerators: Seq<u64>,
    denominator: u64,
    supplies: Seq<u64>,
    vault_underlying: u64,
    holdings: Seq<Seq<u64>>,
)
    requires
        denominator > 0,
        seq_sum(numerators) <= denominator,
        supplies.len() == numerators.len(),
        forall|i: int| 0 <= i < supplies.len() ==> #[trigger] supplies[i] <= vault_underlying,
        forall|k: int| 0 <= k < holdings.len() ==> (#[trigger] holdings[k]).len() == supplies.len(),
        forall|i: int|
            0 <= i < supplies.len() ==> column_sum(holdings, i, holdings.len() as int)
                <= #[trigger] supplies[i],
    ensures
        released_total(holdings, numerators, denominator, holdings.len() as int)
            <= vault_underlying,
{
    let n = supplies.len();
    lemma_released_within_columns(holdings, numerators, denominator, n, holdings.len() as int);
    let cols = Seq::new(n, |i: int| column_sum(holdings, i, holdings.len() as int));
    assert forall|i: int| 0 <= i < n implies 0 <= #[trigger] cols[i] <= vault_underlying by {
        lemma_column_sum_nonneg(holdings, i, holdings.len() as int);
        assert(cols[i] == column_sum(holdings, i, holdings.len() as int));
        assert(supplies[i] <= vault_underlying);
    }
    crate::conditional_vault::lemma_payout_scaled_bound(
        cols,
        numerators,
        denominator as int,
        vault_underlying as int,
        n as int,
    );
    crate::conditional_vault::lemma_sum_upto_mono(numerators, n as int, n as int);
    let p = payout_upto(cols, numerators, denominator as int, n as int);
    let s = sum_upto(numerators, n as int);
    assert(p <= vault_underlying) by (nonlinear_arith)
        requires
            p * denominator <= vault_underlying * s,
            0 <= s <= denominator,
            denominator > 0,
    ;
}

/// Underlying released by the first `j` redemptions of a run.
pub open spec fn run_released(books: Seq<VaultBook>, j: int) -> int
    decreases j,
{
    if j <= 0 {
        0
    } else {
        run_released(books, j - 1) + books[j - 1].redeemable()
    }
}

/// `books` is a run of successful redemptions, each by any owner, with no
/// deposit in between: every redemption starts from the supplies and the vault
/// balance that the one before it left.
pub open spec fn redemption_run(books: Seq<VaultBook>) -> bool {
    &&& books.len() > 0
    &&& forall|k: int|
        0 <= k < books.len() ==> (#[trigger] books[k]).wf() && books[k].redeem_error() is None
    &&& forall|k: int|
        1 <= k < books.len() ==> {
            &&& (#[trigger] books[k]).supplies == books[k - 1].after_redeem().supplies
            &&& books[k].vault_underlying == books[k - 1].after_redeem().vault_underlying
            &&& books[k].numerators == books[k - 1].numerators
            &&& books[k].denominator == books[k - 1].denominator
        }
}

proof fn lemma_run_prefix(books: Seq<VaultBook>, j: int)
    requires
        redemption_run(books),
        1 <= j <= books.len(),
    ensures
        run_released(books, j) == books[0].vault_underlying - books[j
            - 1].after_redeem().vault_underlying,
        0 <= books[j - 1].after_redeem().vault_underlying,
    decreases j,
{
    let b = books[j - 1];
    assert(b.wf() && b.redeem_error() is None);
    crate::conditional_vault::lemma_payout_at_most(
        b.balances,
        b.numerators,
        b.denominator,
        u64::MAX as int,
        b.balances.len() as int,
    );
    assert(b.after_redeem().vault_underlying == b.vault_underlying - b.redeemable());
    if j > 1 {
        lemma_run_prefix(books, j - 1);
        assert(books[j - 1].vault_underlying == books[j - 2].after_redeem().vault_underlying);
    } else {
        assert(run_released(books, 0) == 0);
    }
}

/// Over a run of redemptions by any owners with no deposit in between, the
/// underlying paid out in total is exactly what left the vault, so it never
/// exceeds what the vault held before the first redemption.
pub proof fn lemma_redemption_run_within_vault(books: Seq<VaultBook>)
    requires
        redemption_run(books),
    ensures
        run_released(books, books.len() as int) == books[0].vault_underlying - books.last().after_redeem().vault_underlying,
        run_released(books, books.len() as int) <= books[0].vault_underlying,
{
    lemma_run_prefix(books, books.len() as int);
}

} // verus!

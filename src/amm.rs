use vstd::prelude::*;

verus! {

/// Fees are expressed in basis points of this scale.
pub const BPS_SCALE: u64 = 10_000;

/// Fixed-point scale of the price recorded by the oracle (quote per base).
pub const PRICE_SCALE: u128 = 1_000_000_000_000;

/// Direction of a swap.
#[derive(Clone, Copy, Debug, PartialEq, Eq, Structural)]
pub enum SwapType {
    /// Quote in, base out.
    Buy,
    /// Base in, quote out.
    Sell,
}

#[derive(Clone, Copy, Debug, PartialEq, Eq, Structural)]
pub enum AmmError {
    /// The input amount is zero.
    ZeroInput,
    /// The pool holds no liquidity (no ownership has been issued).
    NoLiquidity,
    /// The pool's fee is above `BPS_SCALE`.
    InvalidFee,
    /// One side of the pool is empty, so the output would drain the other side.
    EmptyReserve,
    /// A reserve or the oracle accumulator would leave its integer range.
    Overflow,
    /// The output is below the caller's minimum.
    SlippageExceeded,
    /// A position for this owner and pool already exists.
    PositionExists,
}

/// Running time-weighted observation of the pool price.
#[derive(Clone, Copy, Debug, PartialEq, Eq, Structural)]
pub struct TwapState {
    pub last_updated_slot: u64,
    /// Sum over elapsed slots of the price that held during each slot.
    pub aggregator: u128,
    /// Price recorded at the last update, scaled by `PRICE_SCALE`.
    pub last_price: u128,
}

/// Reserve pair of a constant-product pool.
#[derive(Clone, Copy, Debug, PartialEq, Eq, Structural)]
pub struct Amm {
    pub base_amount: u64,
    pub quote_amount: u64,
    pub total_ownership: u64,
    pub swap_fee_bps: u16,
    pub twap: TwapState,
}

/// The constant product of two reserves.
pub open spec fn product(base: int, quote: int) -> int {
    base * quote
}

/// Input that remains after the fee, rounded down.
pub open spec fn input_after_fee(input: int, fee_bps: int) -> int {
    input * (BPS_SCALE - fee_bps) / (BPS_SCALE as int)
}

pub open spec fn ceil_div(a: int, b: int) -> int {
    (a + b - 1) / b
}

/// Output of a swap of `input` into a pool with reserves `reserve_in` and
/// `reserve_out`: the opposite reserve is lowered to the ceiling of the
/// product over the fee-reduced input side.
pub open spec fn swap_output(reserve_in: int, reserve_out: int, input: int, fee_bps: int) -> int {
    reserve_out - ceil_div(
        product(reserve_in, reserve_out),
        reserve_in + input_after_fee(input, fee_bps),
    )
}

impl Amm {
    pub open spec fn k(self) -> int {
        product(self.base_amount as int, self.quote_amount as int)
    }

    pub open spec fn reserve_in(self, swap_type: SwapType) -> int {
        match swap_type {
            SwapType::Buy => self.quote_amount as int,
            SwapType::Sell => self.base_amount as int,
        }
    }

    pub open spec fn reserve_out(self, swap_type: SwapType) -> int {
        match swap_type {
            SwapType::Buy => self.base_amount as int,
            SwapType::Sell => self.quote_amount as int,
        }
    }

    /// Why a swap of `input` in direction `swap_type` is refused, if it is.
    pub open spec fn swap_error(self, input: u64, swap_type: SwapType) -> Option<AmmError> {
        if input == 0 {
            Some(AmmError::ZeroInput)
        } else if self.total_ownership == 0 {
            Some(AmmError::NoLiquidity)
        } else if self.swap_fee_bps > BPS_SCALE {
            Some(AmmError::InvalidFee)
        } else if self.base_amount == 0 || self.quote_amount == 0 {
            Some(AmmError::EmptyReserve)
        } else if self.reserve_in(swap_type) + input > u64::MAX {
            Some(AmmError::Overflow)
        } else {
            None
        }
    }

    pub open spec fn spec_swap_output(self, input: u64, swap_type: SwapType) -> int {
        swap_output(
            self.reserve_in(swap_type),
            self.reserve_out(swap_type),
            input as int,
            self.swap_fee_bps as int,
        )
    }

    /// The pool after a swap: the input side gains the whole input (the fee
    /// stays in the pool) and the output side loses `output`.
    pub open spec fn after_swap(self, input: u64, output: u64, swap_type: SwapType) -> Amm {
        match swap_type {
            SwapType::Buy => Amm {
                base_amount: (self.base_amount - output) as u64,
                quote_amount: (self.quote_amount + input) as u64,
                ..self
            },
            SwapType::Sell => Amm {
                base_amount: (self.base_amount + input) as u64,
                quote_amount: (self.quote_amount - output) as u64,
                ..self
            },
        }
    }
}


proof fn lemma_fee_bounds(input: int, fee_bps: int)
    requires
        input >= 0,
        0 <= fee_bps <= BPS_SCALE,
    ensures
        0 <= input_after_fee(input, fee_bps) <= input,
        fee_bps == 0 ==> input_after_fee(input, fee_bps) == input,
{
    assert(0 <= input * (BPS_SCALE - fee_bps) <= input * BPS_SCALE) by (nonlinear_arith)
        requires
            input >= 0,
            0 <= fee_bps <= BPS_SCALE,
    ;
    assert(input * BPS_SCALE / (BPS_SCALE as int) == input) by (nonlinear_arith);
    vstd::arithmetic::div_mod::lemma_div_is_ordered(
        input * (BPS_SCALE - fee_bps),
        input * BPS_SCALE,
        BPS_SCALE as int,
    );
}

proof fn lemma_ceil_div(a: int, b: int)
    requires
        a >= 0,
        b > 0,
    ensures
        b * ceil_div(a, b) >= a,
        b * ceil_div(a, b) < a + b,
        a > 0 ==> ceil_div(a, b) >= 1,
        a % b == 0 ==> b * ceil_div(a, b) == a,
{
    vstd::arithmetic::div_mod::lemma_fundamental_div_mod(a + b - 1, b);
    vstd::arithmetic::div_mod::lemma_fundamental_div_mod(a, b);
    vstd::arithmetic::div_mod::lemma_mod_bound(a + b - 1, b);
    vstd::arithmetic::div_mod::lemma_mod_bound(a, b);
    if a > 0 {
        vstd::arithmetic::div_mod::lemma_div_is_ordered(b, a + b - 1, b);
        assert(b / b == 1) by (nonlinear_arith)
            requires
                b > 0,
        ;
    }
    if a % b == 0 {
        assert(a + b - 1 == b * (a / b) + (b - 1));
        vstd::arithmetic::div_mod::lemma_div_multiples_vanish_fancy(a / b, b - 1, b);
    }
}

proof fn lemma_ceil_at_most(r_in: int, r_out: int, eff: int)
    requires
        r_in > 0,
        r_out > 0,
        eff >= r_in,
    ensures
        1 <= ceil_div(product(r_in, r_out), eff) <= r_out,
{
    let k = product(r_in, r_out);
    assert(k >= 1 && k <= eff * r_out) by (nonlinear_arith)
        requires
            k == r_in * r_out,
            r_in >= 1,
            r_out >= 1,
            eff >= r_in,
    ;
    lemma_ceil_div(k, eff);
    let c = ceil_div(k, eff);
    if c > r_out {
        assert(eff * c >= eff * (r_out + 1)) by (nonlinear_arith)
            requires
                c >= r_out + 1,
                eff > 0,
        ;
        assert(eff * (r_out + 1) == eff * r_out + eff) by (nonlinear_arith);
    }
}

/// A swap accepted by the pool never drains the opposite reserve and never
/// lowers the constant product; without a fee the product is kept exactly
/// whenever the new input reserve divides it.
pub proof fn lemma_swap_keeps_product(amm: Amm, input: u64, swap_type: SwapType)
    requires
        amm.swap_error(input, swap_type).is_none(),
    ensures
        0 <= amm.spec_swap_output(input, swap_type) < amm.reserve_out(swap_type),
        amm.after_swap(input, amm.spec_swap_output(input, swap_type) as u64, swap_type).k()
            >= amm.k(),
        amm.swap_fee_bps == 0 && amm.k() % (amm.reserve_in(swap_type) + input) == 0 ==> amm.after_swap(
            input,
            amm.spec_swap_output(input, swap_type) as u64,
            swap_type,
        ).k() == amm.k(),
{
    let r_in = amm.reserve_in(swap_type);
    let r_out = amm.reserve_out(swap_type);
    let fee = amm.swap_fee_bps as int;
    lemma_fee_bounds(input as int, fee);
    let eff = r_in + input_after_fee(input as int, fee);
    let k = product(r_in, r_out);
    assert(k == amm.k()) by (nonlinear_arith)
        requires
            k == r_in * r_out,
            amm.k() == amm.base_amount * amm.quote_amount,
            (r_in == amm.base_amount && r_out == amm.quote_amount) || (r_in == amm.quote_amount
                && r_out == amm.base_amount),
    ;
    assert(k >= 1) by (nonlinear_arith)
        requires
            k == r_in * r_out,
            r_in >= 1,
            r_out >= 1,
    ;
    lemma_ceil_div(k, eff);
    let new_out = ceil_div(k, eff);
    lemma_ceil_at_most(r_in, r_out, eff);
    let out = amm.spec_swap_output(input, swap_type);
    assert(out == r_out - new_out);
    let after = amm.after_swap(input, out as u64, swap_type);
    assert(after.k() == (r_in + input) * new_out) by (nonlinear_arith)
        requires
            (swap_type == SwapType::Buy ==> after.base_amount == new_out && after.quote_amount
                == r_in + input),
            (swap_type == SwapType::Sell ==> after.quote_amount == new_out && after.base_amount
                == r_in + input),
            after.k() == after.base_amount * after.quote_amount,
    ;
    assert((r_in + input) * new_out >= eff * new_out) by (nonlinear_arith)
        requires
            r_in + input >= eff,
            new_out >= 0,
    ;
}

/// Computes the output of a swap from the reserves and the fee.
fn compute_swap_output(reserve_in: u64, reserve_out: u64, input: u64, fee_bps: u16) -> (out: u64)
    requires
        reserve_in > 0,
        reserve_out > 0,
        fee_bps <= BPS_SCALE,
    ensures
        out as int == swap_output(reserve_in as int, reserve_out as int, input as int, fee_bps as int),
        out < reserve_out,
{
    proof {
        lemma_fee_bounds(input as int, fee_bps as int);
    }
    assert(reserve_in * reserve_out <= u64::MAX * u64::MAX) by (nonlinear_arith)
        requires
            reserve_in <= u64::MAX,
            reserve_out <= u64::MAX,
    ;
    let k: u128 = reserve_in as u128 * reserve_out as u128;
    let fee_kept: u128 = (BPS_SCALE - fee_bps as u64) as u128;
    assert(input * fee_kept <= input * 10_000) by (nonlinear_arith)
        requires
            fee_kept <= 10_000,
    ;
    let after_fee: u128 = input as u128 * fee_kept / (BPS_SCALE as u128);
    let eff: u128 = reserve_in as u128 + after_fee;
    proof {
        let ki = k as int;
        assert(ki <= (u64::MAX as int) * (u64::MAX as int)) by (nonlinear_arith)
            requires
                ki == reserve_in * reserve_out,
                reserve_in <= u64::MAX,
                reserve_out <= u64::MAX,
        ;
        assert(ki >= 1) by (nonlinear_arith)
            requires
                ki == reserve_in * reserve_out,
                reserve_in >= 1,
                reserve_out >= 1,
        ;
        lemma_ceil_div(ki, eff as int);
        lemma_ceil_at_most(reserve_in as int, reserve_out as int, eff as int);
    }
    let new_out: u128 = (k + eff - 1) / eff;
    (reserve_out as u128 - new_out) as u64
}

impl Amm {
    /// Swaps `input_amount` into the pool in direction `swap_type` and
    /// returns the output handed back. On an error nothing changes.
    pub fn swap(&mut self, input_amount: u64, swap_type: SwapType) -> (r: Result<u64, AmmError>)
        ensures
            match r {
                Ok(output) => {
                    &&& old(self).swap_error(input_amount, swap_type).is_none()
                    &&& output as int == old(self).spec_swap_output(input_amount, swap_type)
                    &&& (output as int) < old(self).reserve_out(swap_type)
                    &&& *final(self) == old(self).after_swap(input_amount, output, swap_type)
                    &&& final(self).k() >= old(self).k()
                },
                Err(e) => {
                    &&& old(self).swap_error(input_amount, swap_type) == Some(e)
                    &&& *final(self) == *old(self)
                },
            },
    {
        if input_amount == 0 {
            return Err(AmmError::ZeroInput);
        }
        if self.total_ownership == 0 {
            return Err(AmmError::NoLiquidity);
        }
        if self.swap_fee_bps as u64 > BPS_SCALE {
            return Err(AmmError::InvalidFee);
        }
        if self.base_amount == 0 || self.quote_amount == 0 {
            return Err(AmmError::EmptyReserve);
        }
        let (reserve_in, reserve_out) = match swap_type {
            SwapType::Buy => (self.quote_amount, self.base_amount),
            SwapType::Sell => (self.base_amount, self.quote_amount),
        };
        if input_amount > u64::MAX - reserve_in {
            return Err(AmmError::Overflow);
        }
        let output = compute_swap_output(reserve_in, reserve_out, input_amount, self.swap_fee_bps);
        proof {
            lemma_swap_keeps_product(*self, input_amount, swap_type);
        }
        match swap_type {
            SwapType::Buy => {
                self.quote_amount = reserve_in + input_amount;
                self.base_amount = reserve_out - output;
            },
            SwapType::Sell => {
                self.base_amount = reserve_in + input_amount;
                self.quote_amount = reserve_out - output;
            },
        }
        Ok(output)
    }
}


impl Amm {
    /// Quote per base, scaled by `PRICE_SCALE`; zero for an empty base side.
    pub open spec fn spot_price(self) -> int {
        if self.base_amount == 0 {
            0
        } else {
            self.quote_amount * PRICE_SCALE / (self.base_amount as int)
        }
    }

    /// The oracle after an update at `slot`, or `None` where the accumulator
    /// would overflow. Within the slot of the last update nothing changes;
    /// later, the current price is credited for each slot elapsed.
    pub open spec fn twap_after(self, slot: u64) -> Option<TwapState> {
        if slot <= self.twap.last_updated_slot {
            Some(self.twap)
        } else {
            let aggregator = self.twap.aggregator + self.spot_price() * (slot
                - self.twap.last_updated_slot);
            if aggregator > u128::MAX {
                None
            } else {
                Some(
                    TwapState {
                        last_updated_slot: slot,
                        aggregator: aggregator as u128,
                        last_price: self.spot_price() as u128,
                    },
                )
            }
        }
    }

    fn current_price(&self) -> (p: u128)
        ensures
            p == self.spot_price(),
    {
        if self.base_amount == 0 {
            0
        } else {
            assert(self.quote_amount * PRICE_SCALE <= u64::MAX * PRICE_SCALE) by (nonlinear_arith)
                requires
                    self.quote_amount <= u64::MAX,
            ;
            self.quote_amount as u128 * PRICE_SCALE / self.base_amount as u128
        }
    }

    /// Credits the oracle with the price that held since its last update.
    /// Reserves are untouched; the accumulator never decreases.
    pub fn update_twap(&mut self, current_slot: u64) -> (r: Result<(), AmmError>)
        ensures
            match old(self).twap_after(current_slot) {
                Some(twap) => r == Ok::<(), AmmError>(()) && *final(self) == (Amm { twap, ..*old(self) }),
                None => r == Err::<(), AmmError>(AmmError::Overflow) && *final(self) == *old(self),
            },
            final(self).twap.aggregator >= old(self).twap.aggregator,
            current_slot <= old(self).twap.last_updated_slot ==> *final(self) == *old(self),
    {
        if current_slot <= self.twap.last_updated_slot {
            return Ok(());
        }
        let price = self.current_price();
        let elapsed: u128 = (current_slot - self.twap.last_updated_slot) as u128;
        let credit = match price.checked_mul(elapsed) {
            Some(c) => c,
            None => {
                assert(self.twap.aggregator + price * elapsed > u128::MAX);
                return Err(AmmError::Overflow);
            },
        };
        let aggregator = match self.twap.aggregator.checked_add(credit) {
            Some(a) => a,
            None => return Err(AmmError::Overflow),
        };
        self.twap = TwapState { last_updated_slot: current_slot, aggregator, last_price: price };
        Ok(())
    }
}

} // verus!

use vstd::prelude::*;
use crate::amm::{Amm, AmmError, SwapType};

verus! {

/// What a swap instruction does to a pool: the pool and the output, or the
/// error that refuses it.
pub open spec fn swap_outcome(
    amm: Amm,
    swap_type: SwapType,
    input_amount: u64,
    output_amount_min: u64,
    current_slot: u64,
) -> Result<(Amm, u64), AmmError> {
    if input_amount == 0 {
        Err(AmmError::ZeroInput)
    } else if amm.total_ownership == 0 {
        Err(AmmError::NoLiquidity)
    } else {
        match amm.twap_after(current_slot) {
            None => Err(AmmError::Overflow),
            Some(twap) => {
                let observed = Amm { twap, ..amm };
                match observed.swap_error(input_amount, swap_type) {
                    Some(e) => Err(e),
                    None => {
                        let output = observed.spec_swap_output(input_amount, swap_type);
                        if output < output_amount_min {
                            Err(AmmError::SlippageExceeded)
                        } else {
                            Ok((observed.after_swap(input_amount, output as u64, swap_type), output as u64))
                        }
                    },
                }
            },
        }
    }
}

/// Runs a swap instruction against `amm` at `current_slot`: the oracle is
/// credited with the pre-swap price, the swap is priced and the output is
/// held to the caller's minimum. Either all of it applies or nothing does.
///
/// The caller then moves the tokens: for `Buy` the user sends `input_amount`
/// quote and receives the output in base; for `Sell` the user sends base
/// and receives quote.
pub fn handler(
    amm: &mut Amm,
    swap_type: SwapType,
    input_amount: u64,
    output_amount_min: u64,
    current_slot: u64,
) -> (r: Result<u64, AmmError>)
    ensures
        match swap_outcome(*old(amm), swap_type, input_amount, output_amount_min, current_slot) {
            Ok((after, output)) => r == Ok::<u64, AmmError>(output) && *final(amm) == after,
            Err(e) => r == Err::<u64, AmmError>(e) && *final(amm) == *old(amm),
        },
        r is Ok ==> {
            &&& r->Ok_0 >= output_amount_min
            &&& (r->Ok_0 as int) < old(amm).reserve_out(swap_type)
            &&& final(amm).k() >= old(amm).k()
            &&& final(amm).twap.aggregator >= old(amm).twap.aggregator
        },
{
    if input_amount == 0 {
        return Err(AmmError::ZeroInput);
    }
    if amm.total_ownership == 0 {
        return Err(AmmError::NoLiquidity);
    }
    let mut next = *amm;
    next.update_twap(current_slot)?;
    let output = next.swap(input_amount, swap_type)?;
    if output < output_amount_min {
        return Err(AmmError::SlippageExceeded);
    }
    *amm = next;
    Ok(output)
}

} // verus!

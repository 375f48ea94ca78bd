use vstd::prelude::*;
use crate::amm::AmmError;
use crate::address::Address;

verus! {

/// A liquidity provider's share of one pool.
#[derive(Clone, Copy, Debug, PartialEq, Eq, Structural)]
pub struct AmmPosition {
    pub user: Address,
    pub amm: Address,
    pub ownership: u64,
}

/// The owner and the pool of a position to create.
#[derive(Clone, Copy, Debug, PartialEq, Eq, Structural)]
pub struct CreatePosition {
    pub user: Address,
    pub amm: Address,
}

/// Total ownership recorded for pool `amm`.
pub open spec fn pool_ownership(positions: Seq<AmmPosition>, amm: Address) -> int
    decreases positions.len(),
{
    if positions.len() == 0 {
        0
    } else {
        pool_ownership(positions.drop_last(), amm) + if positions.last().amm == amm {
            positions.last().ownership as int
        } else {
            0
        }
    }
}

pub open spec fn has_position(positions: Seq<AmmPosition>, user: Address, amm: Address) -> bool {
    exists|i: int| 0 <= i < positions.len() && positions[i].user == user && positions[i].amm == amm
}

/// At most one position per owner and pool.
pub open spec fn positions_unique(positions: Seq<AmmPosition>) -> bool {
    forall|i: int, j: int|
        0 <= i < j < positions.len() ==> !(positions[i].user == positions[j].user
            && positions[i].amm == positions[j].amm)
}

/// Opens a zero-ownership position for the owner and pool of `accounts`,
/// unless one exists already. Every pool's total ownership is unchanged.
pub fn handler(accounts: &CreatePosition, positions: &mut Vec<AmmPosition>) -> (r: Result<
    (),
    AmmError,
>)
    ensures
        has_position(old(positions)@, accounts.user, accounts.amm) ==> {
            &&& r == Err::<(), AmmError>(AmmError::PositionExists)
            &&& final(positions)@ == old(positions)@
        },
        !has_position(old(positions)@, accounts.user, accounts.amm) ==> {
            &&& r == Ok::<(), AmmError>(())
            &&& final(positions)@ == old(positions)@.push(
                AmmPosition { user: accounts.user, amm: accounts.amm, ownership: 0 },
            )
        },
        positions_unique(old(positions)@) ==> positions_unique(final(positions)@),
        forall|pool: Address|
            pool_ownership(final(positions)@, pool) == pool_ownership(old(positions)@, pool),
{
    let mut i: usize = 0;
    while i < positions.len()
        invariant
            0 <= i <= positions@.len(),
            forall|k: int|
                0 <= k < i ==> !(positions@[k].user == accounts.user && positions@[k].amm
                    == accounts.amm),
        decreases positions@.len() - i,
    {
        if positions[i].user == accounts.user && positions[i].amm == accounts.amm {
            return Err(AmmError::PositionExists);
        }
        i = i + 1;
    }
    let ghost before = positions@;
    positions.push(AmmPosition { user: accounts.user, amm: accounts.amm, ownership: 0 });
    assert(positions@.drop_last() =~= before);
    Ok(())
}

} // verus!

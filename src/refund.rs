use vstd::prelude::*;

verus! {

/// Launch tokens issued per unit of the funding asset.
pub const TOKENS_PER_USDC: u64 = 10_000;

#[derive(Clone, Copy, Debug, PartialEq, Eq, Structural)]
pub enum LaunchState {
    Initialized,
    Live,
    Complete,
    Refunding,
}

#[derive(Clone, Copy, Debug, PartialEq, Eq, Structural)]
pub enum LaunchpadError {
    /// Refunds are only paid while the launch is refunding.
    LaunchNotRefunding,
    /// The funder holds no launch tokens.
    InvalidAmount,
    /// The launch vault holds less than the refund.
    InsufficientFunds,
    /// The funder's balance would leave its integer range.
    Overflow,
}

/// The balances a refund reads and writes.
#[derive(Clone, Copy, Debug, PartialEq, Eq, Structural)]
pub struct Refund {
    pub launch_state: LaunchState,
    pub launch_usdc_vault: u64,
    pub funder_usdc: u64,
    pub funder_tokens: u64,
    pub token_supply: u64,
}

impl Refund {
    pub open spec fn wf(self) -> bool {
        self.funder_tokens <= self.token_supply
    }

    pub open spec fn refund_amount(self) -> u64 {
        (self.funder_tokens / TOKENS_PER_USDC) as u64
    }

    pub open spec fn refund_error(self) -> Option<LaunchpadError> {
        if self.funder_tokens == 0 {
            Some(LaunchpadError::InvalidAmount)
        } else if self.refund_amount() > self.launch_usdc_vault {
            Some(LaunchpadError::InsufficientFunds)
        } else if self.funder_usdc + self.refund_amount() > u64::MAX {
            Some(LaunchpadError::Overflow)
        } else {
            None
        }
    }

    pub fn validate(&self) -> (r: Result<(), LaunchpadError>)
        ensures
            r is Ok <==> self.launch_state == LaunchState::Refunding,
            r is Err ==> r == Err::<(), LaunchpadError>(LaunchpadError::LaunchNotRefunding),
    {
        if self.launch_state != LaunchState::Refunding {
            return Err(LaunchpadError::LaunchNotRefunding);
        }
        Ok(())
    }

    /// Pays the funder back one unit of the funding asset per
    /// `TOKENS_PER_USDC` launch tokens (rounded down) and burns all of the
    /// funder's launch tokens. Returns the amount paid back.
    pub fn handle(&mut self) -> (r: Result<u64, LaunchpadError>)
        requires
            old(self).wf(),
        ensures
            match old(self).refund_error() {
                Some(e) => r == Err::<u64, LaunchpadError>(e) && *final(self) == *old(self),
                None => {
                    &&& r == Ok::<u64, LaunchpadError>(old(self).refund_amount())
                    &&& *final(self) == (Refund {
                        launch_usdc_vault: (old(self).launch_usdc_vault
                            - old(self).refund_amount()) as u64,
                        funder_usdc: (old(self).funder_usdc + old(self).refund_amount()) as u64,
                        funder_tokens: 0,
                        token_supply: (old(self).token_supply - old(self).funder_tokens) as u64,
                        ..*old(self)
                    })
                },
            },
    {
        let user_token_balance = self.funder_tokens;
        if user_token_balance == 0 {
            return Err(LaunchpadError::InvalidAmount);
        }
        let refund = user_token_balance / TOKENS_PER_USDC;
        if refund > self.launch_usdc_vault {
            return Err(LaunchpadError::InsufficientFunds);
        }
        if refund > u64::MAX - self.funder_usdc {
            return Err(LaunchpadError::Overflow);
        }
        self.launch_usdc_vault = self.launch_usdc_vault - refund;
        self.funder_usdc = self.funder_usdc + refund;
        self.token_supply = self.token_supply - user_token_balance;
        self.funder_tokens = 0;
        Ok(refund)
    }
}

} // verus!

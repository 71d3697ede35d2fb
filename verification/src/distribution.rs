//! Registry for the periodic yield distributions to token holders.
//!
//! The registry fixes, once, the admin, the token and whitelist contracts it
//! serves and the only asset (the BRLA stablecoin) that it may ever pay out.
//! Executing a distribution is not available yet: every request to trigger
//! one is refused, so that no distribution is ever announced without the
//! payments behind it.
use vstd::prelude::*;
use crate::address::Address;

verus! {

/// What a completed distribution announces. Its asset is always the BRLA
/// contract registered at initialization.
#[derive(Clone, Copy, PartialEq, Eq, Debug, Structural)]
pub struct DistributionEvent {
    pub distribution_id: u64,
    pub total_amount: i128,
    pub per_token_amount: i128,
    pub holder_count: u32,
    pub executed_at: u64,
    pub asset: Address,
}

/// Why a call to the registry was refused.
#[derive(Clone, Copy, PartialEq, Eq, Debug, Structural)]
pub enum DistributionError {
    AlreadyInitialized,
    NotImplemented,
}

impl DistributionError {
    /// The text with which the contract aborts on this error.
    pub fn message(&self) -> (r: &'static str)
        ensures
            *self == DistributionError::AlreadyInitialized ==> r@ == "Already initialized"@,
            *self == DistributionError::NotImplemented
                ==> r@ == "trigger_distribution: not yet implemented — Tranche 3 deliverable"@,
    {
        match self {
            DistributionError::AlreadyInitialized => "Already initialized",
            DistributionError::NotImplemented => "trigger_distribution: not yet implemented — Tranche 3 deliverable",
        }
    }
}

/// Abstract state of the registry.
#[derive(Clone, Copy, PartialEq, Eq, Debug, Structural)]
pub struct DistributionState {
    pub admin: Option<Address>,
    pub token_contract: Option<Address>,
    pub kyc_contract: Option<Address>,
    pub brla_contract: Option<Address>,
    pub distribution_count: Option<u64>,
}

impl DistributionState {
    pub open spec fn uninitialized() -> DistributionState {
        DistributionState {
            admin: None,
            token_contract: None,
            kyc_contract: None,
            brla_contract: None,
            distribution_count: None,
        }
    }

    pub open spec fn initialize(
        self,
        admin: Address,
        token_contract: Address,
        kyc_contract: Address,
        brla_contract: Address,
    ) -> Result<DistributionState, DistributionError> {
        if self.admin is Some {
            Err(DistributionError::AlreadyInitialized)
        } else {
            Ok(
                DistributionState {
                    admin: Some(admin),
                    token_contract: Some(token_contract),
                    kyc_contract: Some(kyc_contract),
                    brla_contract: Some(brla_contract),
                    distribution_count: Some(0),
                },
            )
        }
    }

    /// Number of distributions announced so far.
    pub open spec fn count(self) -> u64 {
        match self.distribution_count {
            Some(n) => n,
            None => 0,
        }
    }
}

/// The distribution registry's state.
pub struct Distribution {
    state: DistributionState,
}

impl View for Distribution {
    type V = DistributionState;

    closed spec fn view(&self) -> DistributionState {
        self.state
    }
}

impl Distribution {
    /// A freshly deployed registry, before `initialize`.
    pub fn new() -> (r: Distribution)
        ensures
            r@ == DistributionState::uninitialized(),
    {
        Distribution {
            state: DistributionState {
                admin: None,
                token_contract: None,
                kyc_contract: None,
                brla_contract: None,
                distribution_count: None,
            },
        }
    }

    /// Rebuild the registry from its stored settings.
    pub fn restore(state: DistributionState) -> (r: Distribution)
        ensures
            r@ == state,
    {
        Distribution { state }
    }

    /// The registry's settings, as stored.
    pub fn state(&self) -> (r: DistributionState)
        ensures
            r == self@,
    {
        self.state
    }

    /// Register the admin, the contracts served and the payout asset, once.
    pub fn initialize(
        &mut self,
        admin: Address,
        token_contract: Address,
        kyc_contract: Address,
        brla_contract: Address,
    ) -> (r: Result<(), DistributionError>)
        ensures
            match old(self)@.initialize(admin, token_contract, kyc_contract, brla_contract) {
                Ok(s) => r == Ok::<(), DistributionError>(()) && final(self)@ == s,
                Err(e) => r == Err::<(), DistributionError>(e) && final(self)@ == old(self)@,
            },
    {
        if self.state.admin.is_some() {
            return Err(DistributionError::AlreadyInitialized);
        }
        self.state = DistributionState {
            admin: Some(admin),
            token_contract: Some(token_contract),
            kyc_contract: Some(kyc_contract),
            brla_contract: Some(brla_contract),
            distribution_count: Some(0),
        };
        Ok(())
    }

    /// Request a distribution of `total_amount` to the holders. Refused in
    /// every state: executing distributions is not available yet.
    pub fn trigger_distribution(&mut self, total_amount: i128) -> (r: Result<DistributionEvent, DistributionError>)
        ensures
            r == Err::<DistributionEvent, DistributionError>(DistributionError::NotImplemented),
            final(self)@ == old(self)@,
    {
        Err(DistributionError::NotImplemented)
    }

    /// Number of distributions announced so far.
    pub fn distribution_count(&self) -> (r: u64)
        ensures
            r == self@.count(),
    {
        match self.state.distribution_count {
            Some(n) => n,
            None => 0,
        }
    }

    /// The admin, or `None` before initialization.
    pub fn get_admin(&self) -> (r: Option<Address>)
        ensures
            r == self@.admin,
    {
        self.state.admin
    }

    /// The registered payout asset, or `None` before initialization.
    pub fn get_brla_contract(&self) -> (r: Option<Address>)
        ensures
            r == self@.brla_contract,
    {
        self.state.brla_contract
    }
}

/// The registry is configured once: initialization fixes the payout asset
/// and starts counting at zero, and a second initialization is refused with
/// the configuration unchanged.
pub proof fn lemma_configured_once(
    s: DistributionState,
    admin: Address,
    token_contract: Address,
    kyc_contract: Address,
    brla_contract: Address,
)
    ensures
        s.initialize(admin, token_contract, kyc_contract, brla_contract) matches Ok(t) ==> {
            &&& t.brla_contract == Some(brla_contract)
            &&& t.count() == 0
            &&& t.initialize(admin, token_contract, kyc_contract, brla_contract) == Err::<
                DistributionState,
                DistributionError,
            >(DistributionError::AlreadyInitialized)
        },
        s.admin is Some ==> s.initialize(admin, token_contract, kyc_contract, brla_contract) == Err::<
            DistributionState,
            DistributionError,
        >(DistributionError::AlreadyInitialized),
{
}

} // verus!

//! Abstract state of the offering token and the effect of each call on it.
//!
//! Each call is a function from the state before (and the facts that the
//! ledger supplies: identity approvals, the ledger sequence) to either the
//! state after together with the event announced, or the reason for refusal.
//! A refused call leaves the state as it was.
use vstd::prelude::*;
use crate::address::{Address, pairs_map};
use crate::balance_sum::{
    all_non_negative, lemma_one_bounded_by_sum, lemma_sum_empty, lemma_sum_insert,
    lemma_two_bounded_by_sum, sum_of,
};

verus! {

/// Token precision: seven decimal places, as the ledger's native asset.
pub const DECIMALS: u32 = 7;

/// Offering metadata authorized by the securities regulator, fixed at
/// initialization.
#[derive(Debug)]
pub struct OfferingMetadata {
    /// Internal offering identifier (e.g. "ARTP-HS").
    pub offering_id: String,
    /// Address of the property.
    pub property_address: String,
    /// Total raise in BRL cents.
    pub total_raise: i128,
    /// Largest number of token units that the authorization allows in circulation.
    pub max_supply: i128,
    /// Target internal rate of return in basis points (2080 = 20.80%).
    pub target_irr_bps: u32,
    /// Unix timestamp of the expected maturity.
    pub maturity_date: u64,
    /// Authorization code of the offering.
    pub cvm_authorization: String,
}

/// Who may spend from whose balance.
#[derive(Clone, Copy, PartialEq, Eq, Debug, Hash, Structural)]
pub struct AllowanceKey {
    pub from: Address,
    pub spender: Address,
}

/// How much may be spent, and until which ledger (inclusive).
#[derive(Clone, Copy, PartialEq, Eq, Debug, Structural)]
pub struct AllowanceValue {
    pub amount: i128,
    pub expiration_ledger: u32,
}

/// Why a call to the token was refused.
#[derive(Clone, Copy, PartialEq, Eq, Debug, Structural)]
pub enum TokenError {
    AlreadyInitialized,
    NotInitialized,
    NoPendingAdmin,
    NonPositiveAmount,
    Paused,
    Unauthorized,
    NotKycApproved,
    CapExceeded,
    Overflow,
    InsufficientBalance,
    NoAllowance,
    AllowanceExpired,
    InsufficientAllowance,
    ExpirationNotInFuture,
    NegativeAmount,
    NoBalance,
}

/// What a successful call announces on the ledger.
#[derive(Clone, Copy, PartialEq, Eq, Debug, Structural)]
pub enum TokenEvent {
    AdminProposed(Address),
    AdminAccepted(Address),
    OperatorSet(Address),
    KycContractUpdated { old: Address, new: Address },
    Paused,
    Unpaused,
    Minted { to: Address, amount: i128 },
    Transferred { from: Address, to: Address, amount: i128 },
    TransferredFrom { spender: Address, from: Address, to: Address, amount: i128 },
    Approved { from: Address, spender: Address, amount: i128 },
    Burned { from: Address, amount: i128 },
    BurnedFrom { spender: Address, from: Address, amount: i128 },
}

/// The settings fixed at initialization.
pub struct TokenConfig {
    pub admin: Address,
    pub operator: Address,
    pub kyc_contract: Address,
    pub name: String,
    pub symbol: String,
    pub metadata: OfferingMetadata,
}

/// Quotient rounded toward zero, as integer division on the machine.
pub open spec fn trunc_div(a: int, b: int) -> int {
    if a >= 0 {
        a / b
    } else {
        -((-a) / b)
    }
}

/// Number of token units in one whole token.
pub open spec fn units_per_token() -> int {
    vstd::arithmetic::power::pow(10, DECIMALS as nat)
}

/// One whole token is ten million units.
pub proof fn lemma_units_per_token()
    ensures
        units_per_token() == 10_000_000,
{
    reveal_with_fuel(vstd::arithmetic::power::pow, 8);
}

/// Abstract state of the token.
pub struct TokenState {
    pub admin: Option<Address>,
    pub pending_admin: Option<Address>,
    pub operator: Option<Address>,
    pub kyc_contract: Option<Address>,
    pub name: Option<String>,
    pub symbol: Option<String>,
    pub metadata: Option<OfferingMetadata>,
    pub total_supply: i128,
    pub paused: bool,
    pub balances: Map<Address, i128>,
    pub allowances: Map<AllowanceKey, AllowanceValue>,
}

impl TokenState {
    /// A freshly deployed token, before `initialize`.
    pub open spec fn uninitialized() -> TokenState {
        TokenState {
            admin: None,
            pending_admin: None,
            operator: None,
            kyc_contract: None,
            name: None,
            symbol: None,
            metadata: None,
            total_supply: 0,
            paused: false,
            balances: Map::empty(),
            allowances: Map::empty(),
        }
    }

    /// The state that stored settings, supply and listings describe; the
    /// admin, operator and whitelist come from `config` when it is present.
    pub open spec fn described(
        config: Option<TokenConfig>,
        pending_admin: Option<Address>,
        total_supply: i128,
        paused: bool,
        balances: Seq<(Address, i128)>,
        allowances: Seq<(AllowanceKey, AllowanceValue)>,
    ) -> TokenState {
        TokenState {
            admin: match config {
                Some(c) => Some(c.admin),
                None => None,
            },
            pending_admin,
            operator: match config {
                Some(c) => Some(c.operator),
                None => None,
            },
            kyc_contract: match config {
                Some(c) => Some(c.kyc_contract),
                None => None,
            },
            name: match config {
                Some(c) => Some(c.name),
                None => None,
            },
            symbol: match config {
                Some(c) => Some(c.symbol),
                None => None,
            },
            metadata: match config {
                Some(c) => Some(c.metadata),
                None => None,
            },
            total_supply,
            paused,
            balances: pairs_map(balances),
            allowances: pairs_map(allowances),
        }
    }

    /// What every reachable state satisfies.
    pub open spec fn inv(self) -> bool {
        // the supply is exactly what the holders hold, and nobody holds a negative amount
        &&& self.balances.dom().finite()
        &&& all_non_negative(self.balances)
        &&& self.total_supply == sum_of(self.balances)
        // a stored allowance is always positive
        &&& forall|k: AllowanceKey| #[trigger] self.allowances.contains_key(k) ==> self.allowances[k].amount > 0
        // the configuration is set all at once
        &&& self.admin is None ==> {
            &&& self.pending_admin is None
            &&& self.operator is None
            &&& self.kyc_contract is None
            &&& self.name is None
            &&& self.symbol is None
            &&& self.metadata is None
            &&& !self.paused
            &&& self.balances.dom() == Set::<Address>::empty()
        }
        &&& self.admin is Some ==> {
            &&& self.operator is Some
            &&& self.kyc_contract is Some
            &&& self.name is Some
            &&& self.symbol is Some
            &&& self.metadata is Some
        }
        // the supply never exceeds the authorized offering cap
        &&& self.metadata matches Some(m) ==> (self.total_supply == 0 || self.total_supply <= m.max_supply)
    }

    /// Balance of `id`; an address that never held tokens holds zero.
    pub open spec fn balance_of(self, id: Address) -> int {
        if self.balances.contains_key(id) {
            self.balances[id] as int
        } else {
            0
        }
    }

    /// The allowance that `spender` may still use on `from`'s balance at
    /// ledger `sequence`: expired or absent allowances count as zero.
    pub open spec fn allowance_of(self, from: Address, spender: Address, sequence: u32) -> int {
        let key = AllowanceKey { from, spender };
        if self.allowances.contains_key(key) && self.allowances[key].expiration_ledger >= sequence {
            self.allowances[key].amount as int
        } else {
            0
        }
    }

    pub open spec fn is_admin_or_operator(self, caller: Address) -> bool {
        self.admin == Some(caller) || self.operator == Some(caller)
    }

    pub open spec fn initialize(
        self,
        admin: Address,
        operator: Address,
        kyc_contract: Address,
        name: String,
        symbol: String,
        metadata: OfferingMetadata,
    ) -> Result<TokenState, TokenError> {
        if self.admin is Some {
            Err(TokenError::AlreadyInitialized)
        } else {
            Ok(
                TokenState {
                    admin: Some(admin),
                    operator: Some(operator),
                    kyc_contract: Some(kyc_contract),
                    total_supply: 0,
                    name: Some(name),
                    symbol: Some(symbol),
                    metadata: Some(metadata),
                    paused: false,
                    ..self
                },
            )
        }
    }

    pub open spec fn propose_admin(self, new_admin: Address) -> Result<(TokenState, TokenEvent), TokenError> {
        if self.admin is None {
            Err(TokenError::NotInitialized)
        } else {
            Ok((TokenState { pending_admin: Some(new_admin), ..self }, TokenEvent::AdminProposed(new_admin)))
        }
    }

    pub open spec fn accept_admin(self) -> Result<(TokenState, TokenEvent), TokenError> {
        match self.pending_admin {
            None => Err(TokenError::NoPendingAdmin),
            Some(p) => Ok(
                (TokenState { admin: Some(p), pending_admin: None, ..self }, TokenEvent::AdminAccepted(p)),
            ),
        }
    }

    pub open spec fn set_operator(self, operator: Address) -> Result<(TokenState, TokenEvent), TokenError> {
        if self.admin is None {
            Err(TokenError::NotInitialized)
        } else {
            Ok((TokenState { operator: Some(operator), ..self }, TokenEvent::OperatorSet(operator)))
        }
    }

    pub open spec fn set_kyc_contract(self, new_kyc: Address) -> Result<(TokenState, TokenEvent), TokenError> {
        match (self.admin, self.kyc_contract) {
            (Some(_), Some(old)) => Ok(
                (
                    TokenState { kyc_contract: Some(new_kyc), ..self },
                    TokenEvent::KycContractUpdated { old, new: new_kyc },
                ),
            ),
            _ => Err(TokenError::NotInitialized),
        }
    }

    pub open spec fn set_paused(self, paused: bool) -> Result<(TokenState, TokenEvent), TokenError> {
        if self.admin is None {
            Err(TokenError::NotInitialized)
        } else {
            Ok(
                (
                    TokenState { paused, ..self },
                    if paused {
                        TokenEvent::Paused
                    } else {
                        TokenEvent::Unpaused
                    },
                ),
            )
        }
    }

    /// Checks that come first in every movement of tokens: a positive amount
    /// and a running contract.
    pub open spec fn movement_allowed(self, amount: i128) -> Result<(), TokenError> {
        if amount <= 0 {
            Err(TokenError::NonPositiveAmount)
        } else if self.paused {
            Err(TokenError::Paused)
        } else {
            Ok(())
        }
    }

    /// Only the admin or the operator mints, once both are set.
    pub open spec fn minter_check(self, caller: Address) -> Result<(), TokenError> {
        if self.admin is None || self.operator is None {
            Err(TokenError::NotInitialized)
        } else if !self.is_admin_or_operator(caller) {
            Err(TokenError::Unauthorized)
        } else {
            Ok(())
        }
    }

    /// Identity gate: the whitelist contract must be configured, then every
    /// party must be approved by it.
    pub open spec fn kyc_gate(self, approved: bool) -> Result<(), TokenError> {
        if self.kyc_contract is None {
            Err(TokenError::NotInitialized)
        } else if !approved {
            Err(TokenError::NotKycApproved)
        } else {
            Ok(())
        }
    }

    pub open spec fn mint(self, caller: Address, to: Address, amount: i128, to_approved: bool) -> Result<
        (TokenState, TokenEvent),
        TokenError,
    > {
        if let Err(e) = self.movement_allowed(amount) {
            Err(e)
        } else if let Err(e) = self.minter_check(caller) {
            Err(e)
        } else if let Err(e) = self.kyc_gate(to_approved) {
            Err(e)
        } else if self.metadata is None {
            Err(TokenError::NotInitialized)
        } else if self.total_supply + amount > i128::MAX {
            Err(TokenError::Overflow)
        } else if self.total_supply + amount > self.metadata.unwrap().max_supply {
            Err(TokenError::CapExceeded)
        } else {
            Ok(
                (
                    TokenState {
                        balances: self.balances.insert(to, (self.balance_of(to) + amount) as i128),
                        total_supply: (self.total_supply + amount) as i128,
                        ..self
                    },
                    TokenEvent::Minted { to, amount },
                ),
            )
        }
    }

    /// Moving `amount` from `from` to `to`; moving to oneself changes nothing.
    pub open spec fn move_balance(self, from: Address, to: Address, amount: i128) -> Result<TokenState, TokenError> {
        if from == to {
            Ok(self)
        } else if self.balance_of(from) < amount {
            Err(TokenError::InsufficientBalance)
        } else {
            Ok(
                TokenState {
                    balances: self.balances.insert(from, (self.balance_of(from) - amount) as i128).insert(
                        to,
                        (self.balance_of(to) + amount) as i128,
                    ),
                    ..self
                },
            )
        }
    }

    /// Using `amount` of the allowance that `from` gave `spender`, at ledger
    /// `sequence`. An allowance used up entirely is deleted.
    pub open spec fn spend_allowance(self, from: Address, spender: Address, amount: i128, sequence: u32) -> Result<
        TokenState,
        TokenError,
    > {
        let key = AllowanceKey { from, spender };
        if !self.allowances.contains_key(key) {
            Err(TokenError::NoAllowance)
        } else if self.allowances[key].expiration_ledger < sequence {
            Err(TokenError::AllowanceExpired)
        } else if self.allowances[key].amount < amount {
            Err(TokenError::InsufficientAllowance)
        } else if self.allowances[key].amount == amount {
            Ok(TokenState { allowances: self.allowances.remove(key), ..self })
        } else {
            Ok(
                TokenState {
                    allowances: self.allowances.insert(
                        key,
                        AllowanceValue {
                            amount: (self.allowances[key].amount - amount) as i128,
                            expiration_ledger: self.allowances[key].expiration_ledger,
                        },
                    ),
                    ..self
                },
            )
        }
    }

    /// Destroying `amount` of `from`'s tokens.
    pub open spec fn debit(self, from: Address, amount: i128) -> Result<TokenState, TokenError> {
        if self.balance_of(from) < amount {
            Err(TokenError::InsufficientBalance)
        } else {
            Ok(
                TokenState {
                    balances: self.balances.insert(from, (self.balance_of(from) - amount) as i128),
                    total_supply: (self.total_supply - amount) as i128,
                    ..self
                },
            )
        }
    }

    pub open spec fn transfer(
        self,
        from: Address,
        to: Address,
        amount: i128,
        from_approved: bool,
        to_approved: bool,
    ) -> Result<(TokenState, TokenEvent), TokenError> {
        if let Err(e) = self.movement_allowed(amount) {
            Err(e)
        } else if let Err(e) = self.kyc_gate(from_approved) {
            Err(e)
        } else if let Err(e) = self.kyc_gate(to_approved) {
            Err(e)
        } else {
            match self.move_balance(from, to, amount) {
                Err(e) => Err(e),
                Ok(s) => Ok((s, TokenEvent::Transferred { from, to, amount })),
            }
        }
    }

    pub open spec fn transfer_from(
        self,
        spender: Address,
        from: Address,
        to: Address,
        amount: i128,
        from_approved: bool,
        to_approved: bool,
        sequence: u32,
    ) -> Result<(TokenState, TokenEvent), TokenError> {
        if let Err(e) = self.movement_allowed(amount) {
            Err(e)
        } else if let Err(e) = self.kyc_gate(from_approved) {
            Err(e)
        } else if let Err(e) = self.kyc_gate(to_approved) {
            Err(e)
        } else {
            match self.spend_allowance(from, spender, amount, sequence) {
                Err(e) => Err(e),
                Ok(s1) => match s1.move_balance(from, to, amount) {
                    Err(e) => Err(e),
                    Ok(s2) => Ok((s2, TokenEvent::TransferredFrom { spender, from, to, amount })),
                },
            }
        }
    }

    pub open spec fn approve(
        self,
        from: Address,
        spender: Address,
        amount: i128,
        expiration_ledger: u32,
        sequence: u32,
    ) -> Result<(TokenState, TokenEvent), TokenError> {
        let key = AllowanceKey { from, spender };
        if self.paused {
            Err(TokenError::Paused)
        } else if expiration_ledger <= sequence {
            Err(TokenError::ExpirationNotInFuture)
        } else if amount < 0 {
            Err(TokenError::NegativeAmount)
        } else {
            Ok(
                (
                    TokenState {
                        allowances: if amount == 0 {
                            self.allowances.remove(key)
                        } else {
                            self.allowances.insert(key, AllowanceValue { amount, expiration_ledger })
                        },
                        ..self
                    },
                    TokenEvent::Approved { from, spender, amount },
                ),
            )
        }
    }

    pub open spec fn burn(self, from: Address, amount: i128) -> Result<(TokenState, TokenEvent), TokenError> {
        if let Err(e) = self.movement_allowed(amount) {
            Err(e)
        } else {
            match self.debit(from, amount) {
                Err(e) => Err(e),
                Ok(s) => Ok((s, TokenEvent::Burned { from, amount })),
            }
        }
    }

    pub open spec fn burn_from(
        self,
        spender: Address,
        from: Address,
        amount: i128,
        from_approved: bool,
        sequence: u32,
    ) -> Result<(TokenState, TokenEvent), TokenError> {
        if let Err(e) = self.movement_allowed(amount) {
            Err(e)
        } else if let Err(e) = self.kyc_gate(from_approved) {
            Err(e)
        } else {
            match self.spend_allowance(from, spender, amount, sequence) {
                Err(e) => Err(e),
                Ok(s1) => match s1.debit(from, amount) {
                    Err(e) => Err(e),
                    Ok(s2) => Ok((s2, TokenEvent::BurnedFrom { spender, from, amount })),
                },
            }
        }
    }

    /// Net asset value of one whole token in BRL cents: the total raise
    /// spread over the whole tokens issued; zero before any issue.
    pub open spec fn nav(self) -> Result<i128, TokenError> {
        if self.total_supply == 0 {
            Ok(0)
        } else {
            match self.metadata {
                None => Err(TokenError::NotInitialized),
                Some(m) => {
                    let scaled = m.total_raise * units_per_token();
                    if scaled > i128::MAX || scaled < i128::MIN {
                        Err(TokenError::Overflow)
                    } else {
                        Ok(trunc_div(scaled, self.total_supply as int) as i128)
                    }
                },
            }
        }
    }
}

// The invariant is kept by every call: whatever a successful call returns
// satisfies it again.

pub proof fn lemma_initialize_keeps_inv(
    s: TokenState,
    admin: Address,
    operator: Address,
    kyc_contract: Address,
    name: String,
    symbol: String,
    metadata: OfferingMetadata,
)
    requires
        s.inv(),
    ensures
        s.initialize(admin, operator, kyc_contract, name, symbol, metadata) matches Ok(t) ==> t.inv(),
{
    if s.admin is None {
        lemma_sum_empty::<Address>();
        assert(s.balances == Map::<Address, i128>::empty());
    }
}

pub proof fn lemma_governance_keeps_inv(s: TokenState, a: Address, paused: bool)
    requires
        s.inv(),
    ensures
        s.propose_admin(a) matches Ok((t, _)) ==> t.inv(),
        s.accept_admin() matches Ok((t, _)) ==> t.inv(),
        s.set_operator(a) matches Ok((t, _)) ==> t.inv(),
        s.set_kyc_contract(a) matches Ok((t, _)) ==> t.inv(),
        s.set_paused(paused) matches Ok((t, _)) ==> t.inv(),
{
}

/// Minting keeps the supply equal to the sum of the balances and within the cap.
pub proof fn lemma_mint_keeps_inv(s: TokenState, caller: Address, to: Address, amount: i128, to_approved: bool)
    requires
        s.inv(),
    ensures
        s.mint(caller, to, amount, to_approved) matches Ok((t, _)) ==> {
            &&& t.inv()
            &&& t.total_supply == s.total_supply + amount
        },
{
    if s.mint(caller, to, amount, to_approved) is Ok {
        lemma_one_bounded_by_sum(s.balances, to);
        lemma_sum_insert(s.balances, to, (s.balance_of(to) + amount) as i128);
    }
}

/// Moving tokens between two holders keeps the sum of the balances.
pub proof fn lemma_move_balance_keeps_inv(s: TokenState, from: Address, to: Address, amount: i128)
    requires
        s.inv(),
        amount > 0,
    ensures
        s.move_balance(from, to, amount) matches Ok(t) ==> t.inv(),
{
    if from != to && s.balance_of(from) >= amount {
        lemma_two_bounded_by_sum(s.balances, from, to);
        let b1 = s.balances.insert(from, (s.balance_of(from) - amount) as i128);
        lemma_sum_insert(s.balances, from, (s.balance_of(from) - amount) as i128);
        lemma_sum_insert(b1, to, (s.balance_of(to) + amount) as i128);
    }
}

/// Using an allowance only changes allowances, and keeps them positive.
pub proof fn lemma_spend_allowance_keeps_inv(
    s: TokenState,
    from: Address,
    spender: Address,
    amount: i128,
    sequence: u32,
)
    requires
        s.inv(),
        amount > 0,
    ensures
        s.spend_allowance(from, spender, amount, sequence) matches Ok(t) ==> {
            &&& t.inv()
            &&& t.balances == s.balances
            &&& t.total_supply == s.total_supply
        },
{
    if let Ok(t) = s.spend_allowance(from, spender, amount, sequence) {
        assert forall|k: AllowanceKey| #[trigger] t.allowances.contains_key(k) implies t.allowances[k].amount
            > 0 by {
            assert(s.allowances.contains_key(k));
        }
    }
}

/// Destroying tokens lowers the supply by exactly the amount destroyed.
pub proof fn lemma_debit_keeps_inv(s: TokenState, from: Address, amount: i128)
    requires
        s.inv(),
        amount > 0,
    ensures
        s.debit(from, amount) matches Ok(t) ==> {
            &&& t.inv()
            &&& t.total_supply == s.total_supply - amount
        },
{
    if s.balance_of(from) >= amount {
        lemma_one_bounded_by_sum(s.balances, from);
        lemma_sum_insert(s.balances, from, (s.balance_of(from) - amount) as i128);
    }
}

pub proof fn lemma_transfers_keep_inv(
    s: TokenState,
    spender: Address,
    from: Address,
    to: Address,
    amount: i128,
    from_approved: bool,
    to_approved: bool,
    sequence: u32,
)
    requires
        s.inv(),
    ensures
        s.transfer(from, to, amount, from_approved, to_approved) matches Ok((t, _)) ==> t.inv(),
        s.transfer_from(spender, from, to, amount, from_approved, to_approved, sequence) matches Ok((t, _))
            ==> t.inv(),
{
    if amount > 0 {
        lemma_move_balance_keeps_inv(s, from, to, amount);
        lemma_spend_allowance_keeps_inv(s, from, spender, amount, sequence);
        if let Ok(s1) = s.spend_allowance(from, spender, amount, sequence) {
            lemma_move_balance_keeps_inv(s1, from, to, amount);
        }
    }
}

pub proof fn lemma_allowances_and_burns_keep_inv(
    s: TokenState,
    spender: Address,
    from: Address,
    amount: i128,
    expiration_ledger: u32,
    approved: bool,
    sequence: u32,
)
    requires
        s.inv(),
    ensures
        s.approve(from, spender, amount, expiration_ledger, sequence) matches Ok((t, _)) ==> t.inv(),
        s.burn(from, amount) matches Ok((t, _)) ==> t.inv(),
        s.burn_from(spender, from, amount, approved, sequence) matches Ok((t, _)) ==> t.inv(),
{
    if amount > 0 {
        lemma_debit_keeps_inv(s, from, amount);
        lemma_spend_allowance_keeps_inv(s, from, spender, amount, sequence);
        if let Ok(s1) = s.spend_allowance(from, spender, amount, sequence) {
            lemma_debit_keeps_inv(s1, from, amount);
        }
    }
}

} // verus!

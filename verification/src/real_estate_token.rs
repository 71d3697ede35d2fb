//! The offering token: a fungible token whose every holder must pass the
//! identity checks of the whitelist, minted only by the admin or the
//! operator, within the authorized offering cap, and freezable by the admin.
use std::collections::BTreeMap;
use std::collections::HashMap;
use vstd::prelude::*;
use crate::address::{
    Address, by_address, keys_unique, lemma_by_address_empty, lemma_by_address_finite,
    lemma_by_address_insert, lemma_pairs_map_domain, lemma_pairs_map_step, lemma_pairs_map_value, pairs_map,
};
use crate::balance_sum::{
    all_non_negative, lemma_one_bounded_by_sum, lemma_sum_empty, lemma_sum_insert, lemma_sum_non_negative,
    lemma_sum_submap, lemma_two_bounded_by_sum, sum_of,
};
use crate::token_model::{
    AllowanceKey, AllowanceValue, DECIMALS, OfferingMetadata, TokenConfig, TokenError, TokenEvent, TokenState,
    lemma_allowances_and_burns_keep_inv, lemma_governance_keeps_inv, lemma_initialize_keeps_inv,
    lemma_mint_keeps_inv, lemma_move_balance_keeps_inv, lemma_debit_keeps_inv,
    lemma_spend_allowance_keeps_inv, lemma_transfers_keep_inv, lemma_units_per_token,
};
use crate::token_laws::{TokenCall, signer};
use crate::ttl::{TtlExtension, instance_extension, instance_ttl, persistent_extension, persistent_ttl};

verus! {

broadcast use vstd::std_specs::hash::group_hash_axioms, vstd::std_specs::btree::group_btree_axioms,
    vstd::laws_cmp::group_laws_cmp;

/// Allowances stored under pairs of identifiers, read as keyed by `AllowanceKey`.
pub open spec fn allowances_by_key(m: Map<(u64, u64), AllowanceValue>) -> Map<AllowanceKey, AllowanceValue> {
    Map::new(
        |k: AllowanceKey| m.contains_key((k.from.0, k.spender.0)),
        |k: AllowanceKey| m[(k.from.0, k.spender.0)],
    )
}

proof fn lemma_allowances_insert(m: Map<(u64, u64), AllowanceValue>, k: AllowanceKey, v: AllowanceValue)
    ensures
        allowances_by_key(m.insert((k.from.0, k.spender.0), v)) == allowances_by_key(m).insert(k, v),
{
    assert(allowances_by_key(m.insert((k.from.0, k.spender.0), v)) =~= allowances_by_key(m).insert(k, v));
}

proof fn lemma_allowances_remove(m: Map<(u64, u64), AllowanceValue>, k: AllowanceKey)
    ensures
        allowances_by_key(m.remove((k.from.0, k.spender.0))) == allowances_by_key(m).remove(k),
{
    assert(allowances_by_key(m.remove((k.from.0, k.spender.0))) =~= allowances_by_key(m).remove(k));
}

/// The call behaved as `step` describes: on success the state became the
/// new state and the event was returned; on refusal nothing changed.
pub open spec fn follows(
    pre: TokenState,
    post: TokenState,
    r: Result<TokenEvent, TokenError>,
    step: Result<(TokenState, TokenEvent), TokenError>,
) -> bool {
    match step {
        Ok((s, ev)) => r == Ok::<TokenEvent, TokenError>(ev) && post == s,
        Err(e) => r == Err::<TokenEvent, TokenError>(e) && post == pre,
    }
}

impl TokenError {
    /// The text with which the contract aborts on this error.
    pub fn message(&self) -> (r: &'static str)
        ensures
            *self == TokenError::AlreadyInitialized ==> r@ == "Already initialized"@,
            *self == TokenError::NotInitialized ==> r@ == "Not initialized"@,
            *self == TokenError::NoPendingAdmin ==> r@ == "No pending admin proposal"@,
            *self == TokenError::NonPositiveAmount ==> r@ == "Amount must be positive"@,
            *self == TokenError::Paused ==> r@ == "Contract is paused"@,
            *self == TokenError::Unauthorized ==> r@ == "Unauthorized: caller is not admin or operator"@,
            *self == TokenError::NotKycApproved ==> r@ == "Transfer rejected: address not KYC-approved (CVM 88)"@,
            *self == TokenError::CapExceeded ==> r@ == "Mint exceeds CVM-88 authorized offering cap"@,
            *self == TokenError::Overflow ==> r@ == "Arithmetic overflow"@,
            *self == TokenError::InsufficientBalance ==> r@ == "Insufficient balance"@,
            *self == TokenError::NoAllowance ==> r@ == "No allowance"@,
            *self == TokenError::AllowanceExpired ==> r@ == "Allowance expired"@,
            *self == TokenError::InsufficientAllowance ==> r@ == "Insufficient allowance"@,
            *self == TokenError::ExpirationNotInFuture ==> r@ == "Expiration ledger must be in the future"@,
            *self == TokenError::NegativeAmount ==> r@ == "Amount must be non-negative"@,
            *self == TokenError::NoBalance ==> r@ == "No balance for address"@,
    {
        match self {
            TokenError::AlreadyInitialized => "Already initialized",
            TokenError::NotInitialized => "Not initialized",
            TokenError::NoPendingAdmin => "No pending admin proposal",
            TokenError::NonPositiveAmount => "Amount must be positive",
            TokenError::Paused => "Contract is paused",
            TokenError::Unauthorized => "Unauthorized: caller is not admin or operator",
            TokenError::NotKycApproved => "Transfer rejected: address not KYC-approved (CVM 88)",
            TokenError::CapExceeded => "Mint exceeds CVM-88 authorized offering cap",
            TokenError::Overflow => "Arithmetic overflow",
            TokenError::InsufficientBalance => "Insufficient balance",
            TokenError::NoAllowance => "No allowance",
            TokenError::AllowanceExpired => "Allowance expired",
            TokenError::InsufficientAllowance => "Insufficient allowance",
            TokenError::ExpirationNotInFuture => "Expiration ledger must be in the future",
            TokenError::NegativeAmount => "Amount must be non-negative",
            TokenError::NoBalance => "No balance for address",
        }
    }
}

/// Number of ledgers that a new allowance entry must live: until its
/// expiration ledger.
pub fn allowance_lifetime(expiration_ledger: u32, sequence: u32) -> (r: u32)
    requires
        expiration_ledger > sequence,
    ensures
        r == expiration_ledger - sequence,
{
    expiration_ledger - sequence
}

/// The token contract's state.
pub struct RealEstateToken {
    admin: Option<Address>,
    pending_admin: Option<Address>,
    operator: Option<Address>,
    kyc_contract: Option<Address>,
    name: Option<String>,
    symbol: Option<String>,
    metadata: Option<OfferingMetadata>,
    total_supply: i128,
    paused: bool,
    balances: HashMap<u64, i128>,
    allowances: BTreeMap<(u64, u64), AllowanceValue>,
}

impl View for RealEstateToken {
    type V = TokenState;

    closed spec fn view(&self) -> TokenState {
        TokenState {
            admin: self.admin,
            pending_admin: self.pending_admin,
            operator: self.operator,
            kyc_contract: self.kyc_contract,
            name: self.name,
            symbol: self.symbol,
            metadata: self.metadata,
            total_supply: self.total_supply,
            paused: self.paused,
            balances: by_address(self.balances@),
            allowances: allowances_by_key(self.allowances@),
        }
    }
}

impl RealEstateToken {
    /// A freshly deployed token, before `initialize`.
    pub fn new() -> (r: RealEstateToken)
        ensures
            r@ == TokenState::uninitialized(),
            r@.inv(),
    {
        let r = RealEstateToken {
            admin: None,
            pending_admin: None,
            operator: None,
            kyc_contract: None,
            name: None,
            symbol: None,
            metadata: None,
            total_supply: 0,
            paused: false,
            balances: HashMap::new(),
            allowances: BTreeMap::new(),
        };
        proof {
            lemma_by_address_empty::<i128>();
            assert(r@.allowances =~= Map::<AllowanceKey, AllowanceValue>::empty());
            assert(r@.balances.dom() =~= Set::<Address>::empty());
            crate::balance_sum::lemma_sum_empty::<Address>();
        }
        r
    }

    /// Rebuild the token from its stored settings, supply and pause flag,
    /// the balances of all holders and the allowances on record. Refused
    /// (`None`) when these do not describe a consistent token: a holder or an
    /// allowance listed twice, or a state that breaks the token's invariant.
    pub fn restore(
        config: Option<TokenConfig>,
        pending_admin: Option<Address>,
        total_supply: i128,
        paused: bool,
        balances: Vec<(Address, i128)>,
        allowances: Vec<(AllowanceKey, AllowanceValue)>,
    ) -> (r: Option<RealEstateToken>)
        ensures
            r is Some <==> (keys_unique(balances@) && keys_unique(allowances@) && TokenState::described(
                config,
                pending_admin,
                total_supply,
                paused,
                balances@,
                allowances@,
            ).inv()),
            r matches Some(t) ==> t@ == TokenState::described(
                config,
                pending_admin,
                total_supply,
                paused,
                balances@,
                allowances@,
            ),
    {
        let ghost d = TokenState::described(config, pending_admin, total_supply, paused, balances@, allowances@);
        proof {
            lemma_pairs_map_domain(balances@);
            lemma_pairs_map_domain(allowances@);
        }
        match &config {
            None => {
                if pending_admin.is_some() || paused || balances.len() > 0 {
                    proof {
                        if balances.len() > 0 {
                            assert(d.balances.contains_key(balances@[0].0));
                        }
                    }
                    return None;
                }
            },
            Some(c) => {
                if !(total_supply == 0 || total_supply <= c.metadata.max_supply) {
                    return None;
                }
            },
        }
        if total_supply < 0 {
            proof {
                if all_non_negative(d.balances) {
                    lemma_sum_non_negative(d.balances);
                }
            }
            return None;
        }
        let mut map: HashMap<u64, i128> = HashMap::new();
        let mut held: i128 = 0;
        let mut i: usize = 0;
        proof {
            lemma_by_address_empty::<i128>();
            assert(balances@.take(0) =~= Seq::<(Address, i128)>::empty());
            lemma_sum_empty::<Address>();
        }
        while i < balances.len()
            invariant
                i <= balances.len(),
                0 <= held <= total_supply,
                d.balances == pairs_map(balances@),
                d.balances.dom().finite(),
                keys_unique(balances@.take(i as int)),
                by_address(map@) == pairs_map(balances@.take(i as int)),
                all_non_negative(pairs_map(balances@.take(i as int))),
                pairs_map(balances@.take(i as int)).dom().finite(),
                held == sum_of(pairs_map(balances@.take(i as int))),
            decreases balances.len() - i,
        {
            let (a, v) = balances[i];
            let ghost pre = balances@.take(i as int);
            let ghost next = balances@.take(i + 1);
            proof {
                lemma_pairs_map_domain(pre);
                lemma_pairs_map_step(balances@, i as int);
            }
            if map.contains_key(&a.0) {
                proof {
                    assert(by_address(map@).contains_key(a));
                    assert(pairs_map(pre).contains_key(a));
                    let j = choose|j: int| 0 <= j < pre.len() && pre[j].0 == a;
                    assert(balances@[j].0 == balances@[i as int].0);
                }
                return None;
            }
            assert(!by_address(map@).contains_key(a));
            assert(!pairs_map(pre).contains_key(a));
            assert(keys_unique(next)) by {
                assert forall|x: int, y: int| 0 <= x < y < next.len() implies next[x].0 != next[y].0 by {
                    if y == i {
                        assert(pre[x] == next[x]);
                        assert(next[y].0 == a);
                    } else {
                        assert(pre[x] == next[x] && pre[y] == next[y]);
                    }
                }
            }
            if v < 0 {
                proof {
                    if keys_unique(balances@) {
                        lemma_pairs_map_value(balances@, i as int);
                    }
                }
                return None;
            }
            proof {
                lemma_sum_insert(pairs_map(pre), a, v);
            }
            if v > total_supply - held {
                proof {
                    if keys_unique(balances@) && all_non_negative(d.balances) {
                        lemma_pairs_map_domain(next);
                        assert forall|k: Address| #[trigger] pairs_map(next).contains_key(k) implies d.balances.contains_key(
                            k,
                        ) && pairs_map(next)[k] == d.balances[k] by {
                            let j = choose|j: int| 0 <= j < next.len() && next[j].0 == k;
                            lemma_pairs_map_value(next, j);
                            lemma_pairs_map_value(balances@, j);
                        }
                        lemma_sum_submap(pairs_map(next), d.balances);
                    }
                }
                return None;
            }
            let ghost before = map@;
            map.insert(a.0, v);
            proof {
                lemma_by_address_insert(before, a, v);
            }
            held = held + v;
            i = i + 1;
        }
        proof {
            assert(balances@.take(balances@.len() as int) =~= balances@);
        }
        if held != total_supply {
            return None;
        }
        let mut allowance_map: BTreeMap<(u64, u64), AllowanceValue> = BTreeMap::new();
        let mut k: usize = 0;
        proof {
            assert(allowances_by_key(allowance_map@) =~= Map::<AllowanceKey, AllowanceValue>::empty());
            assert(allowances@.take(0) =~= Seq::<(AllowanceKey, AllowanceValue)>::empty());
        }
        while k < allowances.len()
            invariant
                k <= allowances.len(),
                d == TokenState::described(config, pending_admin, total_supply, paused, balances@, allowances@),
                d.allowances == pairs_map(allowances@),
                keys_unique(allowances@.take(k as int)),
                allowances_by_key(allowance_map@) == pairs_map(allowances@.take(k as int)),
                forall|key: AllowanceKey| #[trigger] pairs_map(allowances@.take(k as int)).contains_key(key)
                    ==> pairs_map(allowances@.take(k as int))[key].amount > 0,
            decreases allowances.len() - k,
        {
            let (key, value) = allowances[k];
            let ghost pre = allowances@.take(k as int);
            let ghost next = allowances@.take(k + 1);
            proof {
                lemma_pairs_map_domain(pre);
                lemma_pairs_map_step(allowances@, k as int);
            }
            if allowance_map.contains_key(&(key.from.0, key.spender.0)) {
                proof {
                    assert(allowances_by_key(allowance_map@).contains_key(key));
                    assert(pairs_map(pre).contains_key(key));
                    let j = choose|j: int| 0 <= j < pre.len() && pre[j].0 == key;
                    assert(allowances@[j].0 == allowances@[k as int].0);
                }
                return None;
            }
            if value.amount <= 0 {
                proof {
                    if keys_unique(allowances@) {
                        lemma_pairs_map_value(allowances@, k as int);
                        assert(d.allowances.contains_key(key));
                    }
                }
                return None;
            }
            assert(!allowances_by_key(allowance_map@).contains_key(key));
            assert(!pairs_map(pre).contains_key(key));
            assert(keys_unique(next)) by {
                assert forall|x: int, y: int| 0 <= x < y < next.len() implies next[x].0 != next[y].0 by {
                    if y == k {
                        assert(pre[x] == next[x]);
                    } else {
                        assert(pre[x] == next[x] && pre[y] == next[y]);
                    }
                }
            }
            let ghost before = allowance_map@;
            allowance_map.insert((key.from.0, key.spender.0), value);
            proof {
                lemma_allowances_insert(before, key, value);
            }
            k = k + 1;
        }
        proof {
            assert(allowances@.take(allowances@.len() as int) =~= allowances@);
        }
        let (admin, operator, kyc_contract, name, symbol, metadata) = match config {
            Some(c) => (Some(c.admin), Some(c.operator), Some(c.kyc_contract), Some(c.name), Some(c.symbol), Some(c.metadata)),
            None => (None, None, None, None, None, None),
        };
        Some(
            RealEstateToken {
                admin,
                pending_admin,
                operator,
                kyc_contract,
                name,
                symbol,
                metadata,
                total_supply,
                paused,
                balances: map,
                allowances: allowance_map,
            },
        )
    }

    /// Deploy-time configuration: governance wallets, the whitelist that
    /// gates holders, the token's name and symbol, and the offering.
    pub fn initialize(
        &mut self,
        admin: Address,
        operator: Address,
        kyc_contract: Address,
        name: String,
        symbol: String,
        metadata: OfferingMetadata,
    ) -> (r: Result<(), TokenError>)
        requires
            old(self)@.inv(),
        ensures
            final(self)@.inv(),
            match old(self)@.initialize(admin, operator, kyc_contract, name, symbol, metadata) {
                Ok(s) => r == Ok::<(), TokenError>(()) && final(self)@ == s,
                Err(e) => r == Err::<(), TokenError>(e) && final(self)@ == old(self)@,
            },
    {
        proof {
            lemma_initialize_keeps_inv(old(self)@, admin, operator, kyc_contract, name, symbol, metadata);
        }
        if self.admin.is_some() {
            return Err(TokenError::AlreadyInitialized);
        }
        self.admin = Some(admin);
        self.operator = Some(operator);
        self.kyc_contract = Some(kyc_contract);
        self.total_supply = 0;
        self.name = Some(name);
        self.symbol = Some(symbol);
        self.metadata = Some(metadata);
        self.paused = false;
        Ok(())
    }

    /// Step one of the admin handover.
    pub fn propose_admin(&mut self, new_admin: Address) -> (r: Result<TokenEvent, TokenError>)
        requires
            old(self)@.inv(),
        ensures
            final(self)@.inv(),
            follows(old(self)@, final(self)@, r, old(self)@.propose_admin(new_admin)),
    {
        proof {
            lemma_governance_keeps_inv(old(self)@, new_admin, false);
        }
        if self.admin.is_none() {
            return Err(TokenError::NotInitialized);
        }
        self.pending_admin = Some(new_admin);
        Ok(TokenEvent::AdminProposed(new_admin))
    }

    /// Step two of the admin handover: the proposed admin takes over.
    pub fn accept_admin(&mut self) -> (r: Result<TokenEvent, TokenError>)
        requires
            old(self)@.inv(),
        ensures
            final(self)@.inv(),
            follows(old(self)@, final(self)@, r, old(self)@.accept_admin()),
    {
        proof {
            lemma_governance_keeps_inv(old(self)@, Address(0), false);
        }
        match self.pending_admin {
            None => Err(TokenError::NoPendingAdmin),
            Some(pending) => {
                self.admin = Some(pending);
                self.pending_admin = None;
                Ok(TokenEvent::AdminAccepted(pending))
            },
        }
    }

    /// Replace the operator (hot wallet for minting). Admin only.
    pub fn set_operator(&mut self, operator: Address) -> (r: Result<TokenEvent, TokenError>)
        requires
            old(self)@.inv(),
        ensures
            final(self)@.inv(),
            follows(old(self)@, final(self)@, r, old(self)@.set_operator(operator)),
    {
        proof {
            lemma_governance_keeps_inv(old(self)@, operator, false);
        }
        if self.admin.is_none() {
            return Err(TokenError::NotInitialized);
        }
        self.operator = Some(operator);
        Ok(TokenEvent::OperatorSet(operator))
    }

    /// Point the identity gate at another whitelist contract. Admin only.
    /// Every later mint and transfer consults the new whitelist.
    pub fn set_kyc_contract(&mut self, new_kyc_contract: Address) -> (r: Result<TokenEvent, TokenError>)
        requires
            old(self)@.inv(),
        ensures
            final(self)@.inv(),
            follows(old(self)@, final(self)@, r, old(self)@.set_kyc_contract(new_kyc_contract)),
    {
        proof {
            lemma_governance_keeps_inv(old(self)@, new_kyc_contract, false);
        }
        match (self.admin, self.kyc_contract) {
            (Some(_), Some(old_kyc)) => {
                self.kyc_contract = Some(new_kyc_contract);
                Ok(TokenEvent::KycContractUpdated { old: old_kyc, new: new_kyc_contract })
            },
            _ => Err(TokenError::NotInitialized),
        }
    }

    fn set_paused(&mut self, paused: bool) -> (r: Result<TokenEvent, TokenError>)
        requires
            old(self)@.inv(),
        ensures
            final(self)@.inv(),
            follows(old(self)@, final(self)@, r, old(self)@.set_paused(paused)),
    {
        proof {
            lemma_governance_keeps_inv(old(self)@, Address(0), paused);
        }
        if self.admin.is_none() {
            return Err(TokenError::NotInitialized);
        }
        self.paused = paused;
        if paused {
            Ok(TokenEvent::Paused)
        } else {
            Ok(TokenEvent::Unpaused)
        }
    }

    /// Freeze mints, transfers, approvals and burns. Admin only.
    pub fn pause(&mut self) -> (r: Result<TokenEvent, TokenError>)
        requires
            old(self)@.inv(),
        ensures
            final(self)@.inv(),
            follows(old(self)@, final(self)@, r, old(self)@.set_paused(true)),
    {
        self.set_paused(true)
    }

    /// Lift the freeze. Admin only.
    pub fn unpause(&mut self) -> (r: Result<TokenEvent, TokenError>)
        requires
            old(self)@.inv(),
        ensures
            final(self)@.inv(),
            follows(old(self)@, final(self)@, r, old(self)@.set_paused(false)),
    {
        self.set_paused(false)
    }

    /// Balance of `id`; zero for an address that never held tokens.
    pub fn balance(&self, id: Address) -> (r: i128)
        ensures
            r == self@.balance_of(id),
    {
        match self.balances.get(&id.0) {
            Some(b) => *b,
            None => 0,
        }
    }

    proof fn lemma_view_finite(&self)
        ensures
            self@.balances.dom().finite(),
    {
        lemma_by_address_finite(self.balances@);
    }

    /// Whose authorization the ledger must demand for `call`, as `signer`
    /// says; `None` when that role is not set and the call is refused.
    pub fn required_signer(&self, call: &TokenCall) -> (r: Option<Address>)
        ensures
            r == signer(self@, *call),
    {
        match call {
            TokenCall::Initialize { admin, .. } => Some(*admin),
            TokenCall::ProposeAdmin(_) => self.admin,
            TokenCall::AcceptAdmin => self.pending_admin,
            TokenCall::SetOperator(_) => self.admin,
            TokenCall::SetKycContract(_) => self.admin,
            TokenCall::Pause => self.admin,
            TokenCall::Unpause => self.admin,
            TokenCall::Mint { caller, .. } => Some(*caller),
            TokenCall::Transfer { from, .. } => Some(*from),
            TokenCall::TransferFrom { spender, .. } => Some(*spender),
            TokenCall::Approve { from, .. } => Some(*from),
            TokenCall::Burn { from, .. } => Some(*from),
            TokenCall::BurnFrom { spender, .. } => Some(*spender),
        }
    }

    /// The checks that come first in every movement of tokens: a positive
    /// amount and a running token.
    pub fn check_movement(&self, amount: i128) -> (r: Result<(), TokenError>)
        ensures
            r == self@.movement_allowed(amount),
    {
        if amount <= 0 {
            Err(TokenError::NonPositiveAmount)
        } else if self.paused {
            Err(TokenError::Paused)
        } else {
            Ok(())
        }
    }

    /// Whether `caller` may mint: the admin or the operator, once both are set.
    pub fn check_minter(&self, caller: Address) -> (r: Result<(), TokenError>)
        ensures
            r == self@.minter_check(caller),
    {
        match (self.admin, self.operator) {
            (Some(admin), Some(operator)) => if caller == admin || caller == operator {
                Ok(())
            } else {
                Err(TokenError::Unauthorized)
            },
            _ => Err(TokenError::NotInitialized),
        }
    }

    /// Issue `amount` new units to `to`, whose approval by the whitelist is
    /// `to_approved`. The caller must be the admin or the operator, and the
    /// supply must stay within the offering cap.
    pub fn mint(&mut self, caller: Address, to: Address, amount: i128, to_approved: bool) -> (r: Result<
        TokenEvent,
        TokenError,
    >)
        requires
            old(self)@.inv(),
        ensures
            final(self)@.inv(),
            follows(old(self)@, final(self)@, r, old(self)@.mint(caller, to, amount, to_approved)),
    {
        proof {
            lemma_mint_keeps_inv(old(self)@, caller, to, amount, to_approved);
        }
        if let Err(e) = self.check_movement(amount) {
            return Err(e);
        }
        if let Err(e) = self.check_minter(caller) {
            return Err(e);
        }
        if self.kyc_contract.is_none() {
            return Err(TokenError::NotInitialized);
        }
        if !to_approved {
            return Err(TokenError::NotKycApproved);
        }
        let max_supply = match &self.metadata {
            Some(m) => m.max_supply,
            None => return Err(TokenError::NotInitialized),
        };
        let new_supply = match self.total_supply.checked_add(amount) {
            Some(v) => v,
            None => return Err(TokenError::Overflow),
        };
        if new_supply > max_supply {
            return Err(TokenError::CapExceeded);
        }
        let balance = self.balance(to);
        proof {
            lemma_one_bounded_by_sum(self@.balances, to);
        }
        self.balances.insert(to.0, balance + amount);
        self.total_supply = new_supply;
        proof {
            lemma_by_address_insert(old(self).balances@, to, (balance + amount) as i128);
        }
        Ok(TokenEvent::Minted { to, amount })
    }

    /// Move `amount` from `from` to `to`, leaving everything as it was when
    /// the two are the same holder.
    fn move_balance(&mut self, from: Address, to: Address, amount: i128) -> (r: Result<(), TokenError>)
        requires
            old(self)@.inv(),
            amount > 0,
        ensures
            final(self)@.inv(),
            match old(self)@.move_balance(from, to, amount) {
                Ok(s) => r == Ok::<(), TokenError>(()) && final(self)@ == s,
                Err(e) => r == Err::<(), TokenError>(e) && final(self)@ == old(self)@,
            },
    {
        proof {
            lemma_move_balance_keeps_inv(old(self)@, from, to, amount);
        }
        if from == to {
            return Ok(());
        }
        let from_balance = self.balance(from);
        if from_balance < amount {
            return Err(TokenError::InsufficientBalance);
        }
        let to_balance = self.balance(to);
        proof {
            lemma_two_bounded_by_sum(self@.balances, from, to);
        }
        self.balances.insert(from.0, from_balance - amount);
        proof {
            lemma_by_address_insert(old(self).balances@, from, (from_balance - amount) as i128);
        }
        let ghost mid = self.balances@;
        self.balances.insert(to.0, to_balance + amount);
        proof {
            lemma_by_address_insert(mid, to, (to_balance + amount) as i128);
        }
        Ok(())
    }

    /// The allowance that `spend_allowance` would use, when it succeeds.
    fn usable_allowance(&self, from: Address, spender: Address, amount: i128, sequence: u32) -> (r: Result<
        AllowanceValue,
        TokenError,
    >)
        ensures
            match self@.spend_allowance(from, spender, amount, sequence) {
                Ok(_) => r == Ok::<AllowanceValue, TokenError>(
                    self@.allowances[AllowanceKey { from, spender }],
                ),
                Err(e) => r == Err::<AllowanceValue, TokenError>(e),
            },
    {
        let current = match self.allowances.get(&(from.0, spender.0)) {
            Some(v) => *v,
            None => return Err(TokenError::NoAllowance),
        };
        if current.expiration_ledger < sequence {
            return Err(TokenError::AllowanceExpired);
        }
        if current.amount < amount {
            return Err(TokenError::InsufficientAllowance);
        }
        Ok(current)
    }

    /// Record that `amount` of the allowance `current` was used.
    fn consume_allowance(
        &mut self,
        from: Address,
        spender: Address,
        amount: i128,
        current: AllowanceValue,
        Ghost(sequence): Ghost<u32>,
    )
        requires
            old(self)@.inv(),
            amount > 0,
            old(self)@.spend_allowance(from, spender, amount, sequence) is Ok,
            current == old(self)@.allowances[AllowanceKey { from, spender }],
        ensures
            final(self)@.inv(),
            Ok::<TokenState, TokenError>(final(self)@) == old(self)@.spend_allowance(
                from,
                spender,
                amount,
                sequence,
            ),
    {
        proof {
            lemma_spend_allowance_keeps_inv(old(self)@, from, spender, amount, sequence);
        }
        let key = AllowanceKey { from, spender };
        let remaining = current.amount - amount;
        if remaining == 0 {
            self.allowances.remove(&(from.0, spender.0));
            proof {
                lemma_allowances_remove(old(self).allowances@, key);
            }
        } else {
            let value = AllowanceValue { amount: remaining, expiration_ledger: current.expiration_ledger };
            self.allowances.insert((from.0, spender.0), value);
            proof {
                lemma_allowances_insert(old(self).allowances@, key, value);
            }
        }
    }

    /// Transfer `amount` from `from` (who authorized it) to `to`. Both must
    /// be approved by the whitelist: `from_approved` and `to_approved` are
    /// its answers.
    pub fn transfer(
        &mut self,
        from: Address,
        to: Address,
        amount: i128,
        from_approved: bool,
        to_approved: bool,
    ) -> (r: Result<TokenEvent, TokenError>)
        requires
            old(self)@.inv(),
        ensures
            final(self)@.inv(),
            follows(old(self)@, final(self)@, r, old(self)@.transfer(from, to, amount, from_approved, to_approved)),
    {
        proof {
            lemma_transfers_keep_inv(old(self)@, from, from, to, amount, from_approved, to_approved, 0);
        }
        if amount <= 0 {
            return Err(TokenError::NonPositiveAmount);
        }
        if self.paused {
            return Err(TokenError::Paused);
        }
        if self.kyc_contract.is_none() {
            return Err(TokenError::NotInitialized);
        }
        if !from_approved || !to_approved {
            return Err(TokenError::NotKycApproved);
        }
        match self.move_balance(from, to, amount) {
            Err(e) => Err(e),
            Ok(()) => Ok(TokenEvent::Transferred { from, to, amount }),
        }
    }

    /// Transfer `amount` from `from` to `to` on the authority of `spender`,
    /// using the allowance that `from` gave it, at ledger `sequence`.
    pub fn transfer_from(
        &mut self,
        spender: Address,
        from: Address,
        to: Address,
        amount: i128,
        from_approved: bool,
        to_approved: bool,
        sequence: u32,
    ) -> (r: Result<TokenEvent, TokenError>)
        requires
            old(self)@.inv(),
        ensures
            final(self)@.inv(),
            follows(
                old(self)@,
                final(self)@,
                r,
                old(self)@.transfer_from(spender, from, to, amount, from_approved, to_approved, sequence),
            ),
    {
        proof {
            lemma_transfers_keep_inv(old(self)@, spender, from, to, amount, from_approved, to_approved, sequence);
        }
        if amount <= 0 {
            return Err(TokenError::NonPositiveAmount);
        }
        if self.paused {
            return Err(TokenError::Paused);
        }
        if self.kyc_contract.is_none() {
            return Err(TokenError::NotInitialized);
        }
        if !from_approved || !to_approved {
            return Err(TokenError::NotKycApproved);
        }
        let current = match self.usable_allowance(from, spender, amount, sequence) {
            Ok(v) => v,
            Err(e) => return Err(e),
        };
        if from != to && self.balance(from) < amount {
            return Err(TokenError::InsufficientBalance);
        }
        self.consume_allowance(from, spender, amount, current, Ghost(sequence));
        match self.move_balance(from, to, amount) {
            Err(e) => Err(e),
            Ok(()) => Ok(TokenEvent::TransferredFrom { spender, from, to, amount }),
        }
    }

    /// `from` lets `spender` use up to `amount` of its balance until ledger
    /// `expiration_ledger`, which must lie after the current ledger
    /// `sequence`. An amount of zero withdraws the allowance.
    pub fn approve(
        &mut self,
        from: Address,
        spender: Address,
        amount: i128,
        expiration_ledger: u32,
        sequence: u32,
    ) -> (r: Result<TokenEvent, TokenError>)
        requires
            old(self)@.inv(),
        ensures
            final(self)@.inv(),
            follows(
                old(self)@,
                final(self)@,
                r,
                old(self)@.approve(from, spender, amount, expiration_ledger, sequence),
            ),
    {
        proof {
            lemma_allowances_and_burns_keep_inv(old(self)@, spender, from, amount, expiration_ledger, false, sequence);
        }
        if self.paused {
            return Err(TokenError::Paused);
        }
        if expiration_ledger <= sequence {
            return Err(TokenError::ExpirationNotInFuture);
        }
        if amount < 0 {
            return Err(TokenError::NegativeAmount);
        }
        let key = AllowanceKey { from, spender };
        if amount == 0 {
            self.allowances.remove(&(from.0, spender.0));
            proof {
                lemma_allowances_remove(old(self).allowances@, key);
            }
        } else {
            let value = AllowanceValue { amount, expiration_ledger };
            self.allowances.insert((from.0, spender.0), value);
            proof {
                lemma_allowances_insert(old(self).allowances@, key, value);
            }
        }
        Ok(TokenEvent::Approved { from, spender, amount })
    }

    /// The allowance that `spender` may still use on `from`'s balance at
    /// ledger `sequence`; zero once expired.
    pub fn allowance(&self, from: Address, spender: Address, sequence: u32) -> (r: i128)
        ensures
            r == self@.allowance_of(from, spender, sequence),
    {
        match self.allowances.get(&(from.0, spender.0)) {
            Some(v) => if v.expiration_ledger >= sequence {
                v.amount
            } else {
                0
            },
            None => 0,
        }
    }

    /// Destroy `amount` of `from`'s tokens.
    fn debit(&mut self, from: Address, amount: i128) -> (r: Result<(), TokenError>)
        requires
            old(self)@.inv(),
            amount > 0,
        ensures
            final(self)@.inv(),
            match old(self)@.debit(from, amount) {
                Ok(s) => r == Ok::<(), TokenError>(()) && final(self)@ == s,
                Err(e) => r == Err::<(), TokenError>(e) && final(self)@ == old(self)@,
            },
    {
        proof {
            lemma_debit_keeps_inv(old(self)@, from, amount);
        }
        let balance = self.balance(from);
        if balance < amount {
            return Err(TokenError::InsufficientBalance);
        }
        proof {
            lemma_one_bounded_by_sum(self@.balances, from);
        }
        self.balances.insert(from.0, balance - amount);
        self.total_supply = self.total_supply - amount;
        proof {
            lemma_by_address_insert(old(self).balances@, from, (balance - amount) as i128);
        }
        Ok(())
    }

    /// Destroy `amount` of `from`'s tokens on its own authority. Holders may
    /// always exit: no identity check applies, only the freeze.
    pub fn burn(&mut self, from: Address, amount: i128) -> (r: Result<TokenEvent, TokenError>)
        requires
            old(self)@.inv(),
        ensures
            final(self)@.inv(),
            follows(old(self)@, final(self)@, r, old(self)@.burn(from, amount)),
    {
        proof {
            lemma_allowances_and_burns_keep_inv(old(self)@, from, from, amount, 0, false, 0);
        }
        if amount <= 0 {
            return Err(TokenError::NonPositiveAmount);
        }
        if self.paused {
            return Err(TokenError::Paused);
        }
        match self.debit(from, amount) {
            Err(e) => Err(e),
            Ok(()) => Ok(TokenEvent::Burned { from, amount }),
        }
    }

    /// Destroy `amount` of `from`'s tokens on the authority of `spender`,
    /// using its allowance at ledger `sequence`. `from` must be approved by
    /// the whitelist: `from_approved` is its answer.
    pub fn burn_from(
        &mut self,
        spender: Address,
        from: Address,
        amount: i128,
        from_approved: bool,
        sequence: u32,
    ) -> (r: Result<TokenEvent, TokenError>)
        requires
            old(self)@.inv(),
        ensures
            final(self)@.inv(),
            follows(old(self)@, final(self)@, r, old(self)@.burn_from(spender, from, amount, from_approved, sequence)),
    {
        proof {
            lemma_allowances_and_burns_keep_inv(old(self)@, spender, from, amount, 0, from_approved, sequence);
        }
        if amount <= 0 {
            return Err(TokenError::NonPositiveAmount);
        }
        if self.paused {
            return Err(TokenError::Paused);
        }
        if self.kyc_contract.is_none() {
            return Err(TokenError::NotInitialized);
        }
        if !from_approved {
            return Err(TokenError::NotKycApproved);
        }
        let current = match self.usable_allowance(from, spender, amount, sequence) {
            Ok(v) => v,
            Err(e) => return Err(e),
        };
        if self.balance(from) < amount {
            return Err(TokenError::InsufficientBalance);
        }
        self.consume_allowance(from, spender, amount, current, Ghost(sequence));
        match self.debit(from, amount) {
            Err(e) => Err(e),
            Ok(()) => Ok(TokenEvent::BurnedFrom { spender, from, amount }),
        }
    }

    /// Token decimal places.
    pub fn decimals(&self) -> (r: u32)
        ensures
            r == DECIMALS,
            r == 7,
    {
        DECIMALS
    }

    /// Token name (e.g. "ARTP-HS Token").
    pub fn name(&self) -> (r: Result<&String, TokenError>)
        ensures
            r is Ok <==> self@.name is Some,
            r matches Ok(n) ==> self@.name == Some(*n),
            r matches Err(e) ==> e == TokenError::NotInitialized,
    {
        match &self.name {
            Some(n) => Ok(n),
            None => Err(TokenError::NotInitialized),
        }
    }

    /// Token symbol (e.g. "ARTP-HS").
    pub fn symbol(&self) -> (r: Result<&String, TokenError>)
        ensures
            r is Ok <==> self@.symbol is Some,
            r matches Ok(n) ==> self@.symbol == Some(*n),
            r matches Err(e) ==> e == TokenError::NotInitialized,
    {
        match &self.symbol {
            Some(n) => Ok(n),
            None => Err(TokenError::NotInitialized),
        }
    }

    /// Total issued supply, in token units.
    pub fn total_supply(&self) -> (r: i128)
        ensures
            r == self@.total_supply,
    {
        self.total_supply
    }

    /// The offering metadata.
    pub fn get_offering(&self) -> (r: Result<&OfferingMetadata, TokenError>)
        ensures
            r is Ok <==> self@.metadata is Some,
            r matches Ok(m) ==> self@.metadata == Some(*m),
            r matches Err(e) ==> e == TokenError::NotInitialized,
    {
        match &self.metadata {
            Some(m) => Ok(m),
            None => Err(TokenError::NotInitialized),
        }
    }

    /// The current admin.
    pub fn get_admin(&self) -> (r: Result<Address, TokenError>)
        ensures
            r == (match self@.admin {
                Some(a) => Ok::<Address, TokenError>(a),
                None => Err(TokenError::NotInitialized),
            }),
    {
        match self.admin {
            Some(a) => Ok(a),
            None => Err(TokenError::NotInitialized),
        }
    }

    /// The current operator, or `None` before initialization.
    pub fn get_operator(&self) -> (r: Option<Address>)
        ensures
            r == self@.operator,
    {
        self.operator
    }

    /// The proposed successor of the admin, if a handover is under way.
    pub fn pending_admin(&self) -> (r: Option<Address>)
        ensures
            r == self@.pending_admin,
    {
        self.pending_admin
    }

    /// The whitelist contract that gates holders.
    pub fn kyc_contract(&self) -> (r: Result<Address, TokenError>)
        ensures
            r == (match self@.kyc_contract {
                Some(a) => Ok::<Address, TokenError>(a),
                None => Err(TokenError::NotInitialized),
            }),
    {
        match self.kyc_contract {
            Some(a) => Ok(a),
            None => Err(TokenError::NotInitialized),
        }
    }

    /// The allowance on record for (`from`, `spender`), expired or not.
    pub fn allowance_entry(&self, from: Address, spender: Address) -> (r: Option<AllowanceValue>)
        ensures
            r == (if self@.allowances.contains_key(AllowanceKey { from, spender }) {
                Some(self@.allowances[AllowanceKey { from, spender }])
            } else {
                None
            }),
    {
        match self.allowances.get(&(from.0, spender.0)) {
            Some(v) => Some(*v),
            None => None,
        }
    }

    /// Whether the token is frozen.
    pub fn is_paused(&self) -> (r: bool)
        ensures
            r == self@.paused,
    {
        self.paused
    }

    /// Net asset value of one whole token in BRL cents:
    /// `total_raise * 10^DECIMALS / total_supply`, rounded toward zero, and
    /// zero before any token is issued.
    pub fn nav(&self) -> (r: Result<i128, TokenError>)
        requires
            self@.inv(),
        ensures
            r == self@.nav(),
    {
        let supply = self.total_supply;
        if supply == 0 {
            return Ok(0);
        }
        let total_raise = match &self.metadata {
            Some(m) => m.total_raise,
            None => return Err(TokenError::NotInitialized),
        };
        let scale: i128 = 10_000_000;
        proof {
            self.lemma_view_finite();
            lemma_sum_non_negative(self@.balances);
            lemma_units_per_token();
        }
        match total_raise.checked_mul(scale) {
            None => Err(TokenError::Overflow),
            Some(scaled) => Ok(scaled / supply),
        }
    }

    /// Heartbeat: the extension that keeps the token's settings alive.
    pub fn extend_ttl(&self) -> (r: TtlExtension)
        ensures
            r == instance_ttl(),
    {
        instance_extension()
    }

    /// The extension that a movement of tokens applies to the balance entry
    /// of `holder`: a receiving holder's entry is always kept alive, a
    /// sending holder's only while something remains, so that no remaining
    /// tokens expire with it. No extension for an entry that does not exist.
    pub fn holder_extension(&self, holder: Address, receiving: bool) -> (r: Option<TtlExtension>)
        ensures
            r == (if self@.balances.contains_key(holder) && (receiving || self@.balance_of(holder) > 0) {
                Some(persistent_ttl())
            } else {
                None
            }),
    {
        match self.balances.get(&holder.0) {
            Some(b) => if receiving || *b > 0 {
                Some(persistent_extension())
            } else {
                None
            },
            None => None,
        }
    }

    /// The extension for the balance entry of `investor`, which must exist.
    pub fn extend_balance_ttl(&self, investor: Address) -> (r: Result<TtlExtension, TokenError>)
        ensures
            r == (if self@.balances.contains_key(investor) {
                Ok::<TtlExtension, TokenError>(persistent_ttl())
            } else {
                Err(TokenError::NoBalance)
            }),
    {
        if !self.balances.contains_key(&investor.0) {
            return Err(TokenError::NoBalance);
        }
        Ok(persistent_extension())
    }
}

} // verus!

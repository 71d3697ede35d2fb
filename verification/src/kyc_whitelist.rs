//! On-chain register of investors whose identity checks were approved.
//!
//! An admin (cold wallet) governs the register and may hand the role over in
//! two steps; an optional operator (hot wallet) performs the daily work of
//! adding and removing investors alongside the admin.
use std::collections::HashMap;
use vstd::prelude::*;
use crate::address::{
    Address, by_address, lemma_by_address_empty, lemma_by_address_insert, lemma_by_address_remove,
    lemma_pairs_map_step, pairs_map,
};
use crate::ttl::{TtlExtension, instance_extension, persistent_extension, instance_ttl, persistent_ttl};

verus! {

broadcast use vstd::std_specs::hash::group_hash_axioms;

/// Investor classes of the securities regulation.
#[derive(Clone, Copy, PartialEq, Eq, Debug, Structural)]
pub enum InvestorCategory {
    /// Standard retail investor.
    Retail,
    /// Holder of at least R$1M in financial assets.
    Qualified,
    /// Institutional investor, or holder of at least R$10M.
    Professional,
}

/// The record kept for an approved investor.
#[derive(Clone, Copy, PartialEq, Eq, Debug, Structural)]
pub struct WhitelistEntry {
    pub investor_category: InvestorCategory,
    /// Ledger timestamp at approval.
    pub approved_at: u64,
    /// The admin or operator that approved the investor.
    pub approved_by: Address,
}

/// Why a call to the whitelist was refused.
#[derive(Clone, Copy, PartialEq, Eq, Debug, Structural)]
pub enum KycError {
    AlreadyInitialized,
    NotInitialized,
    NoPendingAdmin,
    Unauthorized,
    NotWhitelisted,
}

impl KycError {
    /// The text with which the contract aborts on this error.
    pub fn message(&self) -> (r: &'static str)
        ensures
            *self == KycError::AlreadyInitialized ==> r@ == "Already initialized"@,
            *self == KycError::NotInitialized ==> r@ == "Not initialized"@,
            *self == KycError::NoPendingAdmin ==> r@ == "No pending admin proposal"@,
            *self == KycError::Unauthorized ==> r@ == "Unauthorized: caller is not admin or operator"@,
            *self == KycError::NotWhitelisted ==> r@ == "Address not in whitelist"@,
    {
        match self {
            KycError::AlreadyInitialized => "Already initialized",
            KycError::NotInitialized => "Not initialized",
            KycError::NoPendingAdmin => "No pending admin proposal",
            KycError::Unauthorized => "Unauthorized: caller is not admin or operator",
            KycError::NotWhitelisted => "Address not in whitelist",
        }
    }
}

/// What a successful call announces on the ledger.
#[derive(Clone, Copy, PartialEq, Eq, Debug, Structural)]
pub enum KycEvent {
    AdminProposed(Address),
    AdminAccepted(Address),
    OperatorSet(Address),
    InvestorAdded(Address),
    InvestorRemoved(Address),
}

/// A call that changes the whitelist, with the facts the ledger supplies.
#[derive(Clone, Copy, PartialEq, Eq, Debug, Structural)]
pub enum KycCall {
    Initialize(Address),
    ProposeAdmin(Address),
    AcceptAdmin,
    SetOperator(Address),
    RemoveOperator,
    Add { caller: Address, address: Address, category: InvestorCategory, now: u64 },
    Remove { caller: Address, address: Address },
}

/// Abstract state of the whitelist.
pub struct KycState {
    pub admin: Option<Address>,
    pub pending_admin: Option<Address>,
    pub operator: Option<Address>,
    pub entries: Map<Address, WhitelistEntry>,
}

impl KycState {
    /// A freshly deployed, not yet initialized whitelist.
    pub open spec fn uninitialized() -> KycState {
        KycState {
            admin: None,
            pending_admin: None,
            operator: None,
            entries: Map::empty(),
        }
    }

    /// What every reachable state satisfies: nothing but the admin's own
    /// settings exists before an admin is set, and the register is finite.
    pub open spec fn inv(self) -> bool {
        &&& self.entries.dom().finite()
        &&& self.admin is None ==> {
            &&& self.pending_admin is None
            &&& self.operator is None
            &&& self.entries.dom() == Set::<Address>::empty()
        }
    }

    /// Whose authorization the ledger must demand for `call`: the admin for
    /// governance changes, the proposed admin for accepting the handover, the
    /// caller for changes of the register, the admin being installed at
    /// initialization. `None` when that role is not set, and the call is
    /// refused.
    pub open spec fn signer(self, call: KycCall) -> Option<Address> {
        match call {
            KycCall::Initialize(admin) => Some(admin),
            KycCall::ProposeAdmin(_) => self.admin,
            KycCall::AcceptAdmin => self.pending_admin,
            KycCall::SetOperator(_) => self.admin,
            KycCall::RemoveOperator => self.admin,
            KycCall::Add { caller, .. } => Some(caller),
            KycCall::Remove { caller, .. } => Some(caller),
        }
    }

    pub open spec fn is_admin_or_operator(self, caller: Address) -> bool {
        self.admin == Some(caller) || self.operator == Some(caller)
    }

    /// Privileged register changes: the contract must be initialized, then
    /// the caller must be the admin or the operator.
    pub open spec fn privileged(self, caller: Address) -> Result<(), KycError> {
        if self.admin is None {
            Err(KycError::NotInitialized)
        } else if !self.is_admin_or_operator(caller) {
            Err(KycError::Unauthorized)
        } else {
            Ok(())
        }
    }

    pub open spec fn initialize(self, admin: Address) -> Result<KycState, KycError> {
        if self.admin is Some {
            Err(KycError::AlreadyInitialized)
        } else {
            Ok(KycState { admin: Some(admin), ..self })
        }
    }

    pub open spec fn propose_admin(self, new_admin: Address) -> Result<(KycState, KycEvent), KycError> {
        if self.admin is None {
            Err(KycError::NotInitialized)
        } else {
            Ok((KycState { pending_admin: Some(new_admin), ..self }, KycEvent::AdminProposed(new_admin)))
        }
    }

    pub open spec fn accept_admin(self) -> Result<(KycState, KycEvent), KycError> {
        match self.pending_admin {
            None => Err(KycError::NoPendingAdmin),
            Some(p) => Ok(
                (KycState { admin: Some(p), pending_admin: None, ..self }, KycEvent::AdminAccepted(p)),
            ),
        }
    }

    pub open spec fn set_operator(self, operator: Address) -> Result<(KycState, KycEvent), KycError> {
        if self.admin is None {
            Err(KycError::NotInitialized)
        } else {
            Ok((KycState { operator: Some(operator), ..self }, KycEvent::OperatorSet(operator)))
        }
    }

    pub open spec fn remove_operator(self) -> Result<KycState, KycError> {
        if self.admin is None {
            Err(KycError::NotInitialized)
        } else {
            Ok(KycState { operator: None, ..self })
        }
    }

    pub open spec fn add(
        self,
        caller: Address,
        address: Address,
        category: InvestorCategory,
        now: u64,
    ) -> Result<(KycState, KycEvent), KycError> {
        match self.privileged(caller) {
            Err(e) => Err(e),
            Ok(_) => {
                let entry = WhitelistEntry {
                    investor_category: category,
                    approved_at: now,
                    approved_by: caller,
                };
                Ok(
                    (
                        KycState { entries: self.entries.insert(address, entry), ..self },
                        KycEvent::InvestorAdded(address),
                    ),
                )
            },
        }
    }

    pub open spec fn remove(self, caller: Address, address: Address) -> Result<(KycState, KycEvent), KycError> {
        match self.privileged(caller) {
            Err(e) => Err(e),
            Ok(_) => if !self.entries.contains_key(address) {
                Err(KycError::NotWhitelisted)
            } else {
                Ok(
                    (
                        KycState { entries: self.entries.remove(address), ..self },
                        KycEvent::InvestorRemoved(address),
                    ),
                )
            },
        }
    }
}

/// The whitelist contract's state.
pub struct KYCWhitelist {
    admin: Option<Address>,
    pending_admin: Option<Address>,
    operator: Option<Address>,
    entries: HashMap<u64, WhitelistEntry>,
}

impl View for KYCWhitelist {
    type V = KycState;

    closed spec fn view(&self) -> KycState {
        KycState {
            admin: self.admin,
            pending_admin: self.pending_admin,
            operator: self.operator,
            entries: by_address(self.entries@),
        }
    }
}

impl KYCWhitelist {
    /// A freshly deployed whitelist, before `initialize`.
    pub fn new() -> (r: KYCWhitelist)
        ensures
            r@ == KycState::uninitialized(),
            r@.inv(),
    {
        let r = KYCWhitelist {
            admin: None,
            pending_admin: None,
            operator: None,
            entries: HashMap::new(),
        };
        proof {
            lemma_by_address_empty::<WhitelistEntry>();
            assert(r@.entries.dom() =~= Set::<Address>::empty());
        }
        r
    }

    /// Rebuild the whitelist from its stored settings and the records of the
    /// investors at hand; a record listed twice keeps its last value.
    pub fn restore(
        admin: Option<Address>,
        pending_admin: Option<Address>,
        operator: Option<Address>,
        entries: Vec<(Address, WhitelistEntry)>,
    ) -> (r: KYCWhitelist)
        ensures
            r@ == (KycState { admin, pending_admin, operator, entries: pairs_map(entries@) }),
    {
        let mut map: HashMap<u64, WhitelistEntry> = HashMap::new();
        proof {
            lemma_by_address_empty::<WhitelistEntry>();
            assert(entries@.take(0) =~= Seq::<(Address, WhitelistEntry)>::empty());
        }
        let mut i: usize = 0;
        while i < entries.len()
            invariant
                i <= entries.len(),
                by_address(map@) == pairs_map(entries@.take(i as int)),
            decreases entries.len() - i,
        {
            let (a, e) = entries[i];
            let ghost before = map@;
            map.insert(a.0, e);
            proof {
                lemma_by_address_insert(before, a, e);
                lemma_pairs_map_step(entries@, i as int);
            }
            i = i + 1;
        }
        proof {
            assert(entries@.take(entries@.len() as int) =~= entries@);
        }
        KYCWhitelist { admin, pending_admin, operator, entries: map }
    }

    /// Whose authorization the ledger must demand for `call`, as
    /// `KycState::signer` says.
    pub fn required_signer(&self, call: KycCall) -> (r: Option<Address>)
        ensures
            r == self@.signer(call),
    {
        match call {
            KycCall::Initialize(admin) => Some(admin),
            KycCall::ProposeAdmin(_) => self.admin,
            KycCall::AcceptAdmin => self.pending_admin,
            KycCall::SetOperator(_) => self.admin,
            KycCall::RemoveOperator => self.admin,
            KycCall::Add { caller, .. } => Some(caller),
            KycCall::Remove { caller, .. } => Some(caller),
        }
    }

    /// The proposed successor of the admin, if a handover is under way.
    pub fn pending_admin(&self) -> (r: Option<Address>)
        ensures
            r == self@.pending_admin,
    {
        self.pending_admin
    }

    /// Set the admin (cold wallet) of a fresh deployment. No operator is set.
    pub fn initialize(&mut self, admin: Address) -> (r: Result<(), KycError>)
        ensures
            match old(self)@.initialize(admin) {
                Ok(s) => r == Ok::<(), KycError>(()) && final(self)@ == s,
                Err(e) => r == Err::<(), KycError>(e) && final(self)@ == old(self)@,
            },
    {
        if self.admin.is_some() {
            return Err(KycError::AlreadyInitialized);
        }
        self.admin = Some(admin);
        Ok(())
    }

    /// Step one of the admin handover: the admin proposes a successor, who
    /// must accept before the role changes hands.
    pub fn propose_admin(&mut self, new_admin: Address) -> (r: Result<KycEvent, KycError>)
        ensures
            match old(self)@.propose_admin(new_admin) {
                Ok((s, ev)) => r == Ok::<KycEvent, KycError>(ev) && final(self)@ == s,
                Err(e) => r == Err::<KycEvent, KycError>(e) && final(self)@ == old(self)@,
            },
    {
        if self.admin.is_none() {
            return Err(KycError::NotInitialized);
        }
        self.pending_admin = Some(new_admin);
        Ok(KycEvent::AdminProposed(new_admin))
    }

    /// Step two of the admin handover: the proposed admin takes over.
    pub fn accept_admin(&mut self) -> (r: Result<KycEvent, KycError>)
        ensures
            match old(self)@.accept_admin() {
                Ok((s, ev)) => r == Ok::<KycEvent, KycError>(ev) && final(self)@ == s,
                Err(e) => r == Err::<KycEvent, KycError>(e) && final(self)@ == old(self)@,
            },
    {
        match self.pending_admin {
            None => Err(KycError::NoPendingAdmin),
            Some(pending) => {
                self.admin = Some(pending);
                self.pending_admin = None;
                Ok(KycEvent::AdminAccepted(pending))
            },
        }
    }

    /// Set or replace the operator. Admin only.
    pub fn set_operator(&mut self, operator: Address) -> (r: Result<KycEvent, KycError>)
        ensures
            match old(self)@.set_operator(operator) {
                Ok((s, ev)) => r == Ok::<KycEvent, KycError>(ev) && final(self)@ == s,
                Err(e) => r == Err::<KycEvent, KycError>(e) && final(self)@ == old(self)@,
            },
    {
        if self.admin.is_none() {
            return Err(KycError::NotInitialized);
        }
        self.operator = Some(operator);
        Ok(KycEvent::OperatorSet(operator))
    }

    /// Remove the operator; afterwards only the admin changes the register.
    pub fn remove_operator(&mut self) -> (r: Result<(), KycError>)
        ensures
            match old(self)@.remove_operator() {
                Ok(s) => r == Ok::<(), KycError>(()) && final(self)@ == s,
                Err(e) => r == Err::<(), KycError>(e) && final(self)@ == old(self)@,
            },
    {
        if self.admin.is_none() {
            return Err(KycError::NotInitialized);
        }
        self.operator = None;
        Ok(())
    }

    /// The check before every change of the register: the whitelist must be
    /// initialized, and `caller` must be its admin or its operator. Reads only.
    pub fn require_admin_or_operator(&self, caller: Address) -> (r: Result<(), KycError>)
        ensures
            r == self@.privileged(caller),
            r is Ok <==> (self@.admin is Some && (self@.admin == Some(caller) || self@.operator == Some(caller))),
            self@.admin is None ==> r == Err::<(), KycError>(KycError::NotInitialized),
            self@.admin is Some && !(self@.admin == Some(caller) || self@.operator == Some(caller)) ==> r == Err::<
                (),
                KycError,
            >(KycError::Unauthorized),
    {
        match self.admin {
            None => Err(KycError::NotInitialized),
            Some(admin) => {
                let is_admin = caller == admin;
                let is_operator = match self.operator {
                    Some(op) => op == caller,
                    None => false,
                };
                if is_admin || is_operator {
                    Ok(())
                } else {
                    Err(KycError::Unauthorized)
                }
            },
        }
    }

    /// Approve `address` in `category`; `caller` (admin or operator) is
    /// recorded as approver and `now`, the ledger timestamp, as approval time.
    /// Approving an already approved investor replaces the record.
    pub fn add(&mut self, caller: Address, address: Address, category: InvestorCategory, now: u64) -> (r:
        Result<KycEvent, KycError>)
        ensures
            match old(self)@.add(caller, address, category, now) {
                Ok((s, ev)) => r == Ok::<KycEvent, KycError>(ev) && final(self)@ == s,
                Err(e) => r == Err::<KycEvent, KycError>(e) && final(self)@ == old(self)@,
            },
    {
        match self.require_admin_or_operator(caller) {
            Err(e) => return Err(e),
            Ok(()) => {},
        }
        let entry = WhitelistEntry { investor_category: category, approved_at: now, approved_by: caller };
        self.entries.insert(address.0, entry);
        proof {
            lemma_by_address_insert(old(self).entries@, address, entry);
        }
        Ok(KycEvent::InvestorAdded(address))
    }

    /// Withdraw the approval of `address`; `caller` must be admin or operator.
    pub fn remove(&mut self, caller: Address, address: Address) -> (r: Result<KycEvent, KycError>)
        ensures
            match old(self)@.remove(caller, address) {
                Ok((s, ev)) => r == Ok::<KycEvent, KycError>(ev) && final(self)@ == s,
                Err(e) => r == Err::<KycEvent, KycError>(e) && final(self)@ == old(self)@,
            },
    {
        match self.require_admin_or_operator(caller) {
            Err(e) => return Err(e),
            Ok(()) => {},
        }
        if !self.entries.contains_key(&address.0) {
            return Err(KycError::NotWhitelisted);
        }
        self.entries.remove(&address.0);
        proof {
            lemma_by_address_remove(old(self).entries@, address);
        }
        Ok(KycEvent::InvestorRemoved(address))
    }

    /// Whether `address` is approved. The token consults this on every mint
    /// and transfer.
    pub fn is_ok(&self, address: Address) -> (r: bool)
        ensures
            r == self@.entries.contains_key(address),
    {
        self.entries.contains_key(&address.0)
    }

    /// The record of `address`, or `None` when it is not approved.
    pub fn get_entry(&self, address: Address) -> (r: Option<WhitelistEntry>)
        ensures
            r == (if self@.entries.contains_key(address) {
                Some(self@.entries[address])
            } else {
                None
            }),
    {
        match self.entries.get(&address.0) {
            Some(e) => Some(*e),
            None => None,
        }
    }

    /// The current admin.
    pub fn get_admin(&self) -> (r: Result<Address, KycError>)
        ensures
            r == (match self@.admin {
                Some(a) => Ok::<Address, KycError>(a),
                None => Err(KycError::NotInitialized),
            }),
    {
        match self.admin {
            Some(a) => Ok(a),
            None => Err(KycError::NotInitialized),
        }
    }

    /// The current operator, if one is set.
    pub fn get_operator(&self) -> (r: Option<Address>)
        ensures
            r == self@.operator,
    {
        self.operator
    }

    /// Heartbeat: the extension that keeps the governance settings alive.
    pub fn extend_ttl(&self) -> (r: TtlExtension)
        ensures
            r == instance_ttl(),
    {
        instance_extension()
    }

    /// The extension for the record of `address`, which must be approved.
    pub fn extend_entry_ttl(&self, address: Address) -> (r: Result<TtlExtension, KycError>)
        ensures
            r == (if self@.entries.contains_key(address) {
                Ok::<TtlExtension, KycError>(persistent_ttl())
            } else {
                Err(KycError::NotWhitelisted)
            }),
    {
        if !self.entries.contains_key(&address.0) {
            return Err(KycError::NotWhitelisted);
        }
        Ok(persistent_extension())
    }
}

/// Every call keeps the whitelist's invariant.
pub proof fn lemma_kyc_calls_keep_inv(
    s: KycState,
    a: Address,
    caller: Address,
    category: InvestorCategory,
    now: u64,
)
    requires
        s.inv(),
    ensures
        s.initialize(a) matches Ok(t) ==> t.inv(),
        s.propose_admin(a) matches Ok((t, _)) ==> t.inv(),
        s.accept_admin() matches Ok((t, _)) ==> t.inv(),
        s.set_operator(a) matches Ok((t, _)) ==> t.inv(),
        s.remove_operator() matches Ok(t) ==> t.inv(),
        s.add(caller, a, category, now) matches Ok((t, _)) ==> t.inv(),
        s.remove(caller, a) matches Ok((t, _)) ==> t.inv(),
{
}

/// Once an admin is set, no call leaves the whitelist without one: the
/// contract never works without its admin.
pub proof fn lemma_admin_always_set(s: KycState, a: Address, caller: Address, category: InvestorCategory, now: u64)
    requires
        s.admin is Some,
    ensures
        s.propose_admin(a) matches Ok((t, _)) ==> t.admin is Some,
        s.accept_admin() matches Ok((t, _)) ==> t.admin is Some,
        s.set_operator(a) matches Ok((t, _)) ==> t.admin is Some,
        s.remove_operator() matches Ok(t) ==> t.admin is Some,
        s.add(caller, a, category, now) matches Ok((t, _)) ==> t.admin is Some,
        s.remove(caller, a) matches Ok((t, _)) ==> t.admin is Some,
        s.initialize(a) == Err::<KycState, KycError>(KycError::AlreadyInitialized),
{
}

/// Only the admin or the operator changes the register; anybody else is
/// refused and the register stays as it was.
pub proof fn lemma_only_privileged_change_register(
    s: KycState,
    caller: Address,
    address: Address,
    category: InvestorCategory,
    now: u64,
)
    ensures
        s.add(caller, address, category, now) is Ok ==> s.is_admin_or_operator(caller),
        s.remove(caller, address) is Ok ==> s.is_admin_or_operator(caller),
        s.admin is Some && !s.is_admin_or_operator(caller) ==> {
            &&& s.add(caller, address, category, now) == Err::<(KycState, KycEvent), KycError>(
                KycError::Unauthorized,
            )
            &&& s.remove(caller, address) == Err::<(KycState, KycEvent), KycError>(KycError::Unauthorized)
        },
{
}

/// An investor added is approved, with the category, approver and time
/// given; an investor removed is no longer approved; nobody else's record
/// changes.
pub proof fn lemma_add_then_remove(
    s: KycState,
    caller: Address,
    address: Address,
    other: Address,
    category: InvestorCategory,
    now: u64,
)
    requires
        other != address,
    ensures
        s.add(caller, address, category, now) matches Ok((t, _)) ==> {
            &&& t.entries.contains_key(address)
            &&& t.entries[address] == WhitelistEntry {
                investor_category: category,
                approved_at: now,
                approved_by: caller,
            }
            &&& t.entries.contains_key(other) == s.entries.contains_key(other)
            &&& t.entries[other] == s.entries[other]
        },
        s.remove(caller, address) matches Ok((t, _)) ==> {
            &&& !t.entries.contains_key(address)
            &&& t.entries.contains_key(other) == s.entries.contains_key(other)
            &&& t.entries[other] == s.entries[other]
        },
{
}

/// The admin handover takes two steps: a proposal leaves the admin in
/// control, and the acceptance that follows makes the proposed admin the
/// admin and clears the proposal.
pub proof fn lemma_two_step_handover(s: KycState, new_admin: Address)
    ensures
        s.propose_admin(new_admin) matches Ok((t, _)) ==> {
            &&& t.admin == s.admin
            &&& t.accept_admin() matches Ok((u, ev)) && u.admin == Some(new_admin) && u.pending_admin is None
                && ev == KycEvent::AdminAccepted(new_admin)
        },
        s.pending_admin is None ==> s.accept_admin() == Err::<(KycState, KycEvent), KycError>(
            KycError::NoPendingAdmin,
        ),
{
}

/// Governance is signed by the admin: every governance change that goes
/// through demands the admin's signature, the handover is completed only by
/// the proposed admin, who becomes the admin, and a register change goes
/// through only when its signer is the admin or the operator.
pub proof fn lemma_changes_are_signed(
    s: KycState,
    a: Address,
    caller: Address,
    address: Address,
    category: InvestorCategory,
    now: u64,
)
    ensures
        s.propose_admin(a) is Ok ==> s.admin is Some && s.signer(KycCall::ProposeAdmin(a)) == s.admin,
        s.set_operator(a) is Ok ==> s.admin is Some && s.signer(KycCall::SetOperator(a)) == s.admin,
        s.remove_operator() is Ok ==> s.admin is Some && s.signer(KycCall::RemoveOperator) == s.admin,
        s.accept_admin() matches Ok((t, _)) ==> s.signer(KycCall::AcceptAdmin) == t.admin && t.admin is Some,
        s.add(caller, address, category, now) is Ok ==> s.signer(KycCall::Add { caller, address, category, now })
            == Some(caller) && s.is_admin_or_operator(caller),
        s.remove(caller, address) is Ok ==> s.signer(KycCall::Remove { caller, address }) == Some(caller)
            && s.is_admin_or_operator(caller),
        s.initialize(a) is Ok ==> s.signer(KycCall::Initialize(a)) == Some(a),
{
}

/// On an initialized whitelist, the admin or the operator can always add an
/// investor, and can always remove an approved one, whoever approved it: the
/// investor is then approved, with the record given, or no longer approved.
pub proof fn lemma_privileged_changes_succeed(
    s: KycState,
    caller: Address,
    address: Address,
    category: InvestorCategory,
    now: u64,
)
    requires
        s.admin is Some,
        s.admin == Some(caller) || s.operator == Some(caller),
    ensures
        s.add(caller, address, category, now) matches Ok((t, ev)) && {
            &&& ev == KycEvent::InvestorAdded(address)
            &&& t.entries.contains_key(address)
            &&& t.entries[address] == WhitelistEntry {
                investor_category: category,
                approved_at: now,
                approved_by: caller,
            }
        },
        s.entries.contains_key(address) ==> (s.remove(caller, address) matches Ok((t, ev)) && {
            &&& ev == KycEvent::InvestorRemoved(address)
            &&& !t.entries.contains_key(address)
        }),
{
}

} // verus!

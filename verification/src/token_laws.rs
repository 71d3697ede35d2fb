//! Properties of the offering token that span calls.
use vstd::prelude::*;
use crate::address::Address;
use crate::token_model::{AllowanceKey, OfferingMetadata, TokenError, TokenEvent, TokenState};

verus! {

/// Tokens only ever move for approved holders: a mint succeeds only for an
/// approved recipient, a transfer (direct or through an allowance) only
/// between approved holders, and a burn through an allowance only from an
/// approved holder.
pub proof fn lemma_only_approved_receive(
    s: TokenState,
    caller: Address,
    spender: Address,
    from: Address,
    to: Address,
    amount: i128,
    from_approved: bool,
    to_approved: bool,
    sequence: u32,
)
    ensures
        s.mint(caller, to, amount, to_approved) is Ok ==> to_approved && s.is_admin_or_operator(caller),
        s.transfer(from, to, amount, from_approved, to_approved) is Ok ==> from_approved && to_approved,
        s.transfer_from(spender, from, to, amount, from_approved, to_approved, sequence) is Ok ==> from_approved
            && to_approved,
        s.burn_from(spender, from, amount, from_approved, sequence) is Ok ==> from_approved,
{
}

/// A frozen token refuses every movement of tokens and every approval,
/// and freezing or thawing leaves balances, allowances and supply intact.
pub proof fn lemma_pause_freezes(
    s: TokenState,
    caller: Address,
    spender: Address,
    from: Address,
    to: Address,
    amount: i128,
    from_approved: bool,
    to_approved: bool,
    expiration_ledger: u32,
    sequence: u32,
    paused: bool,
)
    ensures
        s.paused && amount > 0 ==> {
            &&& s.mint(caller, to, amount, to_approved) == Err::<(TokenState, TokenEvent), TokenError>(
                TokenError::Paused,
            )
            &&& s.transfer(from, to, amount, from_approved, to_approved) == Err::<
                (TokenState, TokenEvent),
                TokenError,
            >(TokenError::Paused)
            &&& s.transfer_from(spender, from, to, amount, from_approved, to_approved, sequence) == Err::<
                (TokenState, TokenEvent),
                TokenError,
            >(TokenError::Paused)
            &&& s.burn(from, amount) == Err::<(TokenState, TokenEvent), TokenError>(TokenError::Paused)
            &&& s.burn_from(spender, from, amount, from_approved, sequence) == Err::<(TokenState, TokenEvent), TokenError>(
                TokenError::Paused,
            )
        },
        s.paused ==> s.approve(from, spender, amount, expiration_ledger, sequence) == Err::<
            (TokenState, TokenEvent),
            TokenError,
        >(TokenError::Paused),
        s.set_paused(paused) matches Ok((t, _)) ==> {
            &&& t.paused == paused
            &&& t.balances == s.balances
            &&& t.allowances == s.allowances
            &&& t.total_supply == s.total_supply
        },
{
}

/// A transfer to oneself changes nothing, whatever the amount held.
pub proof fn lemma_self_transfer_is_noop(s: TokenState, a: Address, amount: i128)
    ensures
        s.transfer(a, a, amount, true, true) matches Ok((t, _)) ==> t == s,
{
}

/// A transfer moves exactly `amount` from the sender to the recipient, leaves
/// every other holder and the supply as they were.
pub proof fn lemma_transfer_moves_amount(
    s: TokenState,
    from: Address,
    to: Address,
    other: Address,
    amount: i128,
    from_approved: bool,
    to_approved: bool,
)
    requires
        s.inv(),
        from != to,
        other != from,
        other != to,
    ensures
        s.transfer(from, to, amount, from_approved, to_approved) matches Ok((t, _)) ==> {
            &&& t.balance_of(from) == s.balance_of(from) - amount
            &&& t.balance_of(to) == s.balance_of(to) + amount
            &&& t.balance_of(other) == s.balance_of(other)
            &&& t.total_supply == s.total_supply
        },
{
    crate::token_model::lemma_transfers_keep_inv(s, from, from, to, amount, from_approved, to_approved, 0);
    if let Ok((t, _)) = s.transfer(from, to, amount, from_approved, to_approved) {
        crate::balance_sum::lemma_two_bounded_by_sum(s.balances, from, to);
    }
}

/// Minting adds to the recipient and to the supply; burning takes from the
/// holder and from the supply; neither touches anybody else.
pub proof fn lemma_mint_and_burn_amounts(
    s: TokenState,
    caller: Address,
    holder: Address,
    other: Address,
    amount: i128,
)
    requires
        s.inv(),
        other != holder,
    ensures
        s.mint(caller, holder, amount, true) matches Ok((t, _)) ==> {
            &&& t.balance_of(holder) == s.balance_of(holder) + amount
            &&& t.total_supply == s.total_supply + amount
            &&& t.balance_of(other) == s.balance_of(other)
        },
        s.burn(holder, amount) matches Ok((t, _)) ==> {
            &&& t.balance_of(holder) == s.balance_of(holder) - amount
            &&& t.total_supply == s.total_supply - amount
            &&& t.balance_of(other) == s.balance_of(other)
        },
{
    crate::balance_sum::lemma_one_bounded_by_sum(s.balances, holder);
}

/// The supply never exceeds the authorized offering cap: a mint that would
/// take it past the cap is refused.
pub proof fn lemma_cap_respected(s: TokenState, caller: Address, to: Address, amount: i128, approved: bool)
    requires
        s.inv(),
    ensures
        s.mint(caller, to, amount, approved) matches Ok((t, _)) ==> t.total_supply <= t.metadata.unwrap().max_supply,
        s.metadata matches Some(m) ==> (s.total_supply == 0 || s.total_supply <= m.max_supply),
{
}

/// The offering metadata, once set, never changes, and initializing again is
/// refused.
pub proof fn lemma_metadata_immutable(
    s: TokenState,
    a: Address,
    b: Address,
    c: Address,
    amount: i128,
    flag: bool,
    expiration_ledger: u32,
    sequence: u32,
    name: String,
    symbol: String,
    metadata: OfferingMetadata,
)
    requires
        s.admin is Some,
    ensures
        s.initialize(a, b, c, name, symbol, metadata) == Err::<TokenState, TokenError>(
            TokenError::AlreadyInitialized,
        ),
        s.propose_admin(a) matches Ok((t, _)) ==> t.metadata == s.metadata,
        s.accept_admin() matches Ok((t, _)) ==> t.metadata == s.metadata,
        s.set_operator(a) matches Ok((t, _)) ==> t.metadata == s.metadata,
        s.set_kyc_contract(a) matches Ok((t, _)) ==> t.metadata == s.metadata,
        s.set_paused(flag) matches Ok((t, _)) ==> t.metadata == s.metadata,
        s.mint(a, b, amount, flag) matches Ok((t, _)) ==> t.metadata == s.metadata,
        s.transfer(a, b, amount, flag, flag) matches Ok((t, _)) ==> t.metadata == s.metadata,
        s.transfer_from(c, a, b, amount, flag, flag, sequence) matches Ok((t, _)) ==> t.metadata == s.metadata,
        s.approve(a, b, amount, expiration_ledger, sequence) matches Ok((t, _)) ==> t.metadata == s.metadata,
        s.burn(a, amount) matches Ok((t, _)) ==> t.metadata == s.metadata,
        s.burn_from(c, a, amount, flag, sequence) matches Ok((t, _)) ==> t.metadata == s.metadata,
{
}

/// The admin handover takes two steps: the proposal leaves the admin in
/// control, and the acceptance makes the proposed admin the admin.
pub proof fn lemma_two_step_handover(s: TokenState, new_admin: Address)
    ensures
        s.propose_admin(new_admin) matches Ok((t, _)) ==> {
            &&& t.admin == s.admin
            &&& t.accept_admin() matches Ok((u, ev)) && u.admin == Some(new_admin) && u.pending_admin is None
                && ev == TokenEvent::AdminAccepted(new_admin)
        },
        s.pending_admin is None ==> s.accept_admin() == Err::<(TokenState, TokenEvent), TokenError>(
            TokenError::NoPendingAdmin,
        ),
{
}

/// An approval can be read back until it expires; afterwards it reads as
/// zero and cannot be used.
pub proof fn lemma_allowance_read_back(
    s: TokenState,
    from: Address,
    spender: Address,
    to: Address,
    amount: i128,
    spend: i128,
    expiration_ledger: u32,
    sequence: u32,
    later: u32,
    approved: bool,
)
    ensures
        s.approve(from, spender, amount, expiration_ledger, sequence) matches Ok((t, _)) ==> {
            &&& later <= expiration_ledger ==> t.allowance_of(from, spender, later) == amount
            &&& later > expiration_ledger ==> t.allowance_of(from, spender, later) == 0
        },
        ({
            let key = AllowanceKey { from, spender };
            s.allowances.contains_key(key) && s.allowances[key].expiration_ledger < later && spend > 0
                && !s.paused && s.kyc_contract is Some && approved ==> {
                &&& s.transfer_from(spender, from, to, spend, approved, approved, later) == Err::<
                    (TokenState, TokenEvent),
                    TokenError,
                >(TokenError::AllowanceExpired)
                &&& s.burn_from(spender, from, spend, approved, later) == Err::<(TokenState, TokenEvent), TokenError>(
                    TokenError::AllowanceExpired,
                )
            }
        }),
{
}

/// Spending through an allowance lowers it by exactly the amount spent.
pub proof fn lemma_transfer_from_uses_allowance(
    s: TokenState,
    spender: Address,
    from: Address,
    to: Address,
    amount: i128,
    sequence: u32,
)
    ensures
        s.transfer_from(spender, from, to, amount, true, true, sequence) matches Ok((t, _)) ==> t.allowance_of(
            from,
            spender,
            sequence,
        ) == s.allowance_of(from, spender, sequence) - amount,
        s.burn_from(spender, from, amount, true, sequence) matches Ok((t, _)) ==> t.allowance_of(from, spender, sequence)
            == s.allowance_of(from, spender, sequence) - amount,
{
}

/// Holders can always exit: on a running token, burning a positive amount
/// that the holder has succeeds, whatever the whitelist says of the holder.
pub proof fn lemma_holders_can_exit(s: TokenState, from: Address, amount: i128)
    requires
        s.inv(),
        !s.paused,
        0 < amount <= s.balance_of(from),
    ensures
        s.burn(from, amount) is Ok,
{
}

/// A call to the token, with the facts that the ledger supplies for it.
/// Reading calls change nothing and are left out.
pub enum TokenCall {
    Initialize {
        admin: Address,
        operator: Address,
        kyc_contract: Address,
        name: String,
        symbol: String,
        metadata: OfferingMetadata,
    },
    ProposeAdmin(Address),
    AcceptAdmin,
    SetOperator(Address),
    SetKycContract(Address),
    Pause,
    Unpause,
    Mint { caller: Address, to: Address, amount: i128, to_approved: bool },
    Transfer { from: Address, to: Address, amount: i128, from_approved: bool, to_approved: bool },
    TransferFrom {
        spender: Address,
        from: Address,
        to: Address,
        amount: i128,
        from_approved: bool,
        to_approved: bool,
        sequence: u32,
    },
    Approve { from: Address, spender: Address, amount: i128, expiration_ledger: u32, sequence: u32 },
    Burn { from: Address, amount: i128 },
    BurnFrom { spender: Address, from: Address, amount: i128, from_approved: bool, sequence: u32 },
}

/// The state after one call: the new state when the call succeeds, the same
/// state when it is refused.
pub open spec fn after(s: TokenState, call: TokenCall) -> TokenState {
    let step = match call {
        TokenCall::Initialize { admin, operator, kyc_contract, name, symbol, metadata } => match s.initialize(
            admin,
            operator,
            kyc_contract,
            name,
            symbol,
            metadata,
        ) {
            Ok(t) => Ok((t, TokenEvent::Paused)),
            Err(e) => Err(e),
        },
        TokenCall::ProposeAdmin(a) => s.propose_admin(a),
        TokenCall::AcceptAdmin => s.accept_admin(),
        TokenCall::SetOperator(a) => s.set_operator(a),
        TokenCall::SetKycContract(a) => s.set_kyc_contract(a),
        TokenCall::Pause => s.set_paused(true),
        TokenCall::Unpause => s.set_paused(false),
        TokenCall::Mint { caller, to, amount, to_approved } => s.mint(caller, to, amount, to_approved),
        TokenCall::Transfer { from, to, amount, from_approved, to_approved } => s.transfer(
            from,
            to,
            amount,
            from_approved,
            to_approved,
        ),
        TokenCall::TransferFrom { spender, from, to, amount, from_approved, to_approved, sequence } => s.transfer_from(
            spender,
            from,
            to,
            amount,
            from_approved,
            to_approved,
            sequence,
        ),
        TokenCall::Approve { from, spender, amount, expiration_ledger, sequence } => s.approve(
            from,
            spender,
            amount,
            expiration_ledger,
            sequence,
        ),
        TokenCall::Burn { from, amount } => s.burn(from, amount),
        TokenCall::BurnFrom { spender, from, amount, from_approved, sequence } => s.burn_from(
            spender,
            from,
            amount,
            from_approved,
            sequence,
        ),
    };
    match step {
        Ok((t, _)) => t,
        Err(_) => s,
    }
}

/// The state after a sequence of calls, made in order.
pub open spec fn after_all(s: TokenState, calls: Seq<TokenCall>) -> TokenState
    decreases calls.len(),
{
    if calls.len() == 0 {
        s
    } else {
        after(after_all(s, calls.drop_last()), calls.last())
    }
}

proof fn lemma_after_keeps_metadata(s: TokenState, call: TokenCall)
    requires
        s.admin is Some,
    ensures
        after(s, call).admin is Some,
        after(s, call).metadata == s.metadata,
{
    match call {
        TokenCall::Initialize { .. } => {},
        TokenCall::ProposeAdmin(_) => {},
        TokenCall::AcceptAdmin => {},
        TokenCall::SetOperator(_) => {},
        TokenCall::SetKycContract(_) => {},
        TokenCall::Pause => {},
        TokenCall::Unpause => {},
        TokenCall::Mint { .. } => {},
        TokenCall::Transfer { .. } => {},
        TokenCall::TransferFrom { .. } => {},
        TokenCall::Approve { .. } => {},
        TokenCall::Burn { .. } => {},
        TokenCall::BurnFrom { .. } => {},
    }
}

/// The offering metadata fixed at initialization stays what it was, whatever
/// calls follow, in any number and order, refused or not.
pub proof fn lemma_metadata_fixed_for_any_calls(
    s: TokenState,
    admin: Address,
    operator: Address,
    kyc_contract: Address,
    name: String,
    symbol: String,
    metadata: OfferingMetadata,
    calls: Seq<TokenCall>,
)
    requires
        s.initialize(admin, operator, kyc_contract, name, symbol, metadata) is Ok,
    ensures
        after_all(s.initialize(admin, operator, kyc_contract, name, symbol, metadata).unwrap(), calls).metadata
            == Some(metadata),
        after_all(s.initialize(admin, operator, kyc_contract, name, symbol, metadata).unwrap(), calls).admin is Some,
    decreases calls.len(),
{
    if calls.len() > 0 {
        let t = s.initialize(admin, operator, kyc_contract, name, symbol, metadata).unwrap();
        lemma_metadata_fixed_for_any_calls(s, admin, operator, kyc_contract, name, symbol, metadata, calls.drop_last());
        lemma_after_keeps_metadata(after_all(t, calls.drop_last()), calls.last());
    }
}

/// Whose authorization the ledger must demand for a call: the admin for
/// every governance change, the proposed admin for accepting the handover,
/// and otherwise the party named by the call (the caller that mints, the
/// holder that sends, approves or burns, the spender that uses an
/// allowance, the admin being installed). `None` when the role is not set,
/// in which case the call is refused.
pub open spec fn signer(s: TokenState, call: TokenCall) -> Option<Address> {
    match call {
        TokenCall::Initialize { admin, .. } => Some(admin),
        TokenCall::ProposeAdmin(_) => s.admin,
        TokenCall::AcceptAdmin => s.pending_admin,
        TokenCall::SetOperator(_) => s.admin,
        TokenCall::SetKycContract(_) => s.admin,
        TokenCall::Pause => s.admin,
        TokenCall::Unpause => s.admin,
        TokenCall::Mint { caller, .. } => Some(caller),
        TokenCall::Transfer { from, .. } => Some(from),
        TokenCall::TransferFrom { spender, .. } => Some(spender),
        TokenCall::Approve { from, .. } => Some(from),
        TokenCall::Burn { from, .. } => Some(from),
        TokenCall::BurnFrom { spender, .. } => Some(spender),
    }
}

/// Governance is signed by the admin: every governance change that goes
/// through demands the signature of the admin in office, the handover is
/// completed only by the proposed admin, who becomes the admin, and a mint
/// goes through only when its signer is the admin or the operator. A call
/// that changes nothing about roles refuses when its signer's role is unset.
pub proof fn lemma_governance_is_signed_by_admin(s: TokenState, a: Address, caller: Address, to: Address, amount: i128, approved: bool)
    ensures
        s.propose_admin(a) is Ok ==> s.admin is Some && signer(s, TokenCall::ProposeAdmin(a)) == s.admin,
        s.set_operator(a) is Ok ==> s.admin is Some && signer(s, TokenCall::SetOperator(a)) == s.admin,
        s.set_kyc_contract(a) is Ok ==> s.admin is Some && signer(s, TokenCall::SetKycContract(a)) == s.admin,
        s.set_paused(true) is Ok ==> s.admin is Some && signer(s, TokenCall::Pause) == s.admin,
        s.set_paused(false) is Ok ==> s.admin is Some && signer(s, TokenCall::Unpause) == s.admin,
        s.accept_admin() matches Ok((t, _)) ==> signer(s, TokenCall::AcceptAdmin) == t.admin && t.admin is Some,
        s.mint(caller, to, amount, approved) is Ok ==> signer(
            s,
            TokenCall::Mint { caller, to, amount, to_approved: approved },
        ) == Some(caller) && s.is_admin_or_operator(caller),
        s.admin is None ==> {
            &&& s.propose_admin(a) is Err
            &&& s.set_operator(a) is Err
            &&& s.set_kyc_contract(a) is Err
            &&& s.set_paused(true) is Err
            &&& s.set_paused(false) is Err
        },
        s.pending_admin is None ==> s.accept_admin() is Err,
{
}

/// A mint by the admin or the operator to an approved investor, of a
/// positive amount that keeps the supply within the cap, on a running
/// token, always goes through: the recipient and the supply both grow by
/// exactly the amount, whatever the recipient already holds, and nobody
/// else's balance changes.
pub proof fn lemma_mint_succeeds(s: TokenState, caller: Address, to: Address, other: Address, amount: i128)
    requires
        s.inv(),
        s.admin is Some,
        !s.paused,
        s.admin == Some(caller) || s.operator == Some(caller),
        amount > 0,
        s.total_supply + amount <= s.metadata.unwrap().max_supply,
        other != to,
    ensures
        s.mint(caller, to, amount, true) matches Ok((t, ev)) && {
            &&& ev == TokenEvent::Minted { to, amount }
            &&& t.balance_of(to) == s.balance_of(to) + amount
            &&& t.total_supply == s.total_supply + amount
            &&& t.balance_of(other) == s.balance_of(other)
            &&& t.metadata == s.metadata
        },
{
    crate::balance_sum::lemma_one_bounded_by_sum(s.balances, to);
}

/// A transfer of a positive amount that the sender holds, between approved
/// holders on a running token, always goes through, whatever the recipient
/// already holds: the sender loses exactly the amount and the recipient gains
/// it; a transfer to oneself goes through and changes nothing.
pub proof fn lemma_transfer_succeeds(s: TokenState, from: Address, to: Address, other: Address, amount: i128)
    requires
        s.inv(),
        s.admin is Some,
        !s.paused,
        0 < amount <= s.balance_of(from),
        other != from,
        other != to,
    ensures
        s.transfer(from, to, amount, true, true) matches Ok((t, ev)) && {
            &&& ev == TokenEvent::Transferred { from, to, amount }
            &&& from != to ==> t.balance_of(from) == s.balance_of(from) - amount
            &&& from != to ==> t.balance_of(to) == s.balance_of(to) + amount
            &&& from == to ==> t == s
            &&& t.balance_of(other) == s.balance_of(other)
            &&& t.total_supply == s.total_supply
        },
{
    if from != to {
        crate::balance_sum::lemma_two_bounded_by_sum(s.balances, from, to);
    }
}

/// A spender with a live allowance of at least the amount moves a positive
/// amount that the owner holds, up to the whole balance, between approved
/// holders on a running token: the call goes through, the owner loses
/// exactly the amount, the recipient gains it, and the allowance shrinks by
/// it.
pub proof fn lemma_transfer_from_succeeds(
    s: TokenState,
    spender: Address,
    from: Address,
    to: Address,
    amount: i128,
    sequence: u32,
)
    requires
        s.inv(),
        s.admin is Some,
        !s.paused,
        from != to,
        0 < amount <= s.balance_of(from),
        amount <= s.allowance_of(from, spender, sequence),
    ensures
        s.transfer_from(spender, from, to, amount, true, true, sequence) matches Ok((t, ev)) && {
            &&& ev == TokenEvent::TransferredFrom { spender, from, to, amount }
            &&& t.balance_of(from) == s.balance_of(from) - amount
            &&& t.balance_of(to) == s.balance_of(to) + amount
            &&& t.allowance_of(from, spender, sequence) == s.allowance_of(from, spender, sequence) - amount
            &&& t.total_supply == s.total_supply
        },
{
    crate::balance_sum::lemma_two_bounded_by_sum(s.balances, from, to);
}

/// A spender with a live allowance of at least the amount burns a positive
/// amount that an approved owner holds, up to the whole balance, on a
/// running token: the call goes through, and the owner's balance, the
/// supply and the allowance all drop by exactly the amount.
pub proof fn lemma_burn_from_succeeds(s: TokenState, spender: Address, from: Address, amount: i128, sequence: u32)
    requires
        s.inv(),
        s.admin is Some,
        !s.paused,
        0 < amount <= s.balance_of(from),
        amount <= s.allowance_of(from, spender, sequence),
    ensures
        s.burn_from(spender, from, amount, true, sequence) matches Ok((t, ev)) && {
            &&& ev == TokenEvent::BurnedFrom { spender, from, amount }
            &&& t.balance_of(from) == s.balance_of(from) - amount
            &&& t.total_supply == s.total_supply - amount
            &&& t.allowance_of(from, spender, sequence) == s.allowance_of(from, spender, sequence) - amount
        },
{
    crate::balance_sum::lemma_one_bounded_by_sum(s.balances, from);
}

} // verus!

//! How the whitelist and the token work together: the token asks the
//! whitelist about every party before tokens move.
use vstd::prelude::*;
use crate::address::Address;
use crate::kyc_whitelist::{InvestorCategory, KycState};
use crate::token_model::{TokenError, TokenEvent, TokenState};

verus! {

/// Revocation is immediate: once an investor is removed from the whitelist
/// that the token consults, the token neither issues to that investor nor
/// moves tokens from or to it, directly or through an allowance.
pub proof fn lemma_revocation_is_immediate(
    k: KycState,
    t: TokenState,
    kyc_caller: Address,
    caller: Address,
    investor: Address,
    other: Address,
    spender: Address,
    amount: i128,
    other_approved: bool,
    sequence: u32,
)
    ensures
        k.remove(kyc_caller, investor) matches Ok((k2, _)) ==> {
            let approved = k2.entries.contains_key(investor);
            &&& t.mint(caller, investor, amount, approved) is Err
            &&& t.transfer(investor, other, amount, approved, other_approved) is Err
            &&& t.transfer(other, investor, amount, other_approved, approved) is Err
            &&& t.transfer_from(spender, investor, other, amount, approved, other_approved, sequence) is Err
            &&& t.transfer_from(spender, other, investor, amount, other_approved, approved, sequence) is Err
            &&& t.burn_from(spender, investor, amount, approved, sequence) is Err
        },
{
}

/// An investor just approved by the whitelist is not refused by the token
/// for lack of approval: with the admin or operator minting, within the cap,
/// on a running token, the mint goes through.
pub proof fn lemma_approval_enables_mint(
    k: KycState,
    t: TokenState,
    kyc_caller: Address,
    investor: Address,
    category: InvestorCategory,
    now: u64,
    amount: i128,
)
    requires
        t.inv(),
        t.admin is Some,
        !t.paused,
        amount > 0,
        t.total_supply + amount <= t.metadata.unwrap().max_supply,
    ensures
        k.add(kyc_caller, investor, category, now) matches Ok((k2, _)) ==> {
            &&& k2.entries.contains_key(investor)
            &&& t.mint(t.admin.unwrap(), investor, amount, k2.entries.contains_key(investor)) == Ok::<
                (TokenState, TokenEvent),
                TokenError,
            >(
                (
                    TokenState {
                        balances: t.balances.insert(investor, (t.balance_of(investor) + amount) as i128),
                        total_supply: (t.total_supply + amount) as i128,
                        ..t
                    },
                    TokenEvent::Minted { to: investor, amount },
                ),
            )
        },
{
}

} // verus!

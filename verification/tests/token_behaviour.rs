use bwb_stellar::address::Address;
use bwb_stellar::real_estate_token::{RealEstateToken, allowance_lifetime};
use bwb_stellar::token_laws::TokenCall;
use bwb_stellar::token_model::{AllowanceKey, AllowanceValue, OfferingMetadata, TokenConfig, TokenError, TokenEvent};

const ADMIN: Address = Address(1);
const OPERATOR: Address = Address(2);
const KYC: Address = Address(3);
const ALICE: Address = Address(10);
const BOB: Address = Address(11);
const CAROL: Address = Address(12);

fn metadata(total_raise: i128, max_supply: i128) -> OfferingMetadata {
    OfferingMetadata {
        offering_id: String::from("HAUS-06"),
        property_address: String::from("Av. Brasil, 1"),
        total_raise,
        max_supply,
        target_irr_bps: 2050,
        maturity_date: 1_900_000_000,
        cvm_authorization: String::from("CVM-88-2025-002"),
    }
}

fn token(total_raise: i128, max_supply: i128) -> RealEstateToken {
    let mut t = RealEstateToken::new();
    t.initialize(ADMIN, OPERATOR, KYC, String::from("HAUS Token"), String::from("HAUS"), metadata(total_raise, max_supply))
        .unwrap();
    t
}

#[test]
fn token_events_report_what_happened() {
    let mut t = token(1_000, 1_000_000);
    assert_eq!(t.mint(OPERATOR, ALICE, 500, true), Ok(TokenEvent::Minted { to: ALICE, amount: 500 }));
    assert_eq!(
        t.transfer(ALICE, BOB, 100, true, true),
        Ok(TokenEvent::Transferred { from: ALICE, to: BOB, amount: 100 })
    );
    assert_eq!(
        t.approve(ALICE, CAROL, 50, 20, 5),
        Ok(TokenEvent::Approved { from: ALICE, spender: CAROL, amount: 50 })
    );
    assert_eq!(
        t.transfer_from(CAROL, ALICE, BOB, 20, true, true, 6),
        Ok(TokenEvent::TransferredFrom { spender: CAROL, from: ALICE, to: BOB, amount: 20 })
    );
    assert_eq!(
        t.burn_from(CAROL, ALICE, 30, true, 7),
        Ok(TokenEvent::BurnedFrom { spender: CAROL, from: ALICE, amount: 30 })
    );
    assert_eq!(t.burn(BOB, 20), Ok(TokenEvent::Burned { from: BOB, amount: 20 }));
    assert_eq!(t.pause(), Ok(TokenEvent::Paused));
    assert_eq!(t.unpause(), Ok(TokenEvent::Unpaused));
    assert_eq!(t.set_operator(CAROL), Ok(TokenEvent::OperatorSet(CAROL)));
    assert_eq!(t.set_kyc_contract(BOB), Ok(TokenEvent::KycContractUpdated { old: KYC, new: BOB }));
    assert_eq!(t.propose_admin(BOB), Ok(TokenEvent::AdminProposed(BOB)));
    assert_eq!(t.accept_admin(), Ok(TokenEvent::AdminAccepted(BOB)));

    assert_eq!(t.balance(ALICE), 350);
    assert_eq!(t.balance(BOB), 100);
    assert_eq!(t.total_supply(), 450);
    // the allowance was used up entirely
    assert_eq!(t.allowance(ALICE, CAROL, 7), 0);
    assert_eq!(t.transfer_from(CAROL, ALICE, BOB, 1, true, true, 7), Err(TokenError::NoAllowance));
}

#[test]
fn token_refusals_leave_state_unchanged() {
    let mut t = token(1_000, 1_000);
    t.mint(ADMIN, ALICE, 100, true).unwrap();
    t.approve(ALICE, CAROL, 500, 100, 0).unwrap();
    // allowance is large enough but the balance is not: nothing is spent
    assert_eq!(t.transfer_from(CAROL, ALICE, BOB, 200, true, true, 0), Err(TokenError::InsufficientBalance));
    assert_eq!(t.allowance(ALICE, CAROL, 0), 500);
    assert_eq!(t.burn_from(CAROL, ALICE, 200, true, 0), Err(TokenError::InsufficientBalance));
    assert_eq!(t.allowance(ALICE, CAROL, 0), 500);
    assert_eq!(t.balance(ALICE), 100);
    assert_eq!(t.total_supply(), 100);
}

#[test]
fn token_every_error_has_its_input() {
    let mut fresh = RealEstateToken::new();
    assert_eq!(fresh.mint(ADMIN, ALICE, 1, true), Err(TokenError::NotInitialized));
    assert_eq!(fresh.transfer(ALICE, BOB, 1, true, true), Err(TokenError::NotInitialized));
    assert_eq!(fresh.pause(), Err(TokenError::NotInitialized));
    assert_eq!(fresh.get_admin(), Err(TokenError::NotInitialized));
    assert_eq!(fresh.get_operator(), None);
    assert!(fresh.name().is_err());
    assert!(fresh.symbol().is_err());
    assert!(fresh.get_offering().is_err());
    assert_eq!(fresh.accept_admin(), Err(TokenError::NoPendingAdmin));

    let mut t = token(1_000, 1_000);
    assert_eq!(
        t.initialize(ADMIN, OPERATOR, KYC, String::from("X"), String::from("X"), metadata(1, 1)),
        Err(TokenError::AlreadyInitialized)
    );
    assert_eq!(t.mint(ADMIN, ALICE, -5, true), Err(TokenError::NonPositiveAmount));
    assert_eq!(t.mint(BOB, ALICE, 5, true), Err(TokenError::Unauthorized));
    assert_eq!(t.mint(ADMIN, ALICE, 5, false), Err(TokenError::NotKycApproved));
    assert_eq!(t.mint(ADMIN, ALICE, 1_001, true), Err(TokenError::CapExceeded));
    t.mint(ADMIN, ALICE, 100, true).unwrap();
    assert_eq!(t.transfer(ALICE, BOB, 5, false, true), Err(TokenError::NotKycApproved));
    assert_eq!(t.transfer(ALICE, BOB, 101, true, true), Err(TokenError::InsufficientBalance));
    assert_eq!(t.transfer_from(CAROL, ALICE, BOB, 5, true, true, 0), Err(TokenError::NoAllowance));
    assert_eq!(t.approve(ALICE, CAROL, -1, 10, 0), Err(TokenError::NegativeAmount));
    assert_eq!(t.approve(ALICE, CAROL, 10, 3, 3), Err(TokenError::ExpirationNotInFuture));
    t.approve(ALICE, CAROL, 10, 3, 0).unwrap();
    assert_eq!(t.transfer_from(CAROL, ALICE, BOB, 5, true, true, 4), Err(TokenError::AllowanceExpired));
    assert_eq!(t.transfer_from(CAROL, ALICE, BOB, 11, true, true, 3), Err(TokenError::InsufficientAllowance));
    assert_eq!(t.extend_balance_ttl(BOB), Err(TokenError::NoBalance));
    t.pause().unwrap();
    assert_eq!(t.burn(ALICE, 1), Err(TokenError::Paused));
    assert_eq!(t.approve(ALICE, CAROL, 10, 30, 0), Err(TokenError::Paused));

    let mut big = token(1, i128::MAX);
    big.mint(ADMIN, ALICE, 1, true).unwrap();
    assert_eq!(big.mint(ADMIN, ALICE, i128::MAX, true), Err(TokenError::Overflow));
}

#[test]
fn token_allowance_expires_after_its_ledger() {
    let mut t = token(1_000, 1_000);
    t.mint(ADMIN, ALICE, 100, true).unwrap();
    t.approve(ALICE, CAROL, 40, 50, 10).unwrap();
    assert_eq!(t.allowance(ALICE, CAROL, 50), 40);
    assert_eq!(t.allowance(ALICE, CAROL, 51), 0);
    // approving zero withdraws the allowance
    t.approve(ALICE, CAROL, 0, 60, 10).unwrap();
    assert_eq!(t.allowance(ALICE, CAROL, 10), 0);
    assert_eq!(t.transfer_from(CAROL, ALICE, BOB, 1, true, true, 10), Err(TokenError::NoAllowance));
    assert_eq!(allowance_lifetime(50, 10), 40);
}

#[test]
fn token_nav_formula() {
    let mut t = token(250_000_000, 10_000_000_000);
    assert_eq!(t.nav(), Ok(0));
    t.mint(ADMIN, ALICE, 1_000_000_000, true).unwrap();
    // 250_000_000 * 10^7 / 1_000_000_000
    assert_eq!(t.nav(), Ok(2_500_000));
    t.mint(ADMIN, ALICE, 3, true).unwrap();
    // rounded toward zero
    assert_eq!(t.nav(), Ok(2_499_999));

    let mut huge = token(i128::MAX / 1_000, 10);
    huge.mint(ADMIN, ALICE, 1, true).unwrap();
    assert_eq!(huge.nav(), Err(TokenError::Overflow));
}

#[test]
fn token_supply_matches_holdings_through_a_session() {
    let mut t = token(1_000, 10_000);
    t.mint(ADMIN, ALICE, 3_000, true).unwrap();
    t.mint(OPERATOR, BOB, 2_000, true).unwrap();
    t.transfer(ALICE, CAROL, 1_000, true, true).unwrap();
    t.burn(BOB, 500).unwrap();
    t.transfer(CAROL, CAROL, 10_000, true, true).unwrap();
    let held = t.balance(ALICE) + t.balance(BOB) + t.balance(CAROL);
    assert_eq!(t.total_supply(), held);
    assert_eq!(held, 4_500);
    // the cap counts what is in circulation
    assert_eq!(t.mint(ADMIN, ALICE, 5_501, true), Err(TokenError::CapExceeded));
    t.mint(ADMIN, ALICE, 5_500, true).unwrap();
    assert_eq!(t.total_supply(), 10_000);
}

#[test]
fn token_metadata_and_ttl() {
    let t = token(7, 9);
    let m = t.get_offering().unwrap();
    assert_eq!(m.offering_id, "HAUS-06");
    assert_eq!(m.total_raise, 7);
    assert_eq!(m.max_supply, 9);
    assert_eq!(t.decimals(), 7);
    let ttl = t.extend_ttl();
    assert_eq!((ttl.threshold, ttl.extend_to), (518_400, 1_036_800));
    assert_eq!(TokenError::CapExceeded.message(), "Mint exceeds CVM-88 authorized offering cap");
}

#[test]
fn token_balance_entry_ttl() {
    let mut t = token(7, 100);
    t.mint(ADMIN, ALICE, 10, true).unwrap();
    let ttl = t.extend_balance_ttl(ALICE).unwrap();
    assert_eq!((ttl.threshold, ttl.extend_to), (518_400, 2_073_600));
    // an emptied balance entry still exists
    t.transfer(ALICE, BOB, 10, true, true).unwrap();
    assert_eq!(t.balance(ALICE), 0);
    assert!(t.extend_balance_ttl(ALICE).is_ok());
}

fn config(max_supply: i128) -> TokenConfig {
    TokenConfig {
        admin: ADMIN,
        operator: OPERATOR,
        kyc_contract: KYC,
        name: String::from("HAUS Token"),
        symbol: String::from("HAUS"),
        metadata: metadata(1_000, max_supply),
    }
}

#[test]
fn token_restore_accepts_consistent_state() {
    let key = AllowanceKey { from: ALICE, spender: CAROL };
    let mut t = RealEstateToken::restore(
        Some(config(1_000)),
        Some(BOB),
        300,
        false,
        vec![(ALICE, 200), (BOB, 100), (CAROL, 0)],
        vec![(key, AllowanceValue { amount: 50, expiration_ledger: 9 })],
    )
    .unwrap();
    assert_eq!(t.balance(ALICE), 200);
    assert_eq!(t.total_supply(), 300);
    assert_eq!(t.pending_admin(), Some(BOB));
    assert_eq!(t.kyc_contract(), Ok(KYC));
    assert_eq!(t.allowance_entry(ALICE, CAROL), Some(AllowanceValue { amount: 50, expiration_ledger: 9 }));
    assert_eq!(t.allowance(ALICE, CAROL, 10), 0);
    t.transfer_from(CAROL, ALICE, BOB, 50, true, true, 9).unwrap();
    assert_eq!(t.allowance_entry(ALICE, CAROL), None);
    assert_eq!(t.accept_admin(), Ok(TokenEvent::AdminAccepted(BOB)));
}

#[test]
fn token_restore_refuses_inconsistent_state() {
    let key = AllowanceKey { from: ALICE, spender: CAROL };
    // supply differs from holdings
    assert!(RealEstateToken::restore(Some(config(1_000)), None, 301, false, vec![(ALICE, 300)], vec![]).is_none());
    // a holder listed twice
    assert!(
        RealEstateToken::restore(Some(config(1_000)), None, 300, false, vec![(ALICE, 150), (ALICE, 150)], vec![])
            .is_none()
    );
    // a negative balance
    assert!(
        RealEstateToken::restore(Some(config(1_000)), None, 100, false, vec![(ALICE, 200), (BOB, -100)], vec![])
            .is_none()
    );
    // beyond the cap
    assert!(RealEstateToken::restore(Some(config(10)), None, 300, false, vec![(ALICE, 300)], vec![]).is_none());
    // a stored allowance of zero
    assert!(RealEstateToken::restore(
        Some(config(1_000)),
        None,
        0,
        false,
        vec![],
        vec![(key, AllowanceValue { amount: 0, expiration_ledger: 9 })]
    )
    .is_none());
    // holdings before initialization
    assert!(RealEstateToken::restore(None, None, 5, false, vec![(ALICE, 5)], vec![]).is_none());
    // a fresh deployment with an allowance already on record is consistent
    let fresh = RealEstateToken::restore(
        None,
        None,
        0,
        false,
        vec![],
        vec![(key, AllowanceValue { amount: 3, expiration_ledger: 9 })],
    )
    .unwrap();
    assert_eq!(fresh.allowance(ALICE, CAROL, 0), 3);
}

#[test]
fn token_burn_from_needs_approved_holder() {
    let mut t = token(1_000, 1_000);
    t.mint(ADMIN, ALICE, 100, true).unwrap();
    t.approve(ALICE, CAROL, 60, 50, 0).unwrap();
    assert_eq!(t.burn_from(CAROL, ALICE, 10, false, 0), Err(TokenError::NotKycApproved));
    assert_eq!(t.allowance(ALICE, CAROL, 0), 60);
    assert_eq!(t.balance(ALICE), 100);
    assert_eq!(t.total_supply(), 100);
    // the freeze is checked before the whitelist
    t.pause().unwrap();
    assert_eq!(t.burn_from(CAROL, ALICE, 10, false, 0), Err(TokenError::Paused));
    t.unpause().unwrap();
    assert_eq!(t.burn_from(CAROL, ALICE, 10, true, 0), Ok(TokenEvent::BurnedFrom { spender: CAROL, from: ALICE, amount: 10 }));
    assert_eq!(t.allowance(ALICE, CAROL, 0), 50);
}

#[test]
fn token_checks_that_come_first() {
    let mut t = token(1_000, 1_000);
    assert_eq!(t.check_movement(0), Err(TokenError::NonPositiveAmount));
    assert_eq!(t.check_movement(5), Ok(()));
    assert_eq!(t.check_minter(OPERATOR), Ok(()));
    assert_eq!(t.check_minter(ALICE), Err(TokenError::Unauthorized));
    assert_eq!(RealEstateToken::new().check_minter(ADMIN), Err(TokenError::NotInitialized));
    t.pause().unwrap();
    assert_eq!(t.check_movement(5), Err(TokenError::Paused));
    assert_eq!(t.get_operator(), Some(OPERATOR));
}

#[test]
fn token_holder_extension_plan() {
    let mut t = token(1_000, 1_000);
    assert_eq!(t.holder_extension(ALICE, true), None);
    t.mint(ADMIN, ALICE, 10, true).unwrap();
    let ext = t.holder_extension(ALICE, false).unwrap();
    assert_eq!((ext.threshold, ext.extend_to), (518_400, 2_073_600));
    t.transfer(ALICE, BOB, 10, true, true).unwrap();
    assert_eq!(t.holder_extension(ALICE, false), None);
    assert!(t.holder_extension(ALICE, true).is_some());
    assert!(t.holder_extension(BOB, true).is_some());
}

#[test]
fn token_required_signers() {
    let fresh = RealEstateToken::new();
    assert_eq!(fresh.required_signer(&TokenCall::Pause), None);
    assert_eq!(fresh.required_signer(&TokenCall::AcceptAdmin), None);
    let mut t = token(1_000, 1_000);
    assert_eq!(t.required_signer(&TokenCall::Pause), Some(ADMIN));
    assert_eq!(t.required_signer(&TokenCall::SetOperator(BOB)), Some(ADMIN));
    assert_eq!(t.required_signer(&TokenCall::SetKycContract(BOB)), Some(ADMIN));
    assert_eq!(t.required_signer(&TokenCall::AcceptAdmin), None);
    t.propose_admin(BOB).unwrap();
    assert_eq!(t.required_signer(&TokenCall::AcceptAdmin), Some(BOB));
    assert_eq!(
        t.required_signer(&TokenCall::Mint { caller: OPERATOR, to: ALICE, amount: 5, to_approved: true }),
        Some(OPERATOR)
    );
    assert_eq!(
        t.required_signer(&TokenCall::TransferFrom {
            spender: CAROL,
            from: ALICE,
            to: BOB,
            amount: 5,
            from_approved: true,
            to_approved: true,
            sequence: 0
        }),
        Some(CAROL)
    );
    assert_eq!(
        t.required_signer(&TokenCall::BurnFrom { spender: CAROL, from: ALICE, amount: 1, from_approved: true, sequence: 0 }),
        Some(CAROL)
    );
    assert_eq!(t.required_signer(&TokenCall::Burn { from: ALICE, amount: 1 }), Some(ALICE));
}

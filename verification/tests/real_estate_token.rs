use bwb_stellar::address::Address;
use bwb_stellar::kyc_whitelist::{InvestorCategory, KYCWhitelist, KycError};
use bwb_stellar::real_estate_token::RealEstateToken;
use bwb_stellar::token_model::{OfferingMetadata, TokenError, TokenEvent};

/// Ledger sequence and timestamp of the test ledger.
const SEQUENCE: u32 = 0;
const NOW: u64 = 0;

fn must<T>(r: Result<T, TokenError>) -> T {
    match r {
        Ok(v) => v,
        Err(e) => panic!("{}", e.message()),
    }
}

fn must_kyc<T>(r: Result<T, KycError>) -> T {
    match r {
        Ok(v) => v,
        Err(e) => panic!("{}", e.message()),
    }
}

fn make_metadata() -> OfferingMetadata {
    OfferingMetadata {
        offering_id: String::from("ARTP-HS"),
        property_address: String::from("Rua das Flores, 100, Jaraguá do Sul, SC"),
        total_raise: 250_000_000,
        max_supply: 10_000_000_000,
        target_irr_bps: 2680,
        maturity_date: 1_800_000_000,
        cvm_authorization: String::from("CVM-88-2024-001"),
    }
}

/// A ledger holding whitelist contracts and the token. The token consults
/// the whitelist that it is configured with, as the host does on its behalf.
struct Ledger {
    next: u64,
    whitelists: Vec<(Address, KYCWhitelist)>,
    token_kyc: Address,
    token: RealEstateToken,
}

impl Ledger {
    fn generate(&mut self) -> Address {
        self.next += 1;
        Address(self.next)
    }

    fn deploy_whitelist(&mut self) -> Address {
        let id = self.generate();
        self.whitelists.push((id, KYCWhitelist::new()));
        id
    }

    fn whitelist(&mut self, id: Address) -> &mut KYCWhitelist {
        for (wid, w) in self.whitelists.iter_mut() {
            if *wid == id {
                return w;
            }
        }
        panic!("no such contract")
    }

    fn kyc(&mut self) -> &mut KYCWhitelist {
        let id = self.whitelists[0].0;
        self.whitelist(id)
    }

    fn approved(&mut self, a: Address) -> bool {
        let id = self.token_kyc;
        self.whitelist(id).is_ok(a)
    }

    fn mint(&mut self, caller: Address, to: Address, amount: i128) -> Result<TokenEvent, TokenError> {
        let ok = self.approved(to);
        self.token.mint(caller, to, amount, ok)
    }

    fn transfer(&mut self, from: Address, to: Address, amount: i128) -> Result<TokenEvent, TokenError> {
        let from_ok = self.approved(from);
        let to_ok = self.approved(to);
        self.token.transfer(from, to, amount, from_ok, to_ok)
    }

    fn transfer_from(
        &mut self,
        spender: Address,
        from: Address,
        to: Address,
        amount: i128,
    ) -> Result<TokenEvent, TokenError> {
        let from_ok = self.approved(from);
        let to_ok = self.approved(to);
        self.token.transfer_from(spender, from, to, amount, from_ok, to_ok, SEQUENCE)
    }

    fn set_kyc_contract(&mut self, id: Address) -> Result<TokenEvent, TokenError> {
        let ev = self.token.set_kyc_contract(id)?;
        self.token_kyc = id;
        Ok(ev)
    }
}

/// Sets up both contracts. Returns (ledger, admin, operator).
fn setup() -> (Ledger, Address, Address) {
    let mut env = Ledger { next: 0, whitelists: Vec::new(), token_kyc: Address(0), token: RealEstateToken::new() };
    let kyc_id = env.deploy_whitelist();
    env.token_kyc = kyc_id;
    let admin = env.generate();
    let operator = env.generate();
    must_kyc(env.kyc().initialize(admin));
    must(env.token.initialize(
        admin,
        operator,
        kyc_id,
        String::from("ARTP-HS Token"),
        String::from("ARTP-HS"),
        make_metadata(),
    ));
    (env, admin, operator)
}

// ── Initialization ──────────────────────────────────────────────────────────

#[test]
fn lib_test_initialize() {
    let (env, admin, operator) = setup();
    let token = &env.token;
    assert_eq!(must(token.get_admin()), admin);
    assert_eq!(token.get_operator(), Some(operator));
    assert_eq!(token.total_supply(), 0);
    assert_eq!(token.decimals(), 7);
    assert_eq!(must(token.name()), "ARTP-HS Token");
    assert_eq!(must(token.symbol()), "ARTP-HS");
    assert!(!token.is_paused());
}

#[test]
fn token_double_initialize_refused() {
    let (mut env, admin, operator) = setup();
    let kyc_id = env.token_kyc;
    let r = env.token.initialize(admin, operator, kyc_id, String::from("X"), String::from("X"), make_metadata());
    assert_eq!(r, Err(TokenError::AlreadyInitialized));
    assert_eq!(r.unwrap_err().message(), "Already initialized");
    assert_eq!(must(env.token.name()), "ARTP-HS Token");
}

// ── Mint ────────────────────────────────────────────────────────────────────

#[test]
fn test_mint_to_kyc_approved_investor() {
    let (mut env, admin, _op) = setup();
    let investor = env.generate();

    must_kyc(env.kyc().add(admin, investor, InvestorCategory::Retail, NOW));
    must(env.mint(admin, investor, 1_000_000_000));

    assert_eq!(env.token.balance(investor), 1_000_000_000);
    assert_eq!(env.token.total_supply(), 1_000_000_000);
}

#[test]
fn test_operator_can_mint() {
    let (mut env, admin, operator) = setup();
    let investor = env.generate();

    must_kyc(env.kyc().add(admin, investor, InvestorCategory::Qualified, NOW));
    must(env.mint(operator, investor, 500_000_000));

    assert_eq!(env.token.balance(investor), 500_000_000);
}

#[test]
#[should_panic(expected = "Transfer rejected: address not KYC-approved (CVM 88)")]
fn test_mint_to_non_kyc_address_panics() {
    let (mut env, admin, _op) = setup();
    let stranger = env.generate();
    must(env.mint(admin, stranger, 1_000_000_000));
}

#[test]
#[should_panic(expected = "Unauthorized: caller is not admin or operator")]
fn test_random_cannot_mint() {
    let (mut env, admin, _op) = setup();
    let attacker = env.generate();
    let investor = env.generate();
    must_kyc(env.kyc().add(admin, investor, InvestorCategory::Retail, NOW));
    must(env.mint(attacker, investor, 1_000_000_000));
}

#[test]
#[should_panic(expected = "Amount must be positive")]
fn test_mint_zero_panics() {
    let (mut env, admin, _op) = setup();
    let investor = env.generate();
    must_kyc(env.kyc().add(admin, investor, InvestorCategory::Retail, NOW));
    must(env.mint(admin, investor, 0));
}

// ── Transfer ────────────────────────────────────────────────────────────────

#[test]
fn test_transfer_between_kyc_investors() {
    let (mut env, admin, _op) = setup();
    let investor_a = env.generate();
    let investor_b = env.generate();

    must_kyc(env.kyc().add(admin, investor_a, InvestorCategory::Retail, NOW));
    must_kyc(env.kyc().add(admin, investor_b, InvestorCategory::Retail, NOW));

    must(env.mint(admin, investor_a, 1_000_000_000));
    must(env.transfer(investor_a, investor_b, 300_000_000));

    assert_eq!(env.token.balance(investor_a), 700_000_000);
    assert_eq!(env.token.balance(investor_b), 300_000_000);
}

#[test]
#[should_panic(expected = "Transfer rejected: address not KYC-approved (CVM 88)")]
fn test_transfer_to_non_kyc_panics() {
    let (mut env, admin, _op) = setup();
    let investor = env.generate();
    let stranger = env.generate();

    must_kyc(env.kyc().add(admin, investor, InvestorCategory::Retail, NOW));
    must(env.mint(admin, investor, 1_000_000_000));
    must(env.transfer(investor, stranger, 100_000_000));
}

#[test]
#[should_panic(expected = "Insufficient balance")]
fn test_transfer_exceeds_balance_panics() {
    let (mut env, admin, _op) = setup();
    let investor_a = env.generate();
    let investor_b = env.generate();

    must_kyc(env.kyc().add(admin, investor_a, InvestorCategory::Retail, NOW));
    must_kyc(env.kyc().add(admin, investor_b, InvestorCategory::Retail, NOW));
    must(env.mint(admin, investor_a, 100_000_000));
    must(env.transfer(investor_a, investor_b, 200_000_000));
}

// ── Approve + transfer_from ─────────────────────────────────────────────────

#[test]
fn test_approve_and_transfer_from() {
    let (mut env, admin, _op) = setup();
    let owner = env.generate();
    let spender = env.generate();
    let recipient = env.generate();

    must_kyc(env.kyc().add(admin, owner, InvestorCategory::Retail, NOW));
    must_kyc(env.kyc().add(admin, recipient, InvestorCategory::Retail, NOW));
    must(env.mint(admin, owner, 1_000_000_000));

    let expiry = SEQUENCE + 1000;
    must(env.token.approve(owner, spender, 500_000_000, expiry, SEQUENCE));
    assert_eq!(env.token.allowance(owner, spender, SEQUENCE), 500_000_000);

    must(env.transfer_from(spender, owner, recipient, 200_000_000));
    assert_eq!(env.token.balance(owner), 800_000_000);
    assert_eq!(env.token.balance(recipient), 200_000_000);
    assert_eq!(env.token.allowance(owner, spender, SEQUENCE), 300_000_000);
}

#[test]
#[should_panic(expected = "Insufficient allowance")]
fn test_transfer_from_exceeds_allowance_panics() {
    let (mut env, admin, _op) = setup();
    let owner = env.generate();
    let spender = env.generate();
    let recipient = env.generate();

    must_kyc(env.kyc().add(admin, owner, InvestorCategory::Retail, NOW));
    must_kyc(env.kyc().add(admin, recipient, InvestorCategory::Retail, NOW));
    must(env.mint(admin, owner, 1_000_000_000));

    let expiry = SEQUENCE + 1000;
    must(env.token.approve(owner, spender, 100_000_000, expiry, SEQUENCE));
    must(env.transfer_from(spender, owner, recipient, 200_000_000));
}

// ── Burn ────────────────────────────────────────────────────────────────────

#[test]
fn test_burn_reduces_supply() {
    let (mut env, admin, _op) = setup();
    let investor = env.generate();

    must_kyc(env.kyc().add(admin, investor, InvestorCategory::Retail, NOW));
    must(env.mint(admin, investor, 1_000_000_000));
    must(env.token.burn(investor, 400_000_000));

    assert_eq!(env.token.balance(investor), 600_000_000);
    assert_eq!(env.token.total_supply(), 600_000_000);
}

#[test]
#[should_panic(expected = "Insufficient balance")]
fn test_burn_exceeds_balance_panics() {
    let (mut env, admin, _op) = setup();
    let investor = env.generate();
    must_kyc(env.kyc().add(admin, investor, InvestorCategory::Retail, NOW));
    must(env.mint(admin, investor, 100_000_000));
    must(env.token.burn(investor, 200_000_000));
}

// ── Pause ───────────────────────────────────────────────────────────────────

#[test]
#[should_panic(expected = "Contract is paused")]
fn test_transfer_when_paused_panics() {
    let (mut env, admin, _op) = setup();
    let investor_a = env.generate();
    let investor_b = env.generate();

    must_kyc(env.kyc().add(admin, investor_a, InvestorCategory::Retail, NOW));
    must_kyc(env.kyc().add(admin, investor_b, InvestorCategory::Retail, NOW));
    must(env.mint(admin, investor_a, 1_000_000_000));
    must(env.token.pause());
    must(env.transfer(investor_a, investor_b, 100_000_000));
}

#[test]
fn test_unpause_restores_transfers() {
    let (mut env, admin, _op) = setup();
    let investor_a = env.generate();
    let investor_b = env.generate();

    must_kyc(env.kyc().add(admin, investor_a, InvestorCategory::Retail, NOW));
    must_kyc(env.kyc().add(admin, investor_b, InvestorCategory::Retail, NOW));
    must(env.mint(admin, investor_a, 1_000_000_000));
    must(env.token.pause());
    must(env.token.unpause());
    must(env.transfer(investor_a, investor_b, 100_000_000));
    assert_eq!(env.token.balance(investor_b), 100_000_000);
}

// ── NAV ─────────────────────────────────────────────────────────────────────

#[test]
fn test_nav_before_mint_is_zero() {
    let (env, _admin, _op) = setup();
    assert_eq!(must(env.token.nav()), 0);
}

#[test]
fn test_nav_after_mint() {
    let (mut env, admin, _op) = setup();
    let investor = env.generate();
    must_kyc(env.kyc().add(admin, investor, InvestorCategory::Retail, NOW));

    // 100 whole tokens = 1_000_000_000 units; NAV = 250_000_000 * 10^7 / 1_000_000_000
    must(env.mint(admin, investor, 1_000_000_000));
    assert!(must(env.token.nav()) > 0);
}

// ── Admin handover ──────────────────────────────────────────────────────────

#[test]
fn lib_test_propose_and_accept_admin() {
    let (mut env, admin, _op) = setup();
    let new_admin = env.generate();

    must(env.token.propose_admin(new_admin));
    assert_eq!(must(env.token.get_admin()), admin);

    must(env.token.accept_admin());
    assert_eq!(must(env.token.get_admin()), new_admin);
}

// ── TTL ─────────────────────────────────────────────────────────────────────

#[test]
fn lib_test_extend_ttl_does_not_panic() {
    let (env, _admin, _op) = setup();
    env.token.extend_ttl();
}

#[test]
fn test_extend_balance_ttl() {
    let (mut env, admin, _op) = setup();
    let investor = env.generate();
    must_kyc(env.kyc().add(admin, investor, InvestorCategory::Retail, NOW));
    must(env.mint(admin, investor, 1_000_000_000));
    must(env.token.extend_balance_ttl(investor));
}

#[test]
#[should_panic(expected = "No balance for address")]
fn test_extend_balance_ttl_no_balance_panics() {
    let (mut env, _admin, _op) = setup();
    let stranger = env.generate();
    must(env.token.extend_balance_ttl(stranger));
}

// ── Sender identity check ───────────────────────────────────────────────────

#[test]
#[should_panic(expected = "Transfer rejected: address not KYC-approved (CVM 88)")]
fn test_transfer_from_revoked_sender_panics() {
    let (mut env, admin, _op) = setup();
    let investor_a = env.generate();
    let investor_b = env.generate();

    must_kyc(env.kyc().add(admin, investor_a, InvestorCategory::Retail, NOW));
    must_kyc(env.kyc().add(admin, investor_b, InvestorCategory::Retail, NOW));
    must(env.mint(admin, investor_a, 1_000_000_000));

    must_kyc(env.kyc().remove(admin, investor_a));
    must(env.transfer(investor_a, investor_b, 100_000_000));
}

#[test]
#[should_panic(expected = "Transfer rejected: address not KYC-approved (CVM 88)")]
fn test_transfer_from_revoked_sender_via_allowance_panics() {
    let (mut env, admin, _op) = setup();
    let owner = env.generate();
    let spender = env.generate();
    let recipient = env.generate();

    must_kyc(env.kyc().add(admin, owner, InvestorCategory::Retail, NOW));
    must_kyc(env.kyc().add(admin, recipient, InvestorCategory::Retail, NOW));
    must(env.mint(admin, owner, 1_000_000_000));

    let expiry = SEQUENCE + 1000;
    must(env.token.approve(owner, spender, 500_000_000, expiry, SEQUENCE));

    must_kyc(env.kyc().remove(admin, owner));
    must(env.transfer_from(spender, owner, recipient, 200_000_000));
}

// ── Approval expiration strictly in the future ──────────────────────────────

#[test]
#[should_panic(expected = "Expiration ledger must be in the future")]
fn test_approve_current_ledger_panics() {
    let (mut env, admin, _op) = setup();
    let owner = env.generate();
    let spender = env.generate();

    must_kyc(env.kyc().add(admin, owner, InvestorCategory::Retail, NOW));
    must(env.mint(admin, owner, 1_000_000_000));

    let current = SEQUENCE;
    must(env.token.approve(owner, spender, 100_000_000, current, SEQUENCE));
}

// ── Whitelist contract update ───────────────────────────────────────────────

#[test]
fn test_set_kyc_contract() {
    let (mut env, admin, _op) = setup();

    let new_kyc_id = env.deploy_whitelist();
    must_kyc(env.whitelist(new_kyc_id).initialize(admin));

    must(env.set_kyc_contract(new_kyc_id));

    let investor = env.generate();
    must_kyc(env.whitelist(new_kyc_id).add(admin, investor, InvestorCategory::Retail, NOW));
    must(env.mint(admin, investor, 1_000_000_000));
    assert_eq!(env.token.balance(investor), 1_000_000_000);
}

// ── Self-transfer ───────────────────────────────────────────────────────────

#[test]
fn test_self_transfer_is_noop() {
    let (mut env, admin, _op) = setup();
    let investor = env.generate();

    must_kyc(env.kyc().add(admin, investor, InvestorCategory::Retail, NOW));
    must(env.mint(admin, investor, 1_000_000_000));
    must(env.transfer(investor, investor, 500_000_000));

    assert_eq!(env.token.balance(investor), 1_000_000_000);
    assert_eq!(env.token.total_supply(), 1_000_000_000);
}

// ── Pause blocks minting and approvals ──────────────────────────────────────

#[test]
#[should_panic(expected = "Contract is paused")]
fn test_mint_when_paused_panics() {
    let (mut env, admin, _op) = setup();
    let investor = env.generate();

    must_kyc(env.kyc().add(admin, investor, InvestorCategory::Retail, NOW));
    must(env.token.pause());
    must(env.mint(admin, investor, 1_000_000_000));
}

#[test]
#[should_panic(expected = "Contract is paused")]
fn test_approve_when_paused_panics() {
    let (mut env, admin, _op) = setup();
    let owner = env.generate();
    let spender = env.generate();

    must_kyc(env.kyc().add(admin, owner, InvestorCategory::Retail, NOW));
    must(env.mint(admin, owner, 1_000_000_000));
    must(env.token.pause());
    let expiry = SEQUENCE + 1000;
    must(env.token.approve(owner, spender, 500_000_000, expiry, SEQUENCE));
}

// ── Offering cap ────────────────────────────────────────────────────────────

#[test]
#[should_panic(expected = "Mint exceeds CVM-88 authorized offering cap")]
fn test_mint_exceeds_cap_panics() {
    let (mut env, admin, _op) = setup();
    let investor = env.generate();
    must_kyc(env.kyc().add(admin, investor, InvestorCategory::Retail, NOW));
    must(env.mint(admin, investor, 10_000_000_001));
}

#[test]
fn test_mint_exactly_at_cap_succeeds() {
    let (mut env, admin, _op) = setup();
    let investor = env.generate();
    must_kyc(env.kyc().add(admin, investor, InvestorCategory::Retail, NOW));
    must(env.mint(admin, investor, 10_000_000_000));
    assert_eq!(env.token.total_supply(), 10_000_000_000);
}

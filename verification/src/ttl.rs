//! Storage lifetime policy: how far each kind of ledger entry is kept alive.
//!
//! Ledger entries expire unless their time-to-live is extended. The contracts
//! decide which entries to extend and by how much; the host performs the
//! extension. Lifetimes are counted in ledgers, at about five seconds per
//! ledger.
use vstd::prelude::*;

verus! {

/// Ledgers closed in one day.
pub const DAY_IN_LEDGERS: u32 = 17_280;

/// Instance data is extended once fewer than 30 days remain.
pub const INSTANCE_LIFETIME_THRESHOLD: u32 = DAY_IN_LEDGERS * 30;

/// Instance data is extended to 60 days.
pub const INSTANCE_BUMP_AMOUNT: u32 = DAY_IN_LEDGERS * 60;

/// Investor data is extended once fewer than 30 days remain.
pub const PERSISTENT_LIFETIME_THRESHOLD: u32 = DAY_IN_LEDGERS * 30;

/// Investor data is long-lived: it is extended to 120 days.
pub const PERSISTENT_BUMP_AMOUNT: u32 = DAY_IN_LEDGERS * 120;

/// A request to the host: when an entry has fewer than `threshold` ledgers
/// left to live, extend it so that it lives `extend_to` ledgers.
#[derive(Clone, Copy, PartialEq, Eq, Debug, Structural)]
pub struct TtlExtension {
    pub threshold: u32,
    pub extend_to: u32,
}

/// The extension applied to a contract's instance data (its governance
/// settings): kept between 30 and 60 days.
pub open spec fn instance_ttl() -> TtlExtension {
    TtlExtension { threshold: INSTANCE_LIFETIME_THRESHOLD, extend_to: INSTANCE_BUMP_AMOUNT }
}

/// The extension applied to an investor's persistent entry (a whitelist
/// record or a balance): kept between 30 and 120 days.
pub open spec fn persistent_ttl() -> TtlExtension {
    TtlExtension { threshold: PERSISTENT_LIFETIME_THRESHOLD, extend_to: PERSISTENT_BUMP_AMOUNT }
}

/// Executable form of `instance_ttl`, applied by every state-changing call
/// and by the heartbeat.
pub fn instance_extension() -> (r: TtlExtension)
    ensures
        r == instance_ttl(),
        r.threshold == 30 * DAY_IN_LEDGERS,
        r.extend_to == 60 * DAY_IN_LEDGERS,
{
    TtlExtension { threshold: INSTANCE_LIFETIME_THRESHOLD, extend_to: INSTANCE_BUMP_AMOUNT }
}

/// Executable form of `persistent_ttl`.
pub fn persistent_extension() -> (r: TtlExtension)
    ensures
        r == persistent_ttl(),
        r.threshold == 30 * DAY_IN_LEDGERS,
        r.extend_to == 120 * DAY_IN_LEDGERS,
{
    TtlExtension { threshold: PERSISTENT_LIFETIME_THRESHOLD, extend_to: PERSISTENT_BUMP_AMOUNT }
}

} // verus!

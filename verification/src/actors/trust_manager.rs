//! Reputation upkeep: offenses are recorded as they come, and reputation grows
//! back with time.
use vstd::prelude::*;
use crate::evidence::Offense;

verus! {

/// How often reputation grows back, in seconds.
pub const MAINTENANCE_INTERVAL_SECS: u64 = 60;

/// How many points grow back each time.
pub const RECOVERY_POINTS: u32 = 5;

/// What the registry of reputations is asked to do.
#[derive(Debug)]
pub enum TrustUpdate {
    RecordOffense { did: String, offense: Offense },
    Accumulate { interval_secs: u64, points: u32 },
}

pub struct TrustManager;

impl TrustManager {
    pub fn handle_command(did: String, offense: Offense) -> (update: TrustUpdate)
        ensures
            update == (TrustUpdate::RecordOffense { did, offense }),
    {
        TrustUpdate::RecordOffense { did, offense }
    }

    pub fn run_maintenance() -> (update: TrustUpdate)
        ensures
            update == (TrustUpdate::Accumulate { interval_secs: 60, points: 5 }),
    {
        TrustUpdate::Accumulate {
            interval_secs: MAINTENANCE_INTERVAL_SECS,
            points: RECOVERY_POINTS,
        }
    }
}

} // verus!

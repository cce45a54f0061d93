//! The trusted clock: the system's time, corrected by what the network said.
use vstd::prelude::*;

verus! {

/// Why there is no time.
#[derive(Debug)]
pub enum TimeError {
    /// The system's clock stands before the epoch.
    ClockSkew,
    NtpError(String),
}

/// The clock. The offset is positive where the system's clock is behind.
#[derive(Debug)]
pub struct TrustedClock {
    pub offset_ms: i64,
}

/// The offset in whole seconds, rounded towards zero.
pub open spec fn whole_seconds(offset_ms: i64) -> int {
    if offset_ms >= 0 {
        offset_ms as int / 1000
    } else {
        -((-offset_ms) / 1000)
    }
}

/// The corrected time; never before the epoch.
pub open spec fn corrected(local_secs: u64, offset_ms: i64) -> int {
    let t = local_secs + whole_seconds(offset_ms);
    if t < 0 {
        0
    } else {
        t
    }
}

impl TrustedClock {
    pub fn new() -> (clock: Self)
        ensures
            clock.offset_ms == 0,
    {
        TrustedClock { offset_ms: 0 }
    }

    /// The clock shows this time, given the system's.
    pub open spec fn shows(&self, local_secs: Option<u64>, time: Result<u64, TimeError>) -> bool {
        match local_secs {
            None => time == Err::<u64, TimeError>(TimeError::ClockSkew),
            Some(local) => time is Ok && time->Ok_0 == corrected(local, self.offset_ms),
        }
    }

    /// The clock is less than a second off the system's time and the offset together,
    /// on the side of the system's time, and stands at the epoch where they lie before
    /// it; without an offset it shows the system's time.
    pub proof fn law_the_clock_keeps_its_offset(
        &self,
        local: u64,
        time: Result<u64, TimeError>,
    )
        requires
            self.shows(Some(local), time),
        ensures
            time is Ok,
            self.offset_ms == 0 ==> time->Ok_0 == local,
            self.offset_ms >= 0 ==> time->Ok_0 * 1000 <= local * 1000 + self.offset_ms
                < time->Ok_0 * 1000 + 1000,
            self.offset_ms < 0 && local * 1000 + self.offset_ms >= 0 ==> time->Ok_0 * 1000 - 1000
                < local * 1000 + self.offset_ms <= time->Ok_0 * 1000,
            local * 1000 + self.offset_ms < 0 ==> time->Ok_0 == 0,
    {
    }

    /// The time in seconds, given the system's, which is missing where its clock
    /// stands before the epoch.
    pub fn now(&self, local_secs: Option<u64>) -> (time: Result<u64, TimeError>)
        requires
            local_secs is Some ==> local_secs->0 + whole_seconds(self.offset_ms) <= i64::MAX,
        ensures
            self.shows(local_secs, time),
    {
        match local_secs {
            None => Err(TimeError::ClockSkew),
            Some(local) => {
                let offset: i128 = self.offset_ms as i128;
                let seconds: i128 = if offset >= 0 {
                    offset / 1000
                } else {
                    -((-offset) / 1000)
                };
                let t: i128 = local as i128 + seconds;
                if t < 0 {
                    Ok(0)
                } else {
                    Ok(t as u64)
                }
            },
        }
    }

    /// Sets the offset.
    pub fn set_offset(&mut self, new_offset: i64)
        ensures
            final(self).offset_ms == new_offset,
    {
        self.offset_ms = new_offset;
    }

    /// What a synchronisation does.
    pub open spec fn synchronised(
        before: Self,
        after: Self,
        ntp_secs: u64,
        system_secs: Option<u64>,
        result: Result<(), TimeError>,
    ) -> bool {
        match system_secs {
            None => result == Err::<(), TimeError>(TimeError::ClockSkew) && after == before,
            Some(system) => result is Ok && after.offset_ms == (ntp_secs - system) * 1000,
        }
    }

    /// After a synchronisation the clock runs with the network: so many seconds later, by
    /// the system's clock, it shows the network's time of then. Without a system's time
    /// nothing changes.
    pub proof fn law_a_synchronised_clock_runs_with_the_network(
        before: Self,
        after: Self,
        ntp_secs: u64,
        system_secs: Option<u64>,
        result: Result<(), TimeError>,
        later: u64,
        time: Result<u64, TimeError>,
    )
        requires
            Self::synchronised(before, after, ntp_secs, system_secs, result),
            system_secs is Some ==> later >= system_secs->0,
            after.shows(Some(later), time),
        ensures
            result is Ok <==> system_secs is Some,
            system_secs is Some ==> time is Ok && time->Ok_0 == ntp_secs + (later
                - system_secs->0),
            system_secs is None ==> after == before,
    {
    }

    /// Takes over the offset between the network's time and the system's, both in
    /// seconds.
    pub fn synchronize(&mut self, ntp_secs: u64, system_secs: Option<u64>) -> (result: Result<
        (),
        TimeError,
    >)
        requires
            system_secs is Some ==> i64::MIN <= (ntp_secs - system_secs->0) * 1000 <= i64::MAX,
        ensures
            Self::synchronised(*old(self), *final(self), ntp_secs, system_secs, result),
    {
        match system_secs {
            None => Err(TimeError::ClockSkew),
            Some(system) => {
                let difference: i128 = ntp_secs as i128 - system as i128;
                self.offset_ms = (difference * 1000) as i64;
                Ok(())
            },
        }
    }

    /// Right after a synchronisation the clock shows the network's time, whichever
    /// of the two clocks was ahead.
    pub proof fn law_synchronised_clock_shows_network_time(
        ntp_secs: u64,
        system_secs: u64,
        offset_ms: i64,
    )
        requires
            offset_ms == (ntp_secs - system_secs) * 1000,
        ensures
            corrected(system_secs, offset_ms) == ntp_secs,
    {
    }
}

impl Default for TrustedClock {
    fn default() -> (clock: Self)
        ensures
            clock.offset_ms == 0,
    {
        TrustedClock { offset_ms: 0 }
    }
}

} // verus!

//! How long to wait for the fleet server, and whether this machine can act in a fleet.
use vstd::prelude::*;

verus! {

/// Seconds to wait for an answer while a connection is being authenticated.
pub const AUTH_TIMEOUT_SECS: u64 = 3;

/// Seconds to wait for an answer during enrollment.
pub const ENROLL_TIMEOUT_SECS: u64 = 15;

/// The reach to the fleet server, with the time that an answer may take.
#[derive(Debug, Clone, Copy, PartialEq, Eq)]
pub struct RdTransport {
    timeout_secs: u64,
}

impl RdTransport {
    /// The seconds that an answer may take.
    pub closed spec fn spec_timeout(&self) -> u64 {
        self.timeout_secs
    }

    /// For authenticating a connection.
    pub fn auth() -> (r: Self)
        ensures
            r.spec_timeout() == AUTH_TIMEOUT_SECS,
    {
        RdTransport { timeout_secs: AUTH_TIMEOUT_SECS }
    }

    /// For enrollment.
    pub fn enroll() -> (r: Self)
        ensures
            r.spec_timeout() == ENROLL_TIMEOUT_SECS,
    {
        RdTransport { timeout_secs: ENROLL_TIMEOUT_SECS }
    }

    /// The seconds that an answer may take.
    pub fn timeout(&self) -> (r: u64)
        ensures
            r == self.spec_timeout(),
    {
        self.timeout_secs
    }
}

/// Whether this machine can act in a fleet at all: a session makes it a guest, a cached chain makes
/// it a host that can verify guests offline. Neither implies the other.
pub fn is_enrolled(session: bool, cache_exists: bool) -> (r: bool)
    ensures
        r == (session || cache_exists),
{
    session || cache_exists
}

/// An answer may take three seconds while a connection is being authenticated, and fifteen during
/// enrollment.
pub proof fn law_timeouts()
    ensures
        AUTH_TIMEOUT_SECS == 3,
        ENROLL_TIMEOUT_SECS == 15,
{
}

} // verus!

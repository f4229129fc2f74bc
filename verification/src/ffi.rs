//! The values that the C interface exchanges: result codes, the version and
//! the session status.
use vstd::prelude::*;

verus! {

/// Result code of a C interface call.
#[derive(Debug, Clone, Copy, PartialEq, Eq, Structural)]
pub enum CplpResult {
    /// Success (0).
    Success,
    /// Initialisation failed (1).
    InitError,
    /// An argument is invalid (2).
    InvalidArgument,
    /// The runtime is not initialised (3).
    NotInitialized,
    /// The audio engine failed (10).
    AudioError,
    /// The session failed (20).
    SessionError,
    /// Internal error (99).
    InternalError,
}

/// The numeric code of a result, as C sees it.
pub open spec fn result_code_of(r: CplpResult) -> u32 {
    match r {
        CplpResult::Success => 0,
        CplpResult::InitError => 1,
        CplpResult::InvalidArgument => 2,
        CplpResult::NotInitialized => 3,
        CplpResult::AudioError => 10,
        CplpResult::SessionError => 20,
        CplpResult::InternalError => 99,
    }
}

impl CplpResult {
    /// The numeric code of the result.
    pub fn code(&self) -> (r: u32)
        ensures
            r == result_code_of(*self),
    {
        match self {
            CplpResult::Success => 0,
            CplpResult::InitError => 1,
            CplpResult::InvalidArgument => 2,
            CplpResult::NotInitialized => 3,
            CplpResult::AudioError => 10,
            CplpResult::SessionError => 20,
            CplpResult::InternalError => 99,
        }
    }
}

/// Version of the C interface.
#[derive(Debug, Clone, Copy, PartialEq, Eq, Structural)]
pub struct CplpVersion {
    pub major: u32,
    pub minor: u32,
    pub patch: u32,
}

/// The version of the C interface: 0.1.0.
pub fn version() -> (r: CplpVersion)
    ensures
        r == (CplpVersion { major: 0, minor: 1, patch: 0 }),
{
    CplpVersion { major: 0, minor: 1, patch: 0 }
}

/// Connection state of the session.
#[derive(Debug, Clone, Copy, PartialEq, Eq, Structural)]
pub enum CplpSessionStatus {
    /// Not connected (0).
    Disconnected,
    /// Connecting (1).
    Connecting,
    /// Connected (2).
    Connected,
    /// Disconnecting (3).
    Disconnecting,
}

} // verus!

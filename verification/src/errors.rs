//! Error taxonomy of the identity/connection core. Construction either
//! fully succeeds or fails with one of these typed errors; no partial
//! context is ever returned.

use vstd::prelude::*;

verus! {

/// Why a bootstrap attempt failed.
#[derive(Clone, Copy, PartialEq, Eq, Structural, Debug)]
pub enum BootstrapFailure {
    /// Every contact was tried and none could be reached.
    NoReachableContact,
    /// At least one contact was reached, but the presented identity was
    /// turned away.
    IdentityRejected,
    /// The transport stopped answering before the contact set was
    /// exhausted.
    TimedOut,
}

/// Errors surfaced by the core.
#[derive(Clone, Copy, PartialEq, Eq, Structural, Debug)]
pub enum AppError {
    /// The secure random source failed while drawing fresh key material;
    /// fatal, construction is aborted.
    KeyGeneration,
    /// The contact configuration is structurally invalid for the chosen
    /// protocol; construction is aborted.
    ConnectionSetup,
    /// Bootstrap failed; aborts construction on the anonymous path and is
    /// discarded on the owned-keys path.
    Bootstrap(BootstrapFailure),
    /// A request against an established connection exceeded the fixed
    /// request timeout.
    RequestTimeout,
}

impl AppError {
    /// A short description of the error, for callers that need to render
    /// it.
    pub fn message(&self) -> (r: &'static str)
        ensures
            self is KeyGeneration ==> r@ == "secure random source failure"@,
            self is ConnectionSetup ==> r@ == "structurally invalid contact configuration"@,
            self == AppError::Bootstrap(BootstrapFailure::NoReachableContact) ==> r@
                == "no reachable contact"@,
            self == AppError::Bootstrap(BootstrapFailure::IdentityRejected) ==> r@
                == "identity rejected by the network"@,
            self == AppError::Bootstrap(BootstrapFailure::TimedOut) ==> r@
                == "bootstrap timed out"@,
            self is RequestTimeout ==> r@ == "request timed out"@,
    {
        proof {
            reveal_strlit("secure random source failure");
            reveal_strlit("structurally invalid contact configuration");
            reveal_strlit("no reachable contact");
            reveal_strlit("identity rejected by the network");
            reveal_strlit("bootstrap timed out");
            reveal_strlit("request timed out");
        }
        match self {
            AppError::KeyGeneration => "secure random source failure",
            AppError::ConnectionSetup => "structurally invalid contact configuration",
            AppError::Bootstrap(BootstrapFailure::NoReachableContact) => "no reachable contact",
            AppError::Bootstrap(BootstrapFailure::IdentityRejected) => "identity rejected by the network",
            AppError::Bootstrap(BootstrapFailure::TimedOut) => "bootstrap timed out",
            AppError::RequestTimeout => "request timed out",
        }
    }
}

} // verus!

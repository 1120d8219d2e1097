use vstd::prelude::*;

verus! {

/// Errors surfaced by the builder and the packet plane.
///
/// Ring exhaustion is never an error: an insufficient reservation is reported
/// as an absent value. OS-level failures carry the underlying errno; the
/// in-process back-end never produces them.
#[derive(Debug, Clone, PartialEq, Eq)]
pub enum FluxError {
    /// The interface is unknown or cannot host this socket family.
    InterfaceNotSupported,
    /// The operation needs raw-network privileges.
    PermissionDenied,
    /// A ring's indices desynchronised (`producer - consumer` past its size).
    RingCorruption,
    /// An OS call failed; the payload is the errno it reported.
    Io(i32),
    /// The requested configuration is invalid; the payload says why.
    InvalidConfiguration(String),
}

impl FluxError {
    /// A short human-readable description, in place of a `Display` impl.
    pub fn message(&self) -> (r: &'static str)
        ensures
            r@.len() > 0,
    {
        let r: &'static str = match self {
            FluxError::InterfaceNotSupported => "interface not supported or not found",
            FluxError::PermissionDenied => "permission denied",
            FluxError::RingCorruption => "ring buffer corruption or desynchronization",
            FluxError::Io(_) => "io error",
            FluxError::InvalidConfiguration(_) => "invalid configuration",
        };
        proof {
            reveal_strlit("interface not supported or not found");
            reveal_strlit("permission denied");
            reveal_strlit("ring buffer corruption or desynchronization");
            reveal_strlit("io error");
            reveal_strlit("invalid configuration");
        }
        r
    }
}

} // verus!

use vstd::prelude::*;

verus! {

/// Errors reported by hotkey registration and unregistration.
#[derive(Debug, Clone, Copy, PartialEq, Eq, Structural)]
pub enum HkError {
    /// The operating system declined to bind the requested key and
    /// modifier combination, for example because it is already in use.
    RegistrationFailed,
    /// The operating system declined to release a binding, for example
    /// because the identifier is not currently bound.
    UnregistrationFailed,
}

} // verus!

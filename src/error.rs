use vstd::prelude::*;

verus! {

/// The failures an extension operation reports to its host.
#[derive(Debug)]
pub enum ExtensionError {
    /// An installation, a game or a hook that does not exist.
    NotFound(String),
    /// Malformed input: a missing parameter, a bad manifest field, an unknown hook.
    Validation(String),
    /// A filesystem or process failure, with the operating system's message.
    Io(String),
    /// A payload that could not be encoded or decoded at the hook boundary.
    Serialization(String),
}

} // verus!

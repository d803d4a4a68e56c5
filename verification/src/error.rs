//! What can go wrong with a request.

use vstd::prelude::*;

verus! {

/// Why an operation did not run to its end.
#[derive(Clone, Copy, Debug, PartialEq, Eq, Structural)]
pub enum TopologyError {
    /// No network is registered under the identifier.
    NetworkNotFound,
    /// The network holds no endpoint with the identifier.
    EndpointNotFound,
    /// The host did not confirm the command at `index` of the operation's
    /// plan. What the commands before it did stays recorded.
    CommandFailed { index: usize },
}

impl TopologyError {
    /// Whether the error says that an identifier is unknown.
    pub open spec fn is_not_found(self) -> bool {
        self == TopologyError::NetworkNotFound || self == TopologyError::EndpointNotFound
    }

    /// Tells a request that named something unknown from one that the host
    /// failed.
    pub fn not_found(&self) -> (r: bool)
        ensures
            r == self.is_not_found(),
    {
        match self {
            TopologyError::NetworkNotFound => true,
            TopologyError::EndpointNotFound => true,
            TopologyError::CommandFailed { .. } => false,
        }
    }
}

} // verus!

//! The ways in which a registry operation can be turned down.

use vstd::prelude::*;

verus! {

/// Why the registry refused an operation. A refused operation changes nothing.
#[derive(Debug, Clone, Copy, PartialEq, Eq, Structural)]
pub enum ErrorKind {
    /// The user id that the operation names is not registered.
    UserNotFound,
    /// The task id that the operation names was never handed out.
    TaskNotFound,
}

} // verus!

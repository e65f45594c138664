use vstd::prelude::*;

verus! {

/// Why an operation on a container was refused. A refused operation leaves
/// the container exactly as it was.
#[derive(Clone, Copy, Debug, PartialEq, Eq, Structural)]
pub enum ContainerError {
    /// The container already holds as many elements as it has slots.
    CapacityExceeded,
    /// The container holds no element.
    Underflow,
}

} // verus!

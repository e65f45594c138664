//! Fixed-capacity containers that never allocate: a ring-buffer queue and a
//! bounded stack, both backed by an inline array of `N` slots.

mod error;
pub mod laws;
mod queue;
mod stack;

pub use error::ContainerError;
pub use queue::BareMetalQueue;
pub use stack::BareMetalStack;

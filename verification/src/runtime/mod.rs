//! The loop that owns the network stack, as a set of steps.
pub mod connectivity;
pub mod event_loop;
pub mod order;

pub use event_loop::EventLoop;

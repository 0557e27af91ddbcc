//! What the tasks of an application do on their side of the command queue.
pub mod future;
pub mod req_resp;

pub use future::CommandFuture;
pub use req_resp::send_response;

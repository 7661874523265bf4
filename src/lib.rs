//! A fixed-size worker pool's coordination logic: the dispatch queue that
//! carries jobs and termination signals to the workers, the worker's step,
//! the pool's bookkeeping of its workers and teardown, and the routing and
//! framing of the HTTP answers that the pool's jobs send.

pub mod dispatch;
pub mod http;
pub mod message;
pub mod pool;

pub use dispatch::Dispatch;
pub use http::{response, route, Route};
pub use message::{handle_message, Message, Step};
pub use pool::{ThreadPool, Worker};

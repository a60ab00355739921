//! A bounded worker pool: a dispatcher routes opaque units of work to a fixed
//! set of workers over channels, forwards completions to the caller, and
//! supports a graceful, ordered shutdown of every worker.

pub mod agent_pool;
pub mod channel;
pub mod count;
pub mod message;
pub mod names;
pub mod work;
pub mod worker;

pub use agent_pool::AgentPool;
pub use message::{Event, Fault, Message, Task};
pub use work::{Work, WorkSource};
pub use worker::Worker;

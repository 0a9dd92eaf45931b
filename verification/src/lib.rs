//! Supervision of child processes: a restart backoff policy, the decisions
//! of the loop that keeps a process running and of its shutdown, and the
//! interpretation of the results of the Unix process calls they rely on.

pub mod backoff;
pub mod process;
pub mod status;
pub mod supervisor;
pub mod syscall;

pub use backoff::Backoff;
pub use process::{ExitRecord, ForkResult};
pub use status::ExitStatus;
pub use supervisor::{LoopAction, Phase, Supervisor};
pub use syscall::{c_rv, WaitError};

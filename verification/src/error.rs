//! The errors that end or interrupt the sampling of a task.
use vstd::prelude::*;

verus! {

/// What the kernel answered instead of success.
#[derive(Clone, Copy, Debug, PartialEq, Eq, Structural)]
pub enum KernelError {
    /// An argument of the call was not valid.
    InvalidArgument,
    /// The port that a message was sent to does not exist any more.
    MachSendInvalidDest,
    /// The task or thread has been terminated.
    Terminated,
    /// Any other return code.
    Other(i32),
}

/// What went wrong while a task was sampled, with the place and the kernel's answer.
#[derive(Clone, Copy, Debug)]
pub enum SamplingError {
    /// Sampling failed this time; it can be tried again.
    Ignorable(&'static str, KernelError),
    /// Sampling cannot go on.
    Fatal(&'static str, KernelError),
    /// The process does not exist any more.
    ProcessTerminated(&'static str, KernelError),
}

} // verus!

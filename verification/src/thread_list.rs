//! The ports of the threads of a task, as the kernel hands them out.
use crate::error::{KernelError, SamplingError};
use vstd::prelude::*;

verus! {

/// How many bytes the port of one thread takes up.
pub const THREAD_ACT_SIZE: u64 = 4;

/// What it means that the kernel did not list the threads: where the task is gone, the process has
/// terminated; any other error may pass.
pub open spec fn listing_failure(err: KernelError) -> SamplingError {
    match err {
        KernelError::InvalidArgument
        | KernelError::MachSendInvalidDest
        | KernelError::Terminated => SamplingError::ProcessTerminated(
            "task_threads in get_thread_list",
            err,
        ),
        KernelError::Other(_) => SamplingError::Ignorable("task_threads in get_thread_list", err),
    }
}

/// How many bytes of our memory the kernel has used for a list of `thread_count` ports. That much
/// has to be given back.
pub fn thread_list_size(thread_count: u32) -> (size: u64)
    ensures
        size == thread_count * 4,
{
    thread_count as u64 * THREAD_ACT_SIZE
}

/// The ports of the threads of a task. `listed` is what the kernel said when it was asked for them;
/// `deallocated` is what it said when the memory that it had used was given back. Where it did not
/// list the threads there is nothing to give back, and `deallocated` does not matter.
pub fn get_thread_list(
    listed: Result<Vec<u32>, KernelError>,
    deallocated: Result<(), KernelError>,
) -> (thread_acts: Result<Vec<u32>, SamplingError>)
    ensures
        thread_acts == match (listed, deallocated) {
            (Err(err), _) => Err(listing_failure(err)),
            (Ok(_), Err(err)) => Err(
                SamplingError::Fatal("mach_vm_deallocate in get_thread_list", err),
            ),
            (Ok(acts), Ok(())) => Ok(acts),
        },
{
    let thread_acts = match listed {
        Ok(thread_acts) => thread_acts,
        Err(err) => {
            return Err(
                match err {
                    KernelError::InvalidArgument
                    | KernelError::MachSendInvalidDest
                    | KernelError::Terminated => SamplingError::ProcessTerminated(
                        "task_threads in get_thread_list",
                        err,
                    ),
                    KernelError::Other(_) => SamplingError::Ignorable(
                        "task_threads in get_thread_list",
                        err,
                    ),
                },
            );
        },
    };
    match deallocated {
        Ok(()) => Ok(thread_acts),
        Err(err) => Err(SamplingError::Fatal("mach_vm_deallocate in get_thread_list", err)),
    }
}

} // verus!

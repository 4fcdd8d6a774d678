use task_profiler::error::{KernelError, SamplingError};
use task_profiler::thread_list::{get_thread_list, thread_list_size, THREAD_ACT_SIZE};

const LISTING: &str = "task_threads in get_thread_list";

#[test]
fn lists_the_threads() {
    let listed = get_thread_list(Ok(vec![3, 1, 2]), Ok(()));
    assert_eq!(listed.unwrap(), vec![3, 1, 2]);
    assert!(get_thread_list(Ok(vec![]), Ok(())).unwrap().is_empty());
}

#[test]
fn a_task_that_is_gone_has_terminated() {
    let errors = [
        KernelError::InvalidArgument,
        KernelError::MachSendInvalidDest,
        KernelError::Terminated,
    ];
    for error in errors {
        match get_thread_list(Err(error), Ok(())) {
            Err(SamplingError::ProcessTerminated(place, cause)) => {
                assert_eq!(place, LISTING);
                assert_eq!(cause, error);
            }
            other => panic!("{:?}", other),
        }
    }
}

#[test]
fn another_listing_error_may_pass() {
    match get_thread_list(Err(KernelError::Other(5)), Ok(())) {
        Err(SamplingError::Ignorable(place, cause)) => {
            assert_eq!(place, LISTING);
            assert_eq!(cause, KernelError::Other(5));
        }
        other => panic!("{:?}", other),
    }
}

#[test]
fn memory_that_cannot_be_given_back_is_fatal() {
    match get_thread_list(Ok(vec![1]), Err(KernelError::InvalidArgument)) {
        Err(SamplingError::Fatal(place, cause)) => {
            assert_eq!(place, "mach_vm_deallocate in get_thread_list");
            assert_eq!(cause, KernelError::InvalidArgument);
        }
        other => panic!("{:?}", other),
    }
}

#[test]
fn the_listing_error_comes_first() {
    let listed = get_thread_list(Err(KernelError::Other(1)), Err(KernelError::Terminated));
    assert!(matches!(
        listed,
        Err(SamplingError::Ignorable(LISTING, KernelError::Other(1)))
    ));
}

#[test]
fn every_port_takes_up_four_bytes() {
    assert_eq!(THREAD_ACT_SIZE, 4);
    assert_eq!(thread_list_size(0), 0);
    assert_eq!(thread_list_size(7), 28);
    assert_eq!(thread_list_size(u32::MAX), 4 * 0xffff_ffff);
}

//! The profile that is being recorded, as far as a task has a part in it.
//!
//! A profile is a list of processes, a list of threads and a list of libraries. A handle
//! stands for a place in one of these lists.
use crate::library::{DebugId, LibraryInfo};
use fxprof_processed_profile::{LibraryHandle, ProcessHandle, Profile, ThreadHandle, Timestamp};
use vstd::prelude::*;

verus! {

/// Declares the profile of `fxprof_processed_profile`.
#[verifier::external_type_specification]
#[verifier::external_body]
pub struct ExProfile(fxprof_processed_profile::Profile);

/// Declares the handle of a process in a profile.
#[verifier::external_type_specification]
#[verifier::external_body]
pub struct ExProcessHandle(fxprof_processed_profile::ProcessHandle);

/// Declares the handle of a thread in a profile.
#[verifier::external_type_specification]
#[verifier::external_body]
pub struct ExThreadHandle(fxprof_processed_profile::ThreadHandle);

/// Declares the handle of a library in a profile.
#[verifier::external_type_specification]
#[verifier::external_body]
pub struct ExLibraryHandle(fxprof_processed_profile::LibraryHandle);

/// Declares the points in time of a profile.
#[verifier::external_type_specification]
#[verifier::external_body]
pub struct ExTimestamp(fxprof_processed_profile::Timestamp);

/// A process in a profile.
pub struct ProcessRecord {
    pub name: Seq<char>,
    /// The process ID it was added with. The profile may show it with a suffix, so that no
    /// two processes have the same one.
    pub pid: u32,
    pub start_time: Timestamp,
    pub end_time: Option<Timestamp>,
}

/// A thread in a profile.
pub struct ThreadRecord {
    /// The place of the process that the thread belongs to.
    pub process: nat,
    /// The thread ID it was added with. The profile may show it with a suffix, so that no
    /// two threads have the same one.
    pub tid: u32,
    pub start_time: Timestamp,
    pub end_time: Option<Timestamp>,
    pub is_main: bool,
    pub name: Option<Seq<char>>,
}

/// A library in a profile, as it was when it was added.
pub struct LibraryRecord {
    pub name: Seq<char>,
    pub debug_name: Seq<char>,
    pub path: Seq<char>,
    pub debug_path: Seq<char>,
    pub debug_id: DebugId,
    pub code_id: Option<Seq<char>>,
    pub arch: Option<Seq<char>>,
    /// Whether it came without a table of its symbols and with a debug ID that is a UUID.
    /// No two such libraries are the same.
    pub is_plain: bool,
}

/// The place that a process handle stands for.
pub uninterp spec fn process_index(process: ProcessHandle) -> nat;

/// The place that a thread handle stands for.
pub uninterp spec fn thread_index(thread: ThreadHandle) -> nat;

/// The place that a library handle stands for.
pub uninterp spec fn library_index(library: LibraryHandle) -> nat;

/// The processes of a profile, in the order in which they were added.
pub uninterp spec fn profile_processes(profile: Profile) -> Seq<ProcessRecord>;

/// The threads of a profile, in the order in which they were added.
pub uninterp spec fn profile_threads(profile: Profile) -> Seq<ThreadRecord>;

/// The libraries of a profile, in the order in which they were added.
pub uninterp spec fn profile_libraries(profile: Profile) -> Seq<LibraryRecord>;

/// What a profile holds.
#[verifier::ext_equal]
pub struct ProfileModel {
    pub processes: Seq<ProcessRecord>,
    pub threads: Seq<ThreadRecord>,
    pub libraries: Seq<LibraryRecord>,
}

/// What `profile` holds.
pub open spec fn profile_view(profile: Profile) -> ProfileModel {
    ProfileModel {
        processes: profile_processes(profile),
        threads: profile_threads(profile),
        libraries: profile_libraries(profile),
    }
}

impl ProfileModel {
    /// The profile after a thread was added at the end.
    pub open spec fn add_thread(self, thread: ThreadRecord) -> ProfileModel {
        ProfileModel { threads: self.threads.push(thread), ..self }
    }

    /// The profile after the thread at `thread` came to its end.
    pub open spec fn end_thread(self, thread: nat, end_time: Timestamp) -> ProfileModel {
        ProfileModel {
            threads: self.threads.update(
                thread as int,
                ThreadRecord { end_time: Some(end_time), ..self.threads[thread as int] },
            ),
            ..self
        }
    }

    /// The profile after the process at `process` came to its end.
    pub open spec fn end_process(self, process: nat, end_time: Timestamp) -> ProfileModel {
        ProfileModel {
            processes: self.processes.update(
                process as int,
                ProcessRecord { end_time: Some(end_time), ..self.processes[process as int] },
            ),
            ..self
        }
    }

    /// The profile in which `library` can be found: it is added at the end unless it is
    /// there already.
    pub open spec fn add_library(self, library: LibraryRecord) -> ProfileModel {
        if self.libraries.contains(library) {
            self
        } else {
            ProfileModel { libraries: self.libraries.push(library), ..self }
        }
    }
}

/// `Profile::add_process` appends a process without an end time and hands out its place.
pub assume_specification[ Profile::add_process ](
    profile: &mut Profile,
    name: &str,
    pid: u32,
    start_time: Timestamp,
) -> (process: ProcessHandle)
    ensures
        process_index(process) == profile_processes(*old(profile)).len(),
        profile_processes(*final(profile)) == profile_processes(*old(profile)).push(
            (ProcessRecord { name: name@, pid, start_time, end_time: None }),
        ),
        profile_threads(*final(profile)) == profile_threads(*old(profile)),
        profile_libraries(*final(profile)) == profile_libraries(*old(profile)),
;

/// `Profile::add_thread` appends a thread without a name and an end time and hands out its
/// place. It looks the process up and panics where there is none.
pub assume_specification[ Profile::add_thread ](
    profile: &mut Profile,
    process: ProcessHandle,
    tid: u32,
    start_time: Timestamp,
    is_main: bool,
) -> (thread: ThreadHandle)
    requires
        process_index(process) < profile_processes(*old(profile)).len(),
    ensures
        thread_index(thread) == profile_threads(*old(profile)).len(),
        profile_threads(*final(profile)) == profile_threads(*old(profile)).push(
            (ThreadRecord {
                process: process_index(process),
                tid,
                start_time,
                end_time: None,
                is_main,
                name: None,
            }),
        ),
        profile_processes(*final(profile)) == profile_processes(*old(profile)),
        profile_libraries(*final(profile)) == profile_libraries(*old(profile)),
;

/// `Profile::set_thread_name` changes the name of one thread. It panics where there is no
/// such thread.
pub assume_specification[ Profile::set_thread_name ](
    profile: &mut Profile,
    thread: ThreadHandle,
    name: &str,
)
    requires
        thread_index(thread) < profile_threads(*old(profile)).len(),
    ensures
        profile_threads(*final(profile)) == profile_threads(*old(profile)).update(
            thread_index(thread) as int,
            (ThreadRecord {
                name: Some(name@),
                ..profile_threads(*old(profile))[thread_index(thread) as int]
            }),
        ),
        profile_processes(*final(profile)) == profile_processes(*old(profile)),
        profile_libraries(*final(profile)) == profile_libraries(*old(profile)),
;

/// `Profile::set_thread_end_time` changes the end time of one thread. It panics where there
/// is no such thread.
pub assume_specification[ Profile::set_thread_end_time ](
    profile: &mut Profile,
    thread: ThreadHandle,
    end_time: Timestamp,
)
    requires
        thread_index(thread) < profile_threads(*old(profile)).len(),
    ensures
        profile_threads(*final(profile)) == profile_threads(*old(profile)).update(
            thread_index(thread) as int,
            (ThreadRecord {
                end_time: Some(end_time),
                ..profile_threads(*old(profile))[thread_index(thread) as int]
            }),
        ),
        profile_processes(*final(profile)) == profile_processes(*old(profile)),
        profile_libraries(*final(profile)) == profile_libraries(*old(profile)),
;

/// `Profile::set_process_end_time` changes the end time of one process. It panics where
/// there is no such process.
pub assume_specification[ Profile::set_process_end_time ](
    profile: &mut Profile,
    process: ProcessHandle,
    end_time: Timestamp,
)
    requires
        process_index(process) < profile_processes(*old(profile)).len(),
    ensures
        profile_processes(*final(profile)) == profile_processes(*old(profile)).update(
            process_index(process) as int,
            (ProcessRecord {
                end_time: Some(end_time),
                ..profile_processes(*old(profile))[process_index(process) as int]
            }),
        ),
        profile_threads(*final(profile)) == profile_threads(*old(profile)),
        profile_libraries(*final(profile)) == profile_libraries(*old(profile)),
;

/// Calls `Profile::add_lib` with a library that has no symbol table. Where the same library
/// was added before, the profile stays as it is; else the library is appended. Either way
/// the handle stands for its place, and the library is at no other.
#[verifier::external_body]
pub(crate) fn add_library(profile: &mut Profile, info: LibraryInfo) -> (library: LibraryHandle)
    ensures
        profile_libraries(*final(profile)).index_of_first(info@) == Some(
            library_index(library) as int,
        ),
        profile_view(*final(profile)) == profile_view(*old(profile)).add_library(info@),
{
    let DebugId { uuid, appendix } = info.debug_id;
    let uuid = uuid::Uuid::from_u128(uuid);
    profile.add_lib(fxprof_processed_profile::LibraryInfo {
        name: info.name,
        debug_name: info.debug_name,
        path: info.path,
        debug_path: info.debug_path,
        debug_id: fxprof_processed_profile::debugid::DebugId::from_parts(uuid, appendix),
        code_id: info.code_id,
        arch: info.arch,
        symbol_table: None,
    })
}

} // verus!

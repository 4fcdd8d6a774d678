//! The profiler of one task: what becomes of it from its first threads to its end.
use crate::error::{KernelError, SamplingError};
use crate::library::{text_view, LibMappingOpQueue, LibOpModel, Modification};
use crate::live_threads::{pool_fits, LiveThreads, ThreadModel, ThreadProfiler, ThreadsModel};
use crate::loaded_libs::{changes_are_addable, modules_after, ops_for, profile_after, LoadedLibs};
use crate::paths::{file_name, path_file_name};
use crate::profile::{profile_view, thread_index, ProcessRecord, ProfileModel, ThreadRecord};
use crate::recycling::{
    first_named, has_named, ProcessRecycler, ProcessRecyclingData, RecyclingModel, ThreadRecycler,
};
use crate::unwinder::{unwinder_modules, ModuleModel};
use crossbeam_channel::Receiver;
use fxprof_processed_profile::{Profile, ThreadHandle, Timestamp};
use std::path::PathBuf;
use vstd::multiset::Multiset;
use vstd::prelude::*;

verus! {

/// Declares the receiving end of a channel of `crossbeam_channel`.
#[verifier::external_type_specification]
#[verifier::external_body]
#[verifier::reject_recursive_types(T)]
pub struct ExReceiver<T>(crossbeam_channel::Receiver<T>);

/// Declares the paths of `std`.
#[verifier::external_type_specification]
#[verifier::external_body]
pub struct ExPathBuf(std::path::PathBuf);

/// A task that is to be profiled.
pub struct TaskInit {
    pub start_time_mono: u64,
    /// The port of the task.
    pub task: u32,
    pub pid: u32,
    /// Where the paths of the files come in that the task writes about its compiled functions.
    pub jitdump_path_receiver: Receiver<PathBuf>,
}

/// A thread of the task, and what the kernel says about it.
pub struct ThreadReading {
    /// The port of the thread.
    pub thread_act: u32,
    /// The thread ID, and whether the thread works for a queue of the system.
    pub id: Result<(u32, bool), KernelError>,
    pub name: Result<Option<String>, SamplingError>,
}

/// The profiler of one task. `S` is what is kept of a sample until the end; `J` is what is known
/// about the functions that the task has compiled at run time.
pub struct TaskProfiler<S, J> {
    pub pid: u32,
    pub executable_name: String,
    /// The live threads.
    pub threads: LiveThreads,
    /// The thread of the profile that stands for the main thread.
    pub main_thread_handle: ThreadHandle,
    /// The loaded libraries.
    pub libs: LoadedLibs,
    /// The errors that sampling has got over so far.
    pub ignored_errors: Vec<SamplingError>,
    pub unresolved_samples: Vec<S>,
    pub jitdump_path_receiver: Receiver<PathBuf>,
    pub jit_function_recycler: Option<J>,
}

/// The mathematical content of a [`TaskProfiler`].
#[verifier::ext_equal]
#[verifier::reject_recursive_types(S)]
#[verifier::reject_recursive_types(J)]
pub struct TaskModel<S, J> {
    pub pid: u32,
    pub executable_name: Seq<char>,
    pub threads: ThreadsModel,
    pub main_thread: nat,
    pub modules: Multiset<ModuleModel>,
    pub lib_ops: Seq<(u64, LibOpModel)>,
    pub ignored_errors: Seq<SamplingError>,
    pub samples: Seq<S>,
    pub jit: Option<J>,
}

impl<S, J> View for TaskProfiler<S, J> {
    type V = TaskModel<S, J>;

    open spec fn view(&self) -> TaskModel<S, J> {
        TaskModel {
            pid: self.pid,
            executable_name: self.executable_name@,
            threads: self.threads@,
            main_thread: thread_index(self.main_thread_handle),
            modules: unwinder_modules(self.libs.unwinder),
            lib_ops: self.libs.lib_mapping_ops@,
            ignored_errors: self.ignored_errors@,
            samples: self.unresolved_samples@,
            jit: self.jit_function_recycler,
        }
    }
}

impl<S, J> TaskModel<S, J> {
    /// Whether the profiler and the profile belong together: everything that the profiler has a
    /// handle for is in the profile. Threads are used again if and only if compiled functions are.
    pub open spec fn fits(self, profile: ProfileModel) -> bool {
        &&& self.threads.fits(profile)
        &&& self.main_thread < profile.threads.len()
        &&& self.threads.pool is Some <==> self.jit is Some
    }
}

/// Whether everything that waits to be used again is in the profile.
pub open spec fn recycler_fits<J>(
    pool: Seq<(Seq<char>, RecyclingModel<J>)>,
    profile: ProfileModel,
) -> bool {
    forall|i: int| 0 <= i < pool.len() ==> recycling_fits(#[trigger] pool[i].1, profile)
}

/// Whether what is left of a process is in the profile.
pub open spec fn recycling_fits<J>(data: RecyclingModel<J>, profile: ProfileModel) -> bool {
    &&& data.process < profile.processes.len()
    &&& data.main_thread < profile.threads.len()
    &&& pool_fits(data.pool, profile.threads.len())
}

/// The name that a library gives to the task: if it is the program itself, the name of its file.
pub open spec fn name_from(change: Modification) -> Option<Seq<char>> {
    match change {
        Modification::Added(added) => if added.lib.is_executable {
            path_file_name(added.lib.file@)
        } else {
            None
        },
        Modification::Removed(_) => None,
    }
}

/// The name of the task: the first that one of its libraries gives it, or else `command_name`.
pub open spec fn task_name(changes: Seq<Modification>, command_name: Seq<char>) -> Seq<char>
    decreases changes.len(),
{
    if changes.len() == 0 {
        command_name
    } else {
        match name_from(changes[0]) {
            Some(name) => name,
            None => task_name(changes.skip(1), command_name),
        }
    }
}

fn find_executable_name(changes: &Vec<Modification>, command_name: &str) -> (name: String)
    ensures
        name@ == task_name(changes@, command_name@),
{
    let mut i: usize = 0;
    assert(changes@.skip(0) =~= changes@);
    while i < changes.len()
        invariant
            i <= changes@.len(),
            task_name(changes@, command_name@) == task_name(
                changes@.skip(i as int),
                command_name@,
            ),
        decreases changes@.len() - i,
    {
        assert(changes@.skip(i as int).skip(1) =~= changes@.skip(i + 1));
        if let Modification::Added(added) = &changes[i] {
            if added.lib.is_executable {
                if let Some(name) = file_name(added.lib.file.as_str()) {
                    return name;
                }
            }
        }
        i += 1;
    }
    command_name.to_owned()
}

/// Why a task cannot be profiled, if it cannot: its libraries or its threads could not be listed,
/// it has no thread, or nothing could be read about its first thread.
pub open spec fn start_failure(
    changes: Result<Vec<Modification>, KernelError>,
    threads: Result<Vec<ThreadReading>, SamplingError>,
) -> Option<SamplingError> {
    match (changes, threads) {
        (Err(e), _) => Some(SamplingError::Ignorable("Could not check process libraries", e)),
        (_, Err(e)) => Some(e),
        (Ok(_), Ok(threads)) => if threads@.len() == 0 {
            Some(SamplingError::Ignorable("No threads", KernelError::Terminated))
        } else {
            match (threads@[0].id, threads@[0].name) {
                (Err(e), _) => Some(SamplingError::Ignorable("Could not get main thread tid", e)),
                (_, Err(e)) => Some(e),
                _ => None,
            }
        },
    }
}

/// Whether a task whose libraries could be listed can be profiled. Only the libraries of such a
/// task have to be addable.
pub fn has_readable_main_thread(threads: &Result<Vec<ThreadReading>, SamplingError>) -> (yes: bool)
    ensures
        forall|changes: Vec<Modification>|
            #![trigger start_failure(Ok(changes), *threads)]
            yes <==> start_failure(Ok(changes), *threads) is None,
{
    match threads {
        Ok(threads) => threads.len() > 0 && threads[0].id.is_ok() && threads[0].name.is_ok(),
        Err(_) => false,
    }
}

/// Live threads and the profile, with one more thread if it could be read.
pub open spec fn welcome_reading(
    state: (ThreadsModel, ProfileModel),
    reading: ThreadReading,
    start_time: Timestamp,
) -> (ThreadsModel, ProfileModel) {
    match (reading.id, reading.name) {
        (Ok((tid, _)), Ok(name)) => (
            state.0.welcome(state.1, reading.thread_act, tid, text_view(name)),
            state.0.profile_with(state.1, tid, text_view(name), start_time),
        ),
        _ => state,
    }
}

/// Live threads and the profile, with all threads that could be read.
pub open spec fn welcome_all(
    state: (ThreadsModel, ProfileModel),
    readings: Seq<ThreadReading>,
    start_time: Timestamp,
) -> (ThreadsModel, ProfileModel)
    decreases readings.len(),
{
    if readings.len() == 0 {
        state
    } else {
        welcome_reading(
            welcome_all(state, readings.drop_last(), start_time),
            readings.last(),
            start_time,
        )
    }
}

/// What a process recycler has for a process called `name`.
pub open spec fn recycled<J>(
    pool: Option<Seq<(Seq<char>, RecyclingModel<J>)>>,
    name: Seq<char>,
) -> Option<RecyclingModel<J>> {
    match pool {
        Some(pool) => if has_named(pool, name) {
            Some(pool[first_named(pool, name) as int].1)
        } else {
            None
        },
        None => None,
    }
}

/// What waits in a process recycler after it was asked for a process called `name`.
pub open spec fn pool_without<J>(
    pool: Seq<(Seq<char>, RecyclingModel<J>)>,
    name: Seq<char>,
) -> Seq<(Seq<char>, RecyclingModel<J>)> {
    if has_named(pool, name) {
        pool.remove(first_named(pool, name) as int)
    } else {
        pool
    }
}

/// The profile with a process that has just started and its main thread.
pub open spec fn profile_with_process(
    profile: ProfileModel,
    process_name: Seq<char>,
    pid: u32,
    start_time: Timestamp,
    tid: u32,
    thread_name: Option<Seq<char>>,
) -> ProfileModel {
    ProfileModel {
        processes: profile.processes.push(
            ProcessRecord { name: process_name, pid, start_time, end_time: None },
        ),
        threads: profile.threads.push(
            ThreadRecord {
                process: profile.processes.len(),
                tid,
                start_time,
                end_time: None,
                is_main: true,
                name: thread_name,
            },
        ),
        ..profile
    }
}

/// Live threads and the profile when a task starts with its main thread. A task that has a
/// predecessor goes on with the process and the main thread of the profile that stood for that
/// one; the profile stays as it is. `recycles` says whether the threads are to be used again.
pub open spec fn first_thread<J>(
    profile: ProfileModel,
    predecessor: Option<RecyclingModel<J>>,
    recycles: bool,
    process_name: Seq<char>,
    task_init: TaskInit,
    start_time: Timestamp,
    main: ThreadReading,
) -> (ThreadsModel, ProfileModel) {
    let tid = (main.id->Ok_0).0;
    let name = text_view(main.name->Ok_0);
    let process = match predecessor {
        Some(data) => data.process,
        None => profile.processes.len(),
    };
    let main_thread = match predecessor {
        Some(data) => data.main_thread,
        None => profile.threads.len(),
    };
    let thread = ThreadModel {
        task: task_init.task,
        tid,
        profile_thread: main_thread,
        thread_act: main.thread_act,
        name,
    };
    (
        ThreadsModel {
            task: task_init.task,
            process,
            live: Map::empty().insert(main.thread_act, thread),
            pool: match predecessor {
                Some(data) => Some(data.pool),
                None => if recycles {
                    Some(seq![])
                } else {
                    None
                },
            },
        },
        match predecessor {
            Some(_) => profile,
            None => profile_with_process(
                profile,
                process_name,
                task_init.pid,
                start_time,
                tid,
                name,
            ),
        },
    )
}

/// Threads that are in the profile stay in it when others are taken in.
pub proof fn lemma_welcome_all_fits(
    state: (ThreadsModel, ProfileModel),
    readings: Seq<ThreadReading>,
    start_time: Timestamp,
)
    requires
        state.0.fits(state.1),
    ensures
        welcome_all(state, readings, start_time).0.fits(welcome_all(state, readings, start_time).1),
        welcome_all(state, readings, start_time).1.threads.len() >= state.1.threads.len(),
        welcome_all(state, readings, start_time).1.processes == state.1.processes,
        welcome_all(state, readings, start_time).0.pool is Some == state.0.pool is Some,
    decreases readings.len(),
{
    if readings.len() > 0 {
        let before = welcome_all(state, readings.drop_last(), start_time);
        lemma_welcome_all_fits(state, readings.drop_last(), start_time);
        let reading = readings.last();
        if reading.id is Ok && reading.name is Ok {
            before.0.lemma_welcome(
                before.1,
                reading.thread_act,
                (reading.id->Ok_0).0,
                text_view(reading.name->Ok_0),
                start_time,
            );
        }
    }
}

/// Changes in the loaded libraries leave the processes and threads of the profile alone.
pub proof fn lemma_profile_after_keeps(profile: ProfileModel, changes: Seq<Modification>)
    ensures
        profile_after(profile, changes).processes == profile.processes,
        profile_after(profile, changes).threads == profile.threads,
    decreases changes.len(),
{
    if changes.len() > 0 {
        lemma_profile_after_keeps(profile, changes.drop_last());
    }
}

/// What waits in a process recycler, if there is one.
pub open spec fn recycler_view<J>(recycler: Option<&mut ProcessRecycler<J>>) -> Option<
    Seq<(Seq<char>, RecyclingModel<J>)>,
> {
    match recycler {
        Some(recycler) => Some(recycler@),
        None => None,
    }
}

/// Whether a task gets as far as asking for its predecessor.
pub open spec fn asks_for_predecessor(
    changes: Result<Vec<Modification>, KernelError>,
    threads: Result<Vec<ThreadReading>, SamplingError>,
) -> bool {
    changes is Ok && (threads matches Ok(threads) && threads@.len() > 0)
}

/// Live threads and the profile when a task starts with all threads that could be read.
pub open spec fn first_threads<J>(
    profile: ProfileModel,
    predecessor: Option<RecyclingModel<J>>,
    recycles: bool,
    process_name: Seq<char>,
    task_init: TaskInit,
    start_time: Timestamp,
    threads: Seq<ThreadReading>,
) -> (ThreadsModel, ProfileModel) {
    welcome_all(
        first_thread(
            profile,
            predecessor,
            recycles,
            process_name,
            task_init,
            start_time,
            threads[0],
        ),
        threads.skip(1),
        start_time,
    )
}

impl<S, J> TaskProfiler<S, J> {
    /// Starts to profile a task. `initial_lib_mods` and `threads` are what the kernel says about
    /// its libraries and its threads; `start_time` is its start time in the profile. Where the
    /// task has a predecessor of the same name that waits in `process_recycler`, it goes on with
    /// the process and the threads of the profile that stood for that one. `jit_functions` is what
    /// is known about compiled functions when nothing is known.
    pub fn new(
        task_init: TaskInit,
        start_time: Timestamp,
        command_name: &str,
        initial_lib_mods: Result<Vec<Modification>, KernelError>,
        threads: Result<Vec<ThreadReading>, SamplingError>,
        profile: &mut Profile,
        process_recycler: Option<&mut ProcessRecycler<J>>,
        jit_functions: J,
    ) -> (result: Result<Self, SamplingError>)
        requires
            start_failure(initial_lib_mods, threads) is None ==> changes_are_addable(
                (initial_lib_mods->Ok_0)@,
            ),
            process_recycler matches Some(recycler) ==> recycler_fits(
                recycler@,
                profile_view(*old(profile)),
            ),
        ensures
            process_recycler matches Some(recycler) ==> final(recycler)@ == (
            if asks_for_predecessor(initial_lib_mods, threads) {
                pool_without(recycler@, task_name((initial_lib_mods->Ok_0)@, command_name@))
            } else {
                recycler@
            }),
            match result {
                Err(e) => {
                    &&& start_failure(initial_lib_mods, threads) == Some(e)
                    &&& *final(profile) == *old(profile)
                },
                Ok(profiler) => {
                    let changes = (initial_lib_mods->Ok_0)@;
                    let name = task_name(changes, command_name@);
                    let predecessor = recycled(
                        match process_recycler {
                            Some(recycler) => Some(recycler@),
                            None => None,
                        },
                        name,
                    );
                    let (live, with_threads) = first_threads(
                        profile_view(*old(profile)),
                        predecessor,
                        process_recycler is Some,
                        name,
                        task_init,
                        start_time,
                        (threads->Ok_0)@,
                    );
                    &&& start_failure(initial_lib_mods, threads) is None
                    &&& profile_view(*final(profile)) == profile_after(with_threads, changes)
                    &&& modules_after(Multiset::empty(), changes, profiler@.modules)
                    &&& profiler@ == (TaskModel::<S, J> {
                        pid: task_init.pid,
                        executable_name: name,
                        threads: live,
                        main_thread: match predecessor {
                            Some(data) => data.main_thread,
                            None => profile_view(*old(profile)).threads.len(),
                        },
                        modules: profiler@.modules,
                        lib_ops: ops_for(with_threads, task_init.start_time_mono, changes),
                        ignored_errors: seq![],
                        samples: seq![],
                        jit: match predecessor {
                            Some(data) => Some(data.jit),
                            None => if process_recycler is Some {
                                Some(jit_functions)
                            } else {
                                None
                            },
                        },
                    })
                    &&& profiler.jitdump_path_receiver == task_init.jitdump_path_receiver
                    &&& profiler@.fits(profile_view(*final(profile)))
                },
            },
    {
        let ghost before = profile_view(*profile);
        let ghost pool = recycler_view(process_recycler);
        let lib_mods = match initial_lib_mods {
            Ok(changes) => changes,
            Err(e) => {
                return Err(SamplingError::Ignorable("Could not check process libraries", e));
            },
        };
        let executable_name = find_executable_name(&lib_mods, command_name);
        let mut readings = match threads {
            Ok(readings) => readings,
            Err(e) => {
                return Err(e);
            },
        };
        if readings.is_empty() {
            return Err(SamplingError::Ignorable("No threads", KernelError::Terminated));
        }
        let recycles: bool = process_recycler.is_some();
        let recycling_data = match process_recycler {
            Some(recycler) => recycler.recycle_by_name(executable_name.as_str()),
            None => None,
        };
        let main = readings.remove(0);
        let main_thread_act: u32 = main.thread_act;
        let main_thread_tid: u32 = match main.id {
            Ok((tid, _is_libdispatch_thread)) => tid,
            Err(e) => {
                return Err(SamplingError::Ignorable("Could not get main thread tid", e));
            },
        };
        let main_thread_name = match main.name {
            Ok(name) => name,
            Err(e) => {
                return Err(e);
            },
        };
        let (profile_process, main_thread_handle, thread_recycler, jit_function_recycler) =
            match recycling_data {
            Some(data) => (
                data.process_handle,
                data.main_thread_handle,
                Some(data.thread_recycler),
                Some(data.jit_function_recycler),
            ),
            None => {
                let profile_process = profile.add_process(
                    executable_name.as_str(),
                    task_init.pid,
                    start_time,
                );
                let main_thread_handle = profile.add_thread(
                    profile_process,
                    main_thread_tid,
                    start_time,
                    true,
                );
                if let Some(main_thread_name) = &main_thread_name {
                    profile.set_thread_name(main_thread_handle, main_thread_name.as_str());
                }
                if recycles {
                    (
                        profile_process,
                        main_thread_handle,
                        Some(ThreadRecycler::new()),
                        Some(jit_functions),
                    )
                } else {
                    (profile_process, main_thread_handle, None, None)
                }
            },
        };
        let mut live_threads = LiveThreads::new(task_init.task, profile_process, thread_recycler);
        let main_thread = ThreadProfiler::new(
            task_init.task,
            main_thread_tid,
            main_thread_handle,
            main_thread_act,
            main_thread_name,
        );
        live_threads.insert(main_thread_act, main_thread);
        proof {
            let predecessor = recycled(pool, executable_name@);
            let first = first_thread(
                before,
                predecessor,
                recycles,
                executable_name@,
                task_init,
                start_time,
                (threads->Ok_0)@[0],
            );
            assert(profile_view(*profile) =~= first.1);
            assert(live_threads@ =~= first.0);
            assert(live_threads@.fits(profile_view(*profile)));
            assert(readings@ =~= (threads->Ok_0)@.skip(1));
            lemma_welcome_all_fits(first, readings@, start_time);
        }
        live_threads.welcome_readings(readings, start_time, profile);
        proof {
            lemma_profile_after_keeps(profile_view(*profile), lib_mods@);
        }
        let ghost with_threads = profile_view(*profile);
        let mut libs = LoadedLibs::new();
        libs.process_lib_modifications(task_init.start_time_mono, lib_mods, profile);
        assert(libs.lib_mapping_ops@ =~= ops_for(
            with_threads,
            task_init.start_time_mono,
            lib_mods@,
        ));
        Ok(
            TaskProfiler {
                pid: task_init.pid,
                executable_name,
                threads: live_threads,
                main_thread_handle,
                libs,
                ignored_errors: Vec::new(),
                unresolved_samples: Vec::new(),
                jitdump_path_receiver: task_init.jitdump_path_receiver,
                jit_function_recycler,
            },
        )
    }

    /// Lets the task come to its end, when the task has exited. All of its threads come to their
    /// end with it.
    pub fn notify_dead(&mut self, end_time: Timestamp, profile: &mut Profile)
        requires
            old(self)@.fits(profile_view(*old(profile))),
        ensures
            exists|order: Seq<u32>|
                order.no_duplicates() && #[trigger] order.to_set() == old(self)@.threads.live.dom()
                    && task_ended(
                    old(self)@,
                    profile_view(*old(profile)),
                    order,
                    end_time,
                    final(self)@,
                    profile_view(*final(profile)),
                ),
            final(self)@.threads.live == Map::<u32, ThreadModel>::empty(),
            final(self)@.pid == old(self)@.pid,
            final(self)@.executable_name == old(self)@.executable_name,
            final(self)@.threads.process == old(self)@.threads.process,
            final(self)@.main_thread == old(self)@.main_thread,
            final(self)@.modules == old(self)@.modules,
            final(self)@.lib_ops == old(self)@.lib_ops,
            final(self)@.ignored_errors == old(self)@.ignored_errors,
            final(self)@.samples == old(self)@.samples,
            final(self)@.jit == old(self)@.jit,
            final(self)@.fits(profile_view(*final(profile))),
            final(self).jitdump_path_receiver == old(self).jitdump_path_receiver,
    {
        let order = self.threads.thread_acts();
        let ghost threads = self.threads@;
        let ghost before = profile_view(*profile);
        proof {
            assert forall|i: int| 0 <= i < order@.len() implies
                #[trigger] threads.live.contains_key(order@[i]) by {
                assert(order@.to_set().contains(order@[i]));
            }
            threads.lemma_retire_all(before, order@, end_time);
        }
        self.threads.retire_all(&order, end_time, profile);
        profile.set_process_end_time(self.threads.process, end_time);
        proof {
            assert(self.threads@.live =~= Map::<u32, ThreadModel>::empty());
            assert(order@.to_set() == old(self)@.threads.live.dom());
        }
    }

    /// The process whose map of compiled functions has to be read before the profiler finishes:
    /// the task itself, if there is a sample that may need it.
    pub fn perf_map_pid(&self) -> (pid: Option<u32>)
        ensures
            pid == if self@.samples.len() > 0 {
                Some(self@.pid)
            } else {
                None
            },
    {
        if !self.unresolved_samples.is_empty() {
            Some(self.pid)
        } else {
            None
        }
    }

    /// Hands out what was recorded, when the task has exited or the recording is over, and what
    /// the next task of the same name can use again. `jitdump_lib_ops` is what the task wrote
    /// about its compiled functions; `perf_map_mappings` is what [`TaskProfiler::perf_map_pid`]
    /// asks for. What is known about compiled functions is handed out as it is.
    pub fn finish<L, P>(self, jitdump_lib_ops: L, perf_map_mappings: Option<P>) -> (result: (
        ProcessSampleData<S, L, P>,
        Option<(String, ProcessRecyclingData<J>)>,
    ))
        ensures
            result.0.unresolved_samples@ == self@.samples,
            result.0.lib_mapping_ops@ == self@.lib_ops,
            result.0.jitdump_lib_ops == jitdump_lib_ops,
            result.0.perf_map_mappings == if self@.samples.len() > 0 {
                perf_map_mappings
            } else {
                None
            },
            match result.1 {
                Some((name, data)) => {
                    &&& self@.threads.pool is Some && self@.jit is Some
                    &&& name@ == self@.executable_name
                    &&& data@ == self@.remains()
                },
                None => self@.threads.pool is None || self@.jit is None,
            },
    {
        let perf_map_mappings = if !self.unresolved_samples.is_empty() {
            perf_map_mappings
        } else {
            None
        };
        let process_sample_data = ProcessSampleData {
            unresolved_samples: self.unresolved_samples,
            lib_mapping_ops: self.libs.lib_mapping_ops,
            jitdump_lib_ops,
            perf_map_mappings,
        };
        let recycling_data = match (self.jit_function_recycler, self.threads.recycler) {
            (Some(jit_function_recycler), Some(thread_recycler)) => Some(
                (
                    self.executable_name,
                    ProcessRecyclingData {
                        process_handle: self.threads.process,
                        main_thread_handle: self.main_thread_handle,
                        thread_recycler,
                        jit_function_recycler,
                    },
                ),
            ),
            _ => None,
        };
        (process_sample_data, recycling_data)
    }

    /// Collects the paths that have come in since the last time, of files that the task writes
    /// about its compiled functions. Which paths these are is up to the sender. There is no place
    /// to look for any of them but its path.
    pub fn check_jitdump(&mut self) -> (requests: Vec<(PathBuf, Option<PathBuf>)>)
        ensures
            forall|i: int| 0 <= i < requests@.len() ==> (#[trigger] requests@[i]).1 is None,
            *final(self) == *old(self),
    {
        jitdump_requests(drain_paths(&self.jitdump_path_receiver))
    }
}

/// Asks for the files at `paths`, in this order, each with no other place to look for it.
pub fn jitdump_requests(paths: Vec<PathBuf>) -> (requests: Vec<(PathBuf, Option<PathBuf>)>)
    ensures
        requests@ == paths@.map_values(|path: PathBuf| (path, None::<PathBuf>)),
{
    let ghost all = paths@;
    let mut requests: Vec<(PathBuf, Option<PathBuf>)> = Vec::new();
    for path in iter: paths
        invariant
            iter.seq() == all,
            requests@ =~= all.take(iter.index() as int).map_values(
                |path: PathBuf| (path, None::<PathBuf>),
            ),
    {
        requests.push((path, None));
    }
    assert(all.take(all.len() as int) =~= all);
    requests
}

/// Takes what is ready out of the channel with `crossbeam_channel::Receiver::try_iter`, which
/// stops when nothing is ready, and not before. What that is depends on the senders, so nothing is
/// stated.
#[verifier::external_body]
fn drain_paths(receiver: &Receiver<PathBuf>) -> (paths: Vec<PathBuf>) {
    receiver.try_iter().collect()
}

/// What was recorded of a task. `L` and `P` are what the task itself wrote about its compiled
/// functions, in one of two ways.
pub struct ProcessSampleData<S, L, P> {
    pub unresolved_samples: Vec<S>,
    pub lib_mapping_ops: LibMappingOpQueue,
    pub jitdump_lib_ops: L,
    pub perf_map_mappings: Option<P>,
}

impl<S, J> TaskModel<S, J> {
    /// What the next task of the same name can use again.
    pub open spec fn remains(self) -> RecyclingModel<J> {
        RecyclingModel {
            process: self.threads.process,
            main_thread: self.main_thread,
            pool: self.threads.pool->0,
            jit: self.jit->0,
        }
    }
}

/// Whether `after` and `profile_after` are what becomes of a task and of the profile when the
/// task comes to its end, if its threads go in the order `order`.
pub open spec fn task_ended<S, J>(
    before: TaskModel<S, J>,
    profile_before: ProfileModel,
    order: Seq<u32>,
    end_time: Timestamp,
    after: TaskModel<S, J>,
    profile_after: ProfileModel,
) -> bool {
    &&& after == TaskModel { threads: before.threads.retire_all(order), ..before }
    &&& profile_after == before.threads.profile_retire_all(
        profile_before,
        order,
        end_time,
    ).end_process(before.threads.process, end_time)
}

impl LiveThreads {
    /// Takes in all threads that could be read.
    fn welcome_readings(
        &mut self,
        readings: Vec<ThreadReading>,
        start_time: Timestamp,
        profile: &mut Profile,
    )
        requires
            old(self)@.fits(profile_view(*old(profile))),
        ensures
            (final(self)@, profile_view(*final(profile))) == welcome_all(
                (old(self)@, profile_view(*old(profile))),
                readings@,
                start_time,
            ),
            final(self)@.fits(profile_view(*final(profile))),
    {
        let ghost all = readings@;
        let ghost before = (self@, profile_view(*profile));
        assert(all.take(0) =~= Seq::<ThreadReading>::empty());
        for reading in iter: readings
            invariant
                iter.seq() == all,
                (self@, profile_view(*profile)) == welcome_all(
                    before,
                    all.take(iter.index() as int),
                    start_time,
                ),
                self@.fits(profile_view(*profile)),
        {
            let ghost next = all.take(iter.index() + 1);
            assert(next.drop_last() =~= all.take(iter.index() as int));
            assert(next.last() == reading);
            if let (Ok((tid, _is_libdispatch_thread)), Ok(name)) = (reading.id, reading.name) {
                self.welcome(reading.thread_act, tid, name, start_time, profile);
            }
        }
        assert(all.take(all.len() as int) =~= all);
    }
}

} // verus!

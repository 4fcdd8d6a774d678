//! What becomes of the threads of a task, said field by field.
use crate::error::{KernelError, SamplingError};
use crate::library::Modification;
use crate::live_threads::{pool_view, LiveThreads, ThreadProfiler, ThreadsModel};
use crate::paths::path_file_name;
use crate::profile::{
    process_index, profile_libraries, profile_processes, profile_threads, profile_view,
    thread_index, ProcessRecord, ProfileModel, ThreadRecord,
};
use crate::recycling::{
    first_named, has_named, lemma_first_named, lemma_first_named_found, ProcessRecyclingData,
    RecyclingModel, ThreadRecycler,
};
use crate::task_profiler::{
    asks_for_predecessor, first_thread, first_threads, pool_without, recycled, recycler_fits,
    recycling_fits, start_failure, task_ended, task_name, TaskInit, TaskModel, TaskProfiler,
    ThreadReading,
};
use crate::unwinder::unwinder_modules;
use fxprof_processed_profile::{Profile, Timestamp};
use vstd::prelude::*;

verus! {

/// Something waits under a name if and only if one of the entries has that name, and the first of
/// them is the one that counts.
pub proof fn law_first_of_a_name<T>(pool: Seq<(Seq<char>, T)>, name: Seq<char>)
    ensures
        has_named(pool, name) <==> exists|i: int| 0 <= i < pool.len() && (#[trigger] pool[i]).0
            == name,
        has_named(pool, name) ==> {
            let place = first_named(pool, name) as int;
            &&& 0 <= place < pool.len()
            &&& pool[place].0 == name
            &&& forall|i: int| 0 <= i < place ==> (#[trigger] pool[i]).0 != name
        },
{
    lemma_first_named_found(pool, name);
    if has_named(pool, name) {
        assert(pool[first_named(pool, name) as int].0 == name);
    }
}

/// A new thread takes over a thread of the profile if and only if there is a recycler, the thread
/// has a name, and something waits under it. It gets what has waited the longest, which does not
/// wait any more then. The others go on waiting in their order, and the profile stays as it is.
pub proof fn law_waiting_thread_is_taken_over(
    threads: ThreadsModel,
    profile: ProfileModel,
    tid: u32,
    name: Seq<char>,
    start_time: Timestamp,
    place: int,
)
    requires
        threads.pool is Some,
        0 <= place < threads.pool->0.len(),
        threads.pool->0[place].0 == name,
        forall|i: int| 0 <= i < place ==> (#[trigger] threads.pool->0[i]).0 != name,
    ensures
        threads.profile_thread_for(profile, Some(name)) == threads.pool->0[place].1,
        threads.profile_with(profile, tid, Some(name), start_time) == profile,
        threads.pool_without(Some(name)) is Some,
        threads.pool_without(Some(name))->0.len() == threads.pool->0.len() - 1,
        forall|i: int|
            0 <= i < place ==> threads.pool_without(Some(name))->0[i] == threads.pool->0[i],
        forall|i: int|
            place <= i < threads.pool->0.len() - 1 ==> threads.pool_without(Some(name))->0[i]
                == threads.pool->0[i + 1],
{
    lemma_first_named(threads.pool->0, name, place as nat);
}

/// A new thread is alive under its port, with its own ID and name and with its thread of the
/// profile. The other live threads stay as they are.
pub proof fn law_new_thread_is_live(
    threads: ThreadsModel,
    profile: ProfileModel,
    act: u32,
    tid: u32,
    name: Option<Seq<char>>,
    other: u32,
)
    ensures
        ({
            let after = threads.welcome(profile, act, tid, name);
            &&& after.live.contains_key(act)
            &&& after.live[act].task == threads.task
            &&& after.live[act].tid == tid
            &&& after.live[act].thread_act == act
            &&& after.live[act].name == name
            &&& after.live[act].profile_thread == threads.profile_thread_for(profile, name)
            &&& other != act ==> (after.live.contains_key(other) <==> threads.live.contains_key(
                other,
            )) && after.live[other] == threads.live[other]
            &&& after.task == threads.task
            &&& after.process == threads.process
            &&& after.pool == threads.pool_without(name)
        }),
{
}

/// A thread that comes to its end is not alive any more. If it has a name and there is a recycler,
/// its thread of the profile waits under that name, behind everything that waits already; else
/// nothing new waits. The other live threads stay as they are.
pub proof fn law_ended_thread_waits(threads: ThreadsModel, act: u32, other: u32)
    requires
        threads.live.contains_key(act),
    ensures
        ({
            let after = threads.retire(act);
            &&& !after.live.contains_key(act)
            &&& other != act ==> (after.live.contains_key(other) <==> threads.live.contains_key(
                other,
            )) && after.live[other] == threads.live[other]
            &&& after.task == threads.task
            &&& after.process == threads.process
            &&& threads.pool is None ==> after.pool is None
            &&& threads.live[act].name is None ==> after.pool == threads.pool
            &&& threads.pool matches Some(pool) ==> (threads.live[act].name matches Some(name) ==> {
                &&& after.pool is Some
                &&& after.pool->0.len() == pool.len() + 1
                &&& after.pool->0[pool.len() as int] == (name, threads.live[act].profile_thread)
                &&& forall|i: int| 0 <= i < pool.len() ==> after.pool->0[i] == pool[i]
            })
        }),
{
    assert(threads.live.remove(act).dom() =~= threads.live.dom().remove(act));
}

/// Threads come to their end one after the other, each like a single one. In the profile only the
/// end time of the thread that stands for it changes.
pub proof fn law_threads_end_in_order(
    threads: ThreadsModel,
    profile: ProfileModel,
    acts: Seq<u32>,
    act: u32,
    end_time: Timestamp,
)
    requires
        threads.fits(profile),
        threads.live.contains_key(act),
        forall|i: int| 0 <= i < acts.len() ==> threads.live.contains_key(#[trigger] acts[i]),
    ensures
        threads.retire_all(seq![]) == threads,
        threads.retire_all(acts.push(act)) == threads.retire_all(acts).retire(act),
        threads.profile_retire_all(profile, seq![], end_time) == profile,
        ({
            let before = threads.profile_retire_all(profile, acts, end_time);
            let after = threads.profile_retire_all(profile, acts.push(act), end_time);
            let place = threads.live[act].profile_thread as int;
            &&& after.processes == before.processes
            &&& after.libraries == before.libraries
            &&& after.threads.len() == before.threads.len()
            &&& after.threads[place] == (ThreadRecord {
                end_time: Some(end_time),
                ..before.threads[place]
            })
            &&& forall|i: int|
                0 <= i < before.threads.len() && i != place ==> after.threads[i]
                    == before.threads[i]
        }),
{
    assert(acts.push(act).drop_last() =~= acts);
    lemma_threads_keep_their_number(threads, profile, acts, end_time);
}

proof fn lemma_threads_keep_their_number(
    threads: ThreadsModel,
    profile: ProfileModel,
    acts: Seq<u32>,
    end_time: Timestamp,
)
    requires
        threads.fits(profile),
        forall|i: int| 0 <= i < acts.len() ==> threads.live.contains_key(#[trigger] acts[i]),
    ensures
        threads.profile_retire_all(profile, acts, end_time).threads.len() == profile.threads.len(),
    decreases acts.len(),
{
    if acts.len() > 0 {
        assert(threads.live.contains_key(acts[acts.len() - 1]));
        lemma_threads_keep_their_number(threads, profile, acts.drop_last(), end_time);
    }
}

/// A process is in the profile from its start on, if nothing of a predecessor is used again: with
/// its name, its process ID and its start time, and with its main thread, which has its own ID and
/// name. The rest of the profile stays as it is. Its main thread is its only live thread, and
/// nothing waits; there is a recycler if and only if threads are to be used again.
pub proof fn law_new_process_is_new<J>(
    profile: ProfileModel,
    recycles: bool,
    process_name: Seq<char>,
    task_init: TaskInit,
    start_time: Timestamp,
    main: ThreadReading,
    tid: u32,
    queue: bool,
    name: Option<String>,
    act: u32,
)
    requires
        main.id == Ok::<_, KernelError>((tid, queue)),
        main.name == Ok::<_, SamplingError>(name),
    ensures
        ({
            let (threads, after) = first_thread::<J>(
                profile,
                None,
                recycles,
                process_name,
                task_init,
                start_time,
                main,
            );
            let record = after.threads[profile.threads.len() as int];
            &&& after.libraries == profile.libraries
            &&& after.processes.len() == profile.processes.len() + 1
            &&& after.processes[profile.processes.len() as int] == (ProcessRecord {
                name: process_name,
                pid: task_init.pid,
                start_time,
                end_time: None,
            })
            &&& forall|i: int|
                0 <= i < profile.processes.len() ==> after.processes[i] == profile.processes[i]
            &&& after.threads.len() == profile.threads.len() + 1
            &&& record.process == profile.processes.len()
            &&& record.tid == tid
            &&& record.start_time == start_time
            &&& record.end_time is None
            &&& record.is_main
            &&& record.name is Some <==> name is Some
            &&& name matches Some(name) ==> record.name == Some(name@)
            &&& forall|i: int|
                0 <= i < profile.threads.len() ==> after.threads[i] == profile.threads[i]
            &&& threads.task == task_init.task
            &&& threads.process == profile.processes.len()
            &&& threads.live.contains_key(act) <==> act == main.thread_act
            &&& threads.live[main.thread_act].task == task_init.task
            &&& threads.live[main.thread_act].tid == tid
            &&& threads.live[main.thread_act].thread_act == main.thread_act
            &&& threads.live[main.thread_act].profile_thread == profile.threads.len()
            &&& threads.live[main.thread_act].name == record.name
            &&& threads.pool is Some <==> recycles
            &&& threads.pool matches Some(pool) ==> pool.len() == 0
        }),
{
}

/// A task with a predecessor goes on with the process, the main thread and the waiting threads of
/// that one. Its main thread has its own ID and name and is its only live thread. The profile stays
/// as it is.
pub proof fn law_successor_goes_on<J>(
    profile: ProfileModel,
    data: RecyclingModel<J>,
    recycles: bool,
    process_name: Seq<char>,
    task_init: TaskInit,
    start_time: Timestamp,
    main: ThreadReading,
    tid: u32,
    queue: bool,
    name: Option<String>,
    act: u32,
)
    requires
        main.id == Ok::<_, KernelError>((tid, queue)),
        main.name == Ok::<_, SamplingError>(name),
    ensures
        ({
            let (threads, after) = first_thread(
                profile,
                Some(data),
                recycles,
                process_name,
                task_init,
                start_time,
                main,
            );
            let thread = threads.live[main.thread_act];
            &&& after == profile
            &&& threads.task == task_init.task
            &&& threads.process == data.process
            &&& threads.pool == Some(data.pool)
            &&& threads.live.contains_key(act) <==> act == main.thread_act
            &&& thread.task == task_init.task
            &&& thread.tid == tid
            &&& thread.thread_act == main.thread_act
            &&& thread.profile_thread == data.main_thread
            &&& thread.name is Some <==> name is Some
            &&& name matches Some(name) ==> thread.name == Some(name@)
        }),
{
}

/// The threads of a task are taken in one after the other behind the first one, each with what was
/// read about it. One about which the ID or the name could not be read is left out.
pub proof fn law_threads_are_taken_in_order<J>(
    profile: ProfileModel,
    predecessor: Option<RecyclingModel<J>>,
    recycles: bool,
    process_name: Seq<char>,
    task_init: TaskInit,
    start_time: Timestamp,
    readings: Seq<ThreadReading>,
    last: ThreadReading,
    tid: u32,
    queue: bool,
    name: Option<String>,
)
    requires
        readings.len() > 0,
    ensures
        ({
            let before = first_threads(
                profile,
                predecessor,
                recycles,
                process_name,
                task_init,
                start_time,
                readings,
            );
            let after = first_threads(
                profile,
                predecessor,
                recycles,
                process_name,
                task_init,
                start_time,
                readings.push(last),
            );
            &&& readings.len() == 1 ==> before == first_thread(
                profile,
                predecessor,
                recycles,
                process_name,
                task_init,
                start_time,
                readings[0],
            )
            &&& last.id is Err || last.name is Err ==> after == before
            &&& last.id == Ok::<_, KernelError>((tid, queue)) && last.name == Ok::<
                _,
                SamplingError,
            >(name) ==> {
                let text = match name {
                    Some(name) => Some(name@),
                    None => None,
                };
                &&& after.0 == before.0.welcome(before.1, last.thread_act, tid, text)
                &&& after.1 == before.0.profile_with(before.1, tid, text, start_time)
            }
        }),
{
    let rest = readings.push(last).skip(1);
    assert(rest =~= readings.skip(1).push(last));
    assert(rest.drop_last() =~= readings.skip(1));
    assert(readings.push(last)[0] == readings[0]);
    if readings.len() == 1 {
        assert(readings.skip(1) =~= Seq::<ThreadReading>::empty());
    }
}

/// The name that the change at `i` gives to a task: the name of the file of a library that is the
/// program itself.
pub open spec fn names_task(changes: Seq<Modification>, i: int, name: Seq<char>) -> bool {
    changes[i] matches Modification::Added(added) && added.lib.is_executable && path_file_name(
        added.lib.file@,
    ) == Some(name)
}

/// A task is named after the file of the first library that is the program itself and has a file
/// name, whatever comes behind it. Where there is none, it has the name of the command.
pub proof fn law_first_program_names_the_task(
    changes: Seq<Modification>,
    command_name: Seq<char>,
    place: int,
    name: Seq<char>,
)
    requires
        0 <= place <= changes.len(),
        forall|i: int, other: Seq<char>|
            0 <= i < place ==> !#[trigger] names_task(changes, i, other),
        place < changes.len() ==> names_task(changes, place, name),
        place == changes.len() ==> name == command_name,
    ensures
        task_name(changes, command_name) == name,
    decreases changes.len(),
{
    if changes.len() > 0 && place > 0 {
        let rest = changes.skip(1);
        assert forall|i: int, other: Seq<char>| 0 <= i < place - 1 implies !#[trigger] names_task(
            rest,
            i,
            other,
        ) by {
            assert(rest[i] == changes[i + 1]);
            assert(!names_task(changes, i + 1, other));
        }
        if place < changes.len() {
            assert(rest[place - 1] == changes[place]);
        }
        law_first_program_names_the_task(rest, command_name, place - 1, name);
        if let Modification::Added(added) = changes[0] {
            if added.lib.is_executable && path_file_name(added.lib.file@) is Some {
                assert(names_task(changes, 0, path_file_name(added.lib.file@)->0));
            }
        }
    }
}

/// Why a task cannot be profiled: the first thing that goes wrong decides. The libraries come
/// first, then the list of threads, then the ID and at last the name of the first thread. What is
/// known about other threads does not matter.
pub proof fn law_first_failure_decides(
    changes: Result<Vec<Modification>, KernelError>,
    threads: Result<Vec<ThreadReading>, SamplingError>,
)
    ensures
        changes matches Err(e) ==> start_failure(changes, threads) == Some(
            SamplingError::Ignorable("Could not check process libraries", e),
        ),
        changes is Ok ==> (threads matches Err(e) ==> start_failure(changes, threads) == Some(e)),
        changes is Ok ==> (threads matches Ok(threads_read) ==> {
            let main = threads_read@[0];
            &&& threads_read@.len() == 0 ==> start_failure(changes, threads) == Some(
                SamplingError::Ignorable("No threads", KernelError::Terminated),
            )
            &&& threads_read@.len() > 0 ==> (main.id matches Err(e) ==> start_failure(
                changes,
                threads,
            ) == Some(SamplingError::Ignorable("Could not get main thread tid", e)))
            &&& threads_read@.len() > 0 && main.id is Ok ==> (main.name matches Err(e)
                ==> start_failure(changes, threads) == Some(e))
            &&& threads_read@.len() > 0 && main.id is Ok && main.name is Ok ==> start_failure(
                changes,
                threads,
            ) is None
        }),
        asks_for_predecessor(changes, threads) <==> changes is Ok && threads is Ok && (
        threads->Ok_0)@.len() > 0,
{
}

/// A predecessor is found if and only if something waits under the name of the task. What has
/// waited the longest is taken, and the others go on waiting in their order.
pub proof fn law_predecessor_is_taken_out<J>(
    pool: Seq<(Seq<char>, RecyclingModel<J>)>,
    name: Seq<char>,
    place: int,
)
    requires
        0 <= place <= pool.len(),
        forall|i: int| 0 <= i < place ==> (#[trigger] pool[i]).0 != name,
        place < pool.len() ==> pool[place].0 == name,
    ensures
        recycled::<J>(None, name) is None,
        place == pool.len() ==> recycled(Some(pool), name) is None && pool_without(pool, name)
            == pool,
        place < pool.len() ==> {
            &&& recycled(Some(pool), name) == Some(pool[place].1)
            &&& pool_without(pool, name).len() == pool.len() - 1
            &&& forall|i: int| 0 <= i < place ==> pool_without(pool, name)[i] == pool[i]
            &&& forall|i: int|
                place <= i < pool.len() - 1 ==> pool_without(pool, name)[i] == pool[i + 1]
        },
{
    lemma_first_named(pool, name, place as nat);
}

/// What a task leaves to the next one of its name: its process, its main thread, the threads that
/// wait and what is known about compiled functions.
pub proof fn law_remains_of_a_task<S, J>(task: TaskModel<S, J>)
    ensures
        task.remains().process == task.threads.process,
        task.remains().main_thread == task.main_thread,
        task.threads.pool matches Some(pool) ==> task.remains().pool == pool,
        task.jit matches Some(jit) ==> task.remains().jit == jit,
{
}

/// A task that comes to its end keeps what was recorded of it. Its threads end like single ones, in
/// some order, and in the profile only their end times and that of its process change.
pub proof fn law_end_of_a_task_keeps_the_recording<S, J>(
    before: TaskModel<S, J>,
    profile: ProfileModel,
    order: Seq<u32>,
    end_time: Timestamp,
    after: TaskModel<S, J>,
    profile_after: ProfileModel,
    other: int,
)
    requires
        before.fits(profile),
        task_ended(before, profile, order, end_time, after, profile_after),
    ensures
        after.samples == before.samples,
        after.lib_ops == before.lib_ops,
        after.modules == before.modules,
        after.ignored_errors == before.ignored_errors,
        after.pid == before.pid,
        after.executable_name == before.executable_name,
        after.main_thread == before.main_thread,
        after.jit == before.jit,
        after.threads == before.threads.retire_all(order),
        profile_after.threads == before.threads.profile_retire_all(
            profile,
            order,
            end_time,
        ).threads,
        profile_after.libraries == profile.libraries,
        profile_after.processes.len() == profile.processes.len(),
        profile_after.processes[before.threads.process as int] == (ProcessRecord {
            end_time: Some(end_time),
            ..profile.processes[before.threads.process as int]
        }),
        0 <= other < profile.processes.len() && other != before.threads.process
            ==> profile_after.processes[other] == profile.processes[other],
{
    lemma_retired_threads_only(before.threads, profile, order, end_time);
}

proof fn lemma_retired_threads_only(
    threads: ThreadsModel,
    profile: ProfileModel,
    acts: Seq<u32>,
    end_time: Timestamp,
)
    ensures
        threads.profile_retire_all(profile, acts, end_time).processes == profile.processes,
        threads.profile_retire_all(profile, acts, end_time).libraries == profile.libraries,
    decreases acts.len(),
{
    if acts.len() > 0 {
        lemma_retired_threads_only(threads, profile, acts.drop_last(), end_time);
    }
}

/// A task belongs to a profile if and only if everything that it has a handle for is in it, and
/// threads are used again if and only if compiled functions are.
pub proof fn law_what_belongs_to_a_profile<S, J>(
    task: TaskModel<S, J>,
    profile: ProfileModel,
    data: RecyclingModel<J>,
    pool: Seq<(Seq<char>, RecyclingModel<J>)>,
)
    ensures
        task.fits(profile) <==> {
            &&& task.threads.process < profile.processes.len()
            &&& task.main_thread < profile.threads.len()
            &&& forall|act: u32| #[trigger]
                task.threads.live.contains_key(act) ==> task.threads.live[act].profile_thread
                    < profile.threads.len()
            &&& task.threads.pool matches Some(pool) ==> forall|i: int|
                0 <= i < pool.len() ==> (#[trigger] pool[i]).1 < profile.threads.len()
            &&& task.threads.pool is Some == task.jit is Some
        },
        recycling_fits(data, profile) <==> {
            &&& data.process < profile.processes.len()
            &&& data.main_thread < profile.threads.len()
            &&& forall|i: int|
                0 <= i < data.pool.len() ==> (#[trigger] data.pool[i]).1 < profile.threads.len()
        },
        recycler_fits(pool, profile) <==> forall|i: int|
            0 <= i < pool.len() ==> recycling_fits((#[trigger] pool[i]).1, profile),
{
}

/// A thread and what is left of a process stand for what their fields say.
pub proof fn law_thread_means_its_fields<J>(
    thread: ThreadProfiler,
    data: ProcessRecyclingData<J>,
    recycler: ThreadRecycler,
)
    ensures
        thread@.task == thread.task,
        thread@.tid == thread.tid,
        thread@.profile_thread == thread_index(thread.profile_thread),
        thread@.thread_act == thread.thread_act,
        thread.name is None ==> thread@.name is None,
        thread.name matches Some(name) ==> thread@.name == Some(name@),
        data@.process == process_index(data.process_handle),
        data@.main_thread == thread_index(data.main_thread_handle),
        data@.pool == data.thread_recycler@,
        data@.jit == data.jit_function_recycler,
        pool_view(Some(recycler)) == Some(recycler@),
        pool_view(None) is None,
{
}

/// The live threads of a task stand for what their fields say: every thread under its port.
pub proof fn law_live_threads_mean_their_fields(threads: LiveThreads, act: u32)
    ensures
        threads@.task == threads.task,
        threads@.process == process_index(threads.process),
        threads@.live.contains_key(act) <==> threads.threads@.contains_key(act),
        threads.threads@.contains_key(act) ==> threads@.live[act] == threads.threads@[act]@,
        threads.recycler is None ==> threads@.pool is None,
        threads.recycler matches Some(recycler) ==> threads@.pool == Some(recycler@),
{
}

/// A task stands for what its fields say, and a profile for what it holds.
pub proof fn law_task_means_its_fields<S, J>(task: TaskProfiler<S, J>, profile: Profile)
    ensures
        task@.pid == task.pid,
        task@.executable_name == task.executable_name@,
        task@.threads == task.threads@,
        task@.main_thread == thread_index(task.main_thread_handle),
        task@.modules == unwinder_modules(task.libs.unwinder),
        task@.lib_ops == task.libs.lib_mapping_ops@,
        task@.ignored_errors == task.ignored_errors@,
        task@.samples == task.unresolved_samples@,
        task@.jit == task.jit_function_recycler,
        profile_view(profile).processes == profile_processes(profile),
        profile_view(profile).threads == profile_threads(profile),
        profile_view(profile).libraries == profile_libraries(profile),
{
}

} // verus!

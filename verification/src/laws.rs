//! What holds of the profiler as a whole.
use crate::debug_frame::{
    be_u32, debug_frame, debug_frame_in_bounds, debug_frame_storage, stored_section, zlib_magic,
};
use crate::error::{KernelError, SamplingError};
use crate::library::{DyldInfo, LibOpModel, MappedLib, Modification};
use crate::live_threads::ThreadsModel;
use crate::loaded_libs::{
    changes_are_addable, lib_is_addable, lib_module, modules_after, modules_step, ops_for,
    profile_after, profile_step,
};
use crate::object_file::{
    inflated, object_section, CompressedFileRange, CompressionFormat, SectionModel,
};
use crate::paths::{component_start, path_file_name};
use crate::profile::{thread_index, ProfileModel, ThreadRecord};
use crate::recycling::{
    first_named, has_named, lemma_first_named, lemma_first_named_found, RecyclingModel,
};
use crate::sampling::{
    action_for, lemma_gone_threads, SampleAction, SampleEvent, SampleProgress, SampleState,
    SampledThread,
};
use crate::task_profiler::{
    first_thread, first_threads, lemma_profile_after_keeps, pool_without, recycled, recycler_fits,
    recycling_fits, task_ended, task_name, welcome_all, TaskInit, TaskModel, ThreadReading,
};
use crate::unwinder::{module_at, ModuleModel};
use fxprof_processed_profile::Timestamp;
use vstd::multiset::Multiset;
use vstd::prelude::*;

verus! {

broadcast use vstd::multiset::group_multiset_axioms;

/// What waits under a name under which nothing waited before is what comes out next, and then
/// everything is as it was.
pub proof fn law_pool_gives_back<T>(pool: Seq<(Seq<char>, T)>, name: Seq<char>, value: T)
    requires
        !has_named(pool, name),
    ensures
        has_named(pool.push((name, value)), name),
        pool.push((name, value))[first_named(pool.push((name, value)), name) as int].1 == value,
        pool.push((name, value)).remove(first_named(pool.push((name, value)), name) as int)
            == pool,
{
    lemma_first_named_found(pool, name);
    let after = pool.push((name, value));
    assert forall|i: int| 0 <= i < pool.len() implies #[trigger] after[i].0 != name by {
        assert(pool[i].0 != name);
    }
    lemma_first_named(after, name, pool.len());
    assert(after.remove(pool.len() as int) =~= pool);
}

/// What has waited under a name for longer comes out before what comes in later.
pub proof fn law_pool_is_fair<T>(pool: Seq<(Seq<char>, T)>, name: Seq<char>, value: T)
    requires
        has_named(pool, name),
    ensures
        first_named(pool.push((name, value)), name) == first_named(pool, name),
        pool.push((name, value))[first_named(pool, name) as int] == pool[first_named(
            pool,
            name,
        ) as int],
{
    lemma_first_named_found(pool, name);
    let after = pool.push((name, value));
    let place = first_named(pool, name);
    assert forall|i: int| 0 <= i < place implies #[trigger] after[i].0 != name by {
        assert(pool[i].0 != name);
    }
    lemma_first_named(after, name, place);
}

/// A thread with a name that comes to its end is followed by the next thread of that name: it goes
/// on with the same thread of the profile, and the profile gets no new one. This goes for names
/// under which nothing waited before; else what waited before has its turn first.
pub proof fn law_thread_is_followed(
    threads: ThreadsModel,
    profile: ProfileModel,
    thread_act: u32,
    tid: u32,
    start_time: Timestamp,
)
    requires
        threads.live.contains_key(thread_act),
        threads.live[thread_act].name is Some,
        threads.pool is Some,
        !has_named(threads.pool->0, threads.live[thread_act].name->0),
    ensures
        threads.retire(thread_act).profile_thread_for(profile, threads.live[thread_act].name)
            == threads.live[thread_act].profile_thread,
        threads.retire(thread_act).profile_with(
            profile,
            tid,
            threads.live[thread_act].name,
            start_time,
        ) == profile,
        threads.retire(thread_act).pool_without(threads.live[thread_act].name) == threads.pool,
{
    let thread = threads.live[thread_act];
    law_pool_gives_back(threads.pool->0, thread.name->0, thread.profile_thread);
}

/// A new thread that does not take over a thread of the profile gets a new one at the end: with the
/// process of the task, its thread ID, its start time and its name, and without an end time. The
/// rest of the profile stays as it is. Without a recycler, without a name, and where nothing waits
/// under its name, no thread is taken over.
pub proof fn law_new_thread_is_new(
    threads: ThreadsModel,
    profile: ProfileModel,
    tid: u32,
    name: Option<Seq<char>>,
    start_time: Timestamp,
)
    requires
        threads.pool matches Some(pool) ==> (name matches Some(name) ==> forall|i: int|
            0 <= i < pool.len() ==> (#[trigger] pool[i]).0 != name),
    ensures
        !threads.reuses(name),
        threads.profile_thread_for(profile, name) == profile.threads.len(),
        threads.profile_with(profile, tid, name, start_time).threads.len() == profile.threads.len()
            + 1,
        threads.profile_with(profile, tid, name, start_time).threads[profile.threads.len() as int]
            == (ThreadRecord {
            process: threads.process,
            tid,
            start_time,
            end_time: None,
            is_main: false,
            name,
        }),
        forall|i: int|
            0 <= i < profile.threads.len() ==> threads.profile_with(
                profile,
                tid,
                name,
                start_time,
            ).threads[i] == profile.threads[i],
        threads.profile_with(profile, tid, name, start_time).processes == profile.processes,
        threads.profile_with(profile, tid, name, start_time).libraries == profile.libraries,
        threads.pool_without(name) == threads.pool,
{
    if threads.pool is Some && name is Some {
        let pool = threads.pool->0;
        lemma_first_named_found(pool, name->0);
        if has_named(pool, name->0) {
            assert(pool[first_named(pool, name->0) as int].0 == name->0);
        }
    }
}

/// A profile that has grown still has everything that a task has a handle for.
pub proof fn law_grown_profile_fits<S, J>(
    task: TaskModel<S, J>,
    profile: ProfileModel,
    grown: ProfileModel,
)
    requires
        task.fits(profile),
        profile.processes.len() <= grown.processes.len(),
        profile.threads.len() <= grown.threads.len(),
    ensures
        task.fits(grown),
{
    assert forall|act: u32| #[trigger] task.threads.live.contains_key(act) implies
        task.threads.live[act].profile_thread < grown.threads.len() by {
        assert(task.threads.live[act].profile_thread < profile.threads.len());
    }
    if task.threads.pool is Some {
        let pool = task.threads.pool->0;
        assert forall|i: int| 0 <= i < pool.len() implies #[trigger] pool[i].1
            < grown.threads.len() by {
            assert(pool[i].1 < profile.threads.len());
        }
    }
}

/// Threads that come to their end have the end time in the profile; the other threads of the
/// profile are as they were.
pub proof fn law_retired_threads_end(
    threads: ThreadsModel,
    profile: ProfileModel,
    thread_acts: Seq<u32>,
    end_time: Timestamp,
)
    requires
        threads.fits(profile),
        forall|i: int|
            0 <= i < thread_acts.len() ==> #[trigger] threads.live.contains_key(thread_acts[i]),
    ensures
        threads.profile_retire_all(profile, thread_acts, end_time).threads.len()
            == profile.threads.len(),
        forall|place: int|
            #![trigger threads.profile_retire_all(profile, thread_acts, end_time).threads[place]]
            0 <= place < profile.threads.len() ==> threads.profile_retire_all(
                profile,
                thread_acts,
                end_time,
            ).threads[place] == (if stands_for_one(threads, thread_acts, place) {
                ThreadRecord { end_time: Some(end_time), ..profile.threads[place] }
            } else {
                profile.threads[place]
            }),
    decreases thread_acts.len(),
{
    if thread_acts.len() > 0 {
        let front = thread_acts.drop_last();
        let last = thread_acts.last();
        assert forall|i: int| 0 <= i < front.len() implies #[trigger] threads.live.contains_key(
            front[i],
        ) by {
            assert(threads.live.contains_key(thread_acts[i]));
        }
        law_retired_threads_end(threads, profile, front, end_time);
        assert(threads.live.contains_key(thread_acts[thread_acts.len() - 1]));
        let before = threads.profile_retire_all(profile, front, end_time);
        let after = threads.profile_retire_all(profile, thread_acts, end_time);
        assert forall|place: int|
            #![trigger after.threads[place]]
            0 <= place < profile.threads.len() implies after.threads[place] == (
        if stands_for_one(threads, thread_acts, place) {
            ThreadRecord { end_time: Some(end_time), ..profile.threads[place] }
        } else {
            profile.threads[place]
        }) by {
            assert(before.threads[place] == (if stands_for_one(threads, front, place) {
                ThreadRecord { end_time: Some(end_time), ..profile.threads[place] }
            } else {
                profile.threads[place]
            }));
            if stands_for_one(threads, front, place) {
                let i = choose|i: int|
                    0 <= i < front.len() && threads.live[#[trigger] front[i]].profile_thread
                        == place;
                assert(thread_acts[i] == front[i]);
                assert(stands_for_one(threads, thread_acts, place));
            } else if stands_for_one(threads, thread_acts, place) {
                let i = choose|i: int|
                    0 <= i < thread_acts.len()
                        && threads.live[#[trigger] thread_acts[i]].profile_thread == place;
                if i < front.len() {
                    assert(front[i] == thread_acts[i]);
                }
            }
            if threads.live[last].profile_thread == place {
                assert(thread_acts[thread_acts.len() - 1] == last);
                assert(stands_for_one(threads, thread_acts, place));
            }
        }
    }
}

/// Whether the thread of the profile at `place` stands for one of the threads behind `thread_acts`.
pub open spec fn stands_for_one(threads: ThreadsModel, thread_acts: Seq<u32>, place: int) -> bool {
    exists|i: int|
        0 <= i < thread_acts.len() && threads.live[#[trigger] thread_acts[i]].profile_thread
            == place
}

/// When every thread has had its turn, a thread is alive if and only if it was among the live
/// threads and, if it was so before the round, turned out to be alive. (A thread that came with
/// this round and ended at once is seen off in the next one.)
pub proof fn law_round_sorts_threads<S, J>(state: SampleState<S, J>, now: Timestamp, act: u32)
    requires
        state.valid(),
        state.round.next == state.round.thread_acts.len(),
    ensures
        state.settled(now).task.threads.live.contains_key(act)
            <==> state.task.threads.live.contains_key(act) && (
        state.round.previously_live.contains(act) ==> state.round.now_live.contains(act)),
        state.settled(now).task.threads.live.contains_key(act)
            ==> state.settled(now).task.threads.live[act] == state.task.threads.live[act],
{
    state.lemma_settled(now);
    lemma_gone_threads(state.round.previously_live, state.round.now_live);
    state.task.threads.lemma_retire_all(state.profile, state.gone(), now);
    assert(state.gone().to_set().contains(act) <==> state.gone().contains(act));
}

/// A thread that was alive before the round and is not in the list of threads any more is not alive
/// after it, and its thread of the profile has come to its end.
pub proof fn law_missing_thread_ends<S, J>(state: SampleState<S, J>, now: Timestamp, act: u32)
    requires
        state.valid(),
        state.round.next == state.round.thread_acts.len(),
        state.round.previously_live.contains(act),
        !state.round.thread_acts.contains(act),
    ensures
        !state.settled(now).task.threads.live.contains_key(act),
        state.settled(
            now,
        ).profile.threads[state.task.threads.live[act].profile_thread as int].end_time == Some(now),
{
    if state.round.now_live.contains(act) {
        assert(state.round.had_turn(act));
        let i = choose|i: int|
            0 <= i < state.round.next && #[trigger] state.round.thread_acts[i] == act;
        assert(state.round.thread_acts.contains(act));
    }
    law_round_sorts_threads(state, now, act);
    state.lemma_settled(now);
    lemma_gone_threads(state.round.previously_live, state.round.now_live);
    let gone = state.gone();
    assert(gone.contains(act));
    let i = choose|i: int| 0 <= i < gone.len() && gone[i] == act;
    assert(state.task.threads.live.contains_key(act));
    let place = state.task.threads.live[act].profile_thread as int;
    assert(state.task.threads.live[gone[i]].profile_thread == place);
    assert(stands_for_one(state.task.threads, gone, place));
    law_retired_threads_end(state.task.threads, state.profile, gone, now);
}

/// A round that comes to its end with an error leaves the same threads alive as before: nothing is
/// known yet about those that have not had their turn.
pub proof fn law_failed_round_ends_no_thread<S, J>(
    state: SampleState<S, J>,
    sampled: SampledThread<S>,
    now: Timestamp,
    now_mono: u64,
    after: SampleState<S, J>,
)
    requires
        state.accepts(SampleEvent::ThreadSampled(sampled)),
        sampled.still_alive is Err,
        state.becomes(SampleEvent::ThreadSampled(sampled), now, now_mono, after),
    ensures
        after.task.threads.live.dom() == state.task.threads.live.dom(),
        after.task.threads.pool == state.task.threads.pool,
        after.profile == state.profile,
{
    assert(after.task.threads.live.dom() =~= state.task.threads.live.dom());
}

/// Whatever happens in a round, a task goes on as the same one: with its process and its main
/// thread of the profile, under its name. What was written down about its libraries and its samples
/// stays; more may come behind it.
pub proof fn law_task_goes_on<S, J>(
    state: SampleState<S, J>,
    event: SampleEvent<S>,
    now: Timestamp,
    now_mono: u64,
    after: SampleState<S, J>,
)
    requires
        state.accepts(event),
        state.becomes(event, now, now_mono, after),
    ensures
        after.task.pid == state.task.pid,
        after.task.executable_name == state.task.executable_name,
        after.task.threads.task == state.task.threads.task,
        after.task.threads.process == state.task.threads.process,
        after.task.main_thread == state.task.main_thread,
        after.task.jit == state.task.jit,
        after.task.threads.pool is Some <==> state.task.threads.pool is Some,
        state.task.lib_ops.is_prefix_of(after.task.lib_ops),
        state.task.samples.is_prefix_of(after.task.samples),
        after.profile.processes == state.profile.processes,
        after.profile.threads.len() >= state.profile.threads.len(),
{
    match event {
        SampleEvent::Begin { changes, thread_acts } => {
            let previously_live = choose|previously_live: Seq<u32>|
                {
                    let begun = state.begun(
                        now_mono,
                        changes,
                        thread_acts,
                        after.task.modules,
                        previously_live,
                    );
                    &&& previously_live.no_duplicates()
                    &&& #[trigger] previously_live.to_set() == state.task.threads.live.dom()
                    &&& after == if thread_acts is Ok {
                        begun.settled(now)
                    } else {
                        begun
                    }
                };
            let begun = state.begun(
                now_mono,
                changes,
                thread_acts,
                after.task.modules,
                previously_live,
            );
            if changes is Ok {
                lemma_profile_after_keeps(state.profile, (changes->Ok_0)@);
            }
            if thread_acts is Ok {
                state.lemma_begun(
                    now_mono,
                    changes,
                    thread_acts->Ok_0,
                    after.task.modules,
                    previously_live,
                );
                lemma_settled_keeps(begun, now);
            }
        },
        SampleEvent::ThreadRead { id, name } => {
            state.lemma_after_reading(id, name, now);
            lemma_settled_keeps(state.after_reading(id, name, now), now);
        },
        SampleEvent::ThreadSampled(sampled) => {
            state.lemma_after_sample(sampled);
            lemma_settled_keeps(state.after_sample(sampled), now);
        },
    }
}

proof fn lemma_settled_keeps<S, J>(state: SampleState<S, J>, now: Timestamp)
    requires
        state.valid(),
    ensures
        state.settled(now).task.threads.task == state.task.threads.task,
        state.settled(now).task.threads.process == state.task.threads.process,
        state.settled(now).task.threads.pool is Some == state.task.threads.pool is Some,
        state.settled(now).profile.processes == state.profile.processes,
        state.settled(now).profile.threads.len() == state.profile.threads.len(),
{
    state.lemma_settled(now);
    state.task.threads.lemma_retire_all(state.profile, state.gone(), now);
}

/// Everything that is written down about some changes in the loaded libraries has the time at which
/// they were taken in. There are no more entries than changes.
pub proof fn law_changes_have_their_time(
    profile: ProfileModel,
    now_mono: u64,
    changes: Seq<Modification>,
)
    ensures
        ops_for(profile, now_mono, changes).len() <= changes.len(),
        forall|i: int|
            0 <= i < ops_for(profile, now_mono, changes).len() ==> (#[trigger] ops_for(
                profile,
                now_mono,
                changes,
            )[i]).0 == now_mono,
    decreases changes.len(),
{
    if changes.len() > 0 {
        law_changes_have_their_time(profile, now_mono, changes.drop_last());
    }
}

/// How much of a round is left: two steps for every thread whose turn is still to come, and one
/// less if the thread whose turn it is is known.
pub open spec fn steps_left<S, J>(state: SampleState<S, J>) -> int {
    2 * (state.round.thread_acts.len() - state.round.next) - if state.expects_sample() {
        1int
    } else {
        0int
    }
}

/// Every event brings a round closer to its end: a thread that is read either can be sampled then
/// or has had its turn, and a thread that is sampled has had its turn.
pub proof fn law_round_makes_progress<S, J>(
    state: SampleState<S, J>,
    id: Result<(u32, bool), KernelError>,
    name: Result<Option<String>, SamplingError>,
    sampled: SampledThread<S>,
    now: Timestamp,
)
    requires
        state.valid(),
    ensures
        state.expects_reading() ==> 0 <= steps_left(state.after_reading(id, name, now))
            < steps_left(state),
        state.expects_sample() && sampled.still_alive is Ok ==> 0 <= steps_left(
            state.after_sample(sampled),
        ) < steps_left(state),
{
}

/// What the kernel says when the thread behind a port is read.
pub type Reads = spec_fn(u32) -> (
    Result<(u32, bool), KernelError>,
    Result<Option<String>, SamplingError>,
);

/// What comes of sampling the thread behind a port.
pub type Samples<S> = spec_fn(u32) -> SampledThread<S>;

/// The state when every thread has had its turn, or the first one could not be sampled, if the
/// kernel answers with `reads` and `samples`.
pub open spec fn turns_taken<S, J>(
    state: SampleState<S, J>,
    reads: Reads,
    samples: Samples<S>,
    now: Timestamp,
) -> SampleState<S, J>
    decreases steps_left(state),
{
    let act = state.current();
    if state.expects_reading() {
        turns_taken(state.after_reading(reads(act).0, reads(act).1, now), reads, samples, now)
    } else if state.expects_sample() && samples(act).still_alive is Ok {
        turns_taken(state.after_sample(samples(act)), reads, samples, now)
    } else {
        state
    }
}

/// Whether the turn of the thread behind the port `act` is still to come.
pub open spec fn turn_to_come<S, J>(state: SampleState<S, J>, act: u32) -> bool {
    exists|i: int|
        state.round.next <= i < state.round.thread_acts.len()
            && #[trigger] state.round.thread_acts[i] == act
}

/// Whether the kernel tells the ID and the name of the thread behind the port `act`.
pub open spec fn is_readable(reads: Reads, act: u32) -> bool {
    reads(act).0 is Ok && reads(act).1 is Ok
}

/// Whether every thread that is asked for can be sampled, and its samples go to a thread that is in
/// the profile by then.
pub open spec fn can_be_sampled<S, J>(
    state: SampleState<S, J>,
    reads: Reads,
    samples: Samples<S>,
    now: Timestamp,
) -> bool
    decreases steps_left(state),
{
    let act = state.current();
    if state.expects_reading() {
        can_be_sampled(state.after_reading(reads(act).0, reads(act).1, now), reads, samples, now)
    } else if state.expects_sample() {
        &&& samples(act).still_alive is Ok
        &&& thread_index(samples(act).profile_thread) < state.profile.threads.len()
        &&& can_be_sampled(state.after_sample(samples(act)), reads, samples, now)
    } else {
        true
    }
}

proof fn lemma_turns_taken<S, J>(
    state: SampleState<S, J>,
    reads: Reads,
    samples: Samples<S>,
    now: Timestamp,
    act: u32,
)
    requires
        state.valid(),
        can_be_sampled(state, reads, samples, now),
    ensures
        ({
            let end = turns_taken(state, reads, samples, now);
            &&& end.valid()
            &&& end.round.next == end.round.thread_acts.len()
            &&& end.round.previously_live == state.round.previously_live
            &&& end.task.threads.live.contains_key(act) <==> {
                ||| state.task.threads.live.contains_key(act)
                ||| turn_to_come(state, act) && is_readable(reads, act)
            }
            &&& end.round.now_live.contains(act) <==> {
                ||| state.round.now_live.contains(act)
                ||| turn_to_come(state, act) && samples(act).still_alive == Ok::<_, SamplingError>(
                    true,
                ) && (state.task.threads.live.contains_key(act) || is_readable(reads, act))
            }
        }),
    decreases steps_left(state),
{
    let current = state.current();
    if state.expects_reading() {
        let next = state.after_reading(reads(current).0, reads(current).1, now);
        state.lemma_after_reading(reads(current).0, reads(current).1, now);
        lemma_turns_taken(next, reads, samples, now, act);
        lemma_turn_to_come(state, next, act);
    } else if state.expects_sample() {
        let next = state.after_sample(samples(current));
        state.lemma_after_sample(samples(current));
        lemma_turns_taken(next, reads, samples, now, act);
        lemma_turn_to_come(state, next, act);
    }
}

proof fn lemma_turn_to_come<S, J>(state: SampleState<S, J>, next: SampleState<S, J>, act: u32)
    requires
        state.round.next < state.round.thread_acts.len(),
        next.round.thread_acts == state.round.thread_acts,
        next.round.next == state.round.next || next.round.next == state.round.next + 1,
    ensures
        next.round.next == state.round.next ==> turn_to_come(next, act) == turn_to_come(state, act),
        turn_to_come(state, act) <==> turn_to_come(next, act) || act == state.current(),
{
    if turn_to_come(state, act) {
        let i = choose|i: int|
            state.round.next <= i < state.round.thread_acts.len()
                && #[trigger] state.round.thread_acts[i] == act;
        assert(next.round.thread_acts[i] == act);
    }
    if turn_to_come(next, act) {
        let i = choose|i: int|
            next.round.next <= i < next.round.thread_acts.len()
                && #[trigger] next.round.thread_acts[i] == act;
        assert(state.round.thread_acts[i] == act);
    }
    assert(state.round.thread_acts[state.round.next as int] == state.current());
}

/// What a whole round comes to: a thread that was alive before it stays so if and only if it is
/// listed and turns out to be alive, and a thread that was not is alive from now on if and only if
/// it is listed and can be read.
pub proof fn law_whole_round<S, J>(
    state: SampleState<S, J>,
    reads: Reads,
    samples: Samples<S>,
    now: Timestamp,
    act: u32,
)
    requires
        state.valid(),
        state.round.next == 0,
        state.round.now_live == Set::<u32>::empty(),
        state.round.previously_live.to_set() == state.task.threads.live.dom(),
        can_be_sampled(state, reads, samples, now),
    ensures
        turns_taken(state, reads, samples, now).settled(now).task.threads.live.contains_key(act)
            <==> state.round.thread_acts.contains(act) && (if state.task.threads.live.contains_key(
            act,
        ) {
            samples(act).still_alive == Ok::<_, SamplingError>(true)
        } else {
            is_readable(reads, act)
        }),
{
    let end = turns_taken(state, reads, samples, now);
    lemma_turns_taken(state, reads, samples, now, act);
    law_round_sorts_threads(end, now, act);
    assert(state.round.previously_live.contains(act) <==> state.task.threads.live.contains_key(act))
        by {
        assert(state.round.previously_live.to_set().contains(act)
            <==> state.round.previously_live.contains(act));
    }
    if state.round.thread_acts.contains(act) {
        let i = choose|i: int|
            0 <= i < state.round.thread_acts.len() && state.round.thread_acts[i] == act;
        assert(turn_to_come(state, act));
    }
}

/// A thread is seen off once. One that came with a round is not seen off in that round, whatever
/// comes of sampling it; it is in the next one, if and only if it is not listed any more or does
/// not turn out to be alive. One that was seen off in a round is not seen off again in the next
/// one. A thread that is seen off is not alive any more, and its thread of the profile has come to
/// its end.
pub proof fn law_thread_is_seen_off_once<S, J>(
    first: SampleState<S, J>,
    first_now: Timestamp,
    now_mono: u64,
    changes: Result<Vec<Modification>, KernelError>,
    thread_acts: Vec<u32>,
    modules: Multiset<ModuleModel>,
    previously_live: Seq<u32>,
    reads: Reads,
    samples: Samples<S>,
    now: Timestamp,
    act: u32,
)
    requires
        first.valid(),
        first.round.next == first.round.thread_acts.len(),
        previously_live.no_duplicates(),
        previously_live.to_set() == first.settled(first_now).task.threads.live.dom(),
        can_be_sampled(
            first.settled(first_now).begun(
                now_mono,
                changes,
                Ok(thread_acts),
                modules,
                previously_live,
            ),
            reads,
            samples,
            now,
        ),
    ensures
        ({
            let begun = first.settled(first_now).begun(
                now_mono,
                changes,
                Ok(thread_acts),
                modules,
                previously_live,
            );
            let second = turns_taken(begun, reads, samples, now);
            let after = second.settled(now);
            &&& first.gone().no_duplicates()
            &&& second.gone().no_duplicates()
            &&& first.task.threads.live.contains_key(act) && !first.round.previously_live.contains(
                act,
            ) ==> {
                &&& !first.gone().contains(act)
                &&& begun.task.threads.live.contains_key(act)
                &&& second.gone().contains(act) <==> !thread_acts@.contains(act) || samples(
                    act,
                ).still_alive != Ok::<_, SamplingError>(true)
            }
            &&& first.gone().contains(act) ==> !second.gone().contains(act)
            &&& second.gone().contains(act) ==> {
                let place = second.task.threads.live[act].profile_thread as int;
                &&& !after.task.threads.live.contains_key(act)
                &&& after.profile.threads[place].end_time == Some(now)
            }
        }),
{
    let settled = first.settled(first_now);
    let begun = settled.begun(now_mono, changes, Ok(thread_acts), modules, previously_live);
    let second = turns_taken(begun, reads, samples, now);
    first.lemma_settled(first_now);
    lemma_gone_threads(first.round.previously_live, first.round.now_live);
    law_round_sorts_threads(first, first_now, act);
    settled.lemma_begun(now_mono, changes, thread_acts, modules, previously_live);
    lemma_turns_taken(begun, reads, samples, now, act);
    second.lemma_settled(now);
    lemma_gone_threads(second.round.previously_live, second.round.now_live);
    law_round_sorts_threads(second, now, act);
    assert(previously_live.to_set().contains(act) <==> previously_live.contains(act));
    if thread_acts@.contains(act) {
        let i = choose|i: int| 0 <= i < thread_acts@.len() && thread_acts@[i] == act;
        assert(begun.round.thread_acts[i] == act);
    }
    if second.gone().contains(act) {
        let gone = second.gone();
        let i = choose|i: int| 0 <= i < gone.len() && gone[i] == act;
        assert(second.task.threads.live.contains_key(gone[i]));
        let place = second.task.threads.live[act].profile_thread as int;
        assert(second.task.threads.live[gone[i]].profile_thread == place);
        assert(stands_for_one(second.task.threads, gone, place));
        law_retired_threads_end(second.task.threads, second.profile, gone, now);
    }
}

/// The errors that have been ignored after some rounds that came to the given ends.
pub open spec fn ignored_after(rounds: Seq<Result<(), SamplingError>>) -> Seq<SamplingError>
    decreases rounds.len(),
{
    if rounds.len() == 0 {
        seq![]
    } else {
        action_for(
            ignored_after(rounds.drop_last()),
            SampleProgress::Finished(rounds.last()),
        ).0
    }
}

/// How many rounds ended with an error that can be ignored.
pub open spec fn ignorable_count(rounds: Seq<Result<(), SamplingError>>) -> nat
    decreases rounds.len(),
{
    if rounds.len() == 0 {
        0
    } else {
        ignorable_count(rounds.drop_last()) + if rounds.last() matches Err(
            SamplingError::Ignorable(_, _),
        ) {
            1nat
        } else {
            0nat
        }
    }
}

proof fn lemma_ignored_after(rounds: Seq<Result<(), SamplingError>>)
    ensures
        ignored_after(rounds).len() == ignorable_count(rounds),
    decreases rounds.len(),
{
    if rounds.len() > 0 {
        lemma_ignored_after(rounds.drop_last());
    }
}

/// Over the whole life of a task, fewer than ten errors that can be ignored are got over; when a
/// round ends with the tenth or a later one, the task counts as terminated and that is reported.
/// Rounds that went well in between do not change that.
pub proof fn law_errors_add_up(rounds: Seq<Result<(), SamplingError>>)
    requires
        rounds.len() > 0,
        rounds.last() is Err,
        rounds.last()->Err_0 is Ignorable,
    ensures
        action_for(
            ignored_after(rounds.drop_last()),
            SampleProgress::Finished(rounds.last()),
        ).1 == (SampleAction::Done {
            outcome: Ok(ignorable_count(rounds) < 10),
            report: ignorable_count(rounds) >= 10,
        }),
{
    lemma_ignored_after(rounds.drop_last());
}

/// What a task leaves behind can wait in the process recycler: all of it is in the profile.
pub proof fn law_remains_can_wait<S, J>(
    task: TaskModel<S, J>,
    profile: ProfileModel,
    pool: Seq<(Seq<char>, RecyclingModel<J>)>,
)
    requires
        task.fits(profile),
        task.threads.pool is Some,
        recycler_fits(pool, profile),
    ensures
        recycler_fits(pool.push((task.executable_name, task.remains())), profile),
{
    let after = pool.push((task.executable_name, task.remains()));
    assert forall|i: int| 0 <= i < after.len() implies recycling_fits(
        #[trigger] after[i].1,
        profile,
    ) by {
        if i < pool.len() {
            assert(recycling_fits(pool[i].1, profile));
        }
    }
}

/// What is left in the process recycler when something was taken out is still in the profile.
pub proof fn law_recycler_stays_valid<J>(
    pool: Seq<(Seq<char>, RecyclingModel<J>)>,
    name: Seq<char>,
    profile: ProfileModel,
    grown: ProfileModel,
)
    requires
        recycler_fits(pool, profile),
        profile.processes.len() <= grown.processes.len(),
        profile.threads.len() <= grown.threads.len(),
    ensures
        recycler_fits(pool_without(pool, name), grown),
{
    lemma_first_named_found(pool, name);
    let after = pool_without(pool, name);
    let place = first_named(pool, name) as int;
    assert forall|i: int| 0 <= i < after.len() implies recycling_fits(
        #[trigger] after[i].1,
        grown,
    ) by {
        let data = pool[if has_named(pool, name) && i >= place { i + 1 } else { i }].1;
        assert(after[i].1 == data);
        assert(recycling_fits(data, profile));
        assert forall|k: int| 0 <= k < data.pool.len() implies #[trigger] data.pool[k].1
            < grown.threads.len() by {
            assert(data.pool[k].1 < profile.threads.len());
        }
    }
}

/// A task whose predecessor of the same name has left something behind goes on with it: with the
/// same process and the same main thread of the profile. The profile gets no new process, and no
/// new main thread.
pub proof fn law_process_is_followed<S, J>(
    task: TaskModel<S, J>,
    pool: Seq<(Seq<char>, RecyclingModel<J>)>,
    profile: ProfileModel,
    task_init: TaskInit,
    start_time: Timestamp,
    main: ThreadReading,
)
    requires
        task.threads.pool is Some,
        !has_named(pool, task.executable_name),
    ensures
        ({
            let waiting = pool.push((task.executable_name, task.remains()));
            let predecessor = recycled(Some(waiting), task.executable_name);
            let (threads, profile_after) = first_thread(
                profile,
                predecessor,
                true,
                task.executable_name,
                task_init,
                start_time,
                main,
            );
            &&& predecessor == Some(task.remains())
            &&& pool_without(waiting, task.executable_name) == pool
            &&& threads.process == task.threads.process
            &&& threads.live[main.thread_act].profile_thread == task.main_thread
            &&& threads.pool == task.threads.pool
            &&& profile_after == profile
        }),
{
    law_pool_gives_back(pool, task.executable_name, task.remains());
}

/// Whether the thread behind the port `act` could be read.
pub open spec fn was_read(readings: Seq<ThreadReading>, act: u32) -> bool {
    exists|i: int|
        0 <= i < readings.len() && (#[trigger] readings[i]).thread_act == act
            && readings[i].id is Ok && readings[i].name is Ok
}

/// A thread is alive after some were taken in if and only if it was before or could be read.
pub proof fn law_readable_threads_live(
    state: (ThreadsModel, ProfileModel),
    readings: Seq<ThreadReading>,
    start_time: Timestamp,
    act: u32,
)
    ensures
        welcome_all(state, readings, start_time).0.live.contains_key(act)
            <==> state.0.live.contains_key(act) || was_read(readings, act),
    decreases readings.len(),
{
    if readings.len() > 0 {
        let front = readings.drop_last();
        law_readable_threads_live(state, front, start_time, act);
        if was_read(front, act) {
            let i = choose|i: int|
                0 <= i < front.len() && (#[trigger] front[i]).thread_act == act && front[i].id is Ok
                    && front[i].name is Ok;
            assert(readings[i] == front[i]);
        }
        if was_read(readings, act) {
            let i = choose|i: int|
                0 <= i < readings.len() && (#[trigger] readings[i]).thread_act == act
                    && readings[i].id is Ok && readings[i].name is Ok;
            if i < front.len() {
                assert(front[i] == readings[i]);
            }
        }
        let last = readings[readings.len() - 1];
        assert(last == readings.last());
    }
}

/// A task starts with its first thread, and with every other thread that could be read.
pub proof fn law_task_starts_with_its_threads<J>(
    profile: ProfileModel,
    predecessor: Option<RecyclingModel<J>>,
    recycles: bool,
    process_name: Seq<char>,
    task_init: TaskInit,
    start_time: Timestamp,
    threads: Seq<ThreadReading>,
    act: u32,
)
    requires
        threads.len() > 0,
    ensures
        first_threads(
            profile,
            predecessor,
            recycles,
            process_name,
            task_init,
            start_time,
            threads,
        ).0.live.contains_key(act) <==> act == threads[0].thread_act || was_read(
            threads.skip(1),
            act,
        ),
{
    let first = first_thread(
        profile,
        predecessor,
        recycles,
        process_name,
        task_init,
        start_time,
        threads[0],
    );
    law_readable_threads_live(first, threads.skip(1), start_time, act);
}

/// When a task has come to its end, its process and all threads that were alive have the end time
/// in the profile. What was recorded of the task stays: its samples, its libraries, its errors, and
/// everything that the next task of its name can use.
pub proof fn law_task_ends_with_its_threads<S, J>(
    before: TaskModel<S, J>,
    profile: ProfileModel,
    order: Seq<u32>,
    end_time: Timestamp,
    after: TaskModel<S, J>,
    profile_after: ProfileModel,
    act: u32,
)
    requires
        before.fits(profile),
        order.no_duplicates(),
        order.to_set() == before.threads.live.dom(),
        task_ended(before, profile, order, end_time, after, profile_after),
        before.threads.live.contains_key(act),
    ensures
        profile_after.processes[before.threads.process as int].end_time == Some(end_time),
        profile_after.threads[before.threads.live[act].profile_thread as int].end_time == Some(
            end_time,
        ),
        !after.threads.live.contains_key(act),
        after.pid == before.pid,
        after.executable_name == before.executable_name,
        after.threads.task == before.threads.task,
        after.threads.process == before.threads.process,
        after.main_thread == before.main_thread,
        after.modules == before.modules,
        after.lib_ops == before.lib_ops,
        after.ignored_errors == before.ignored_errors,
        after.samples == before.samples,
        after.jit == before.jit,
        after.threads.pool is Some <==> before.threads.pool is Some,
{
    assert forall|i: int| 0 <= i < order.len() implies #[trigger] before.threads.live.contains_key(
        order[i],
    ) by {
        assert(order.to_set().contains(order[i]));
    }
    before.threads.lemma_retire_all(profile, order, end_time);
    law_retired_threads_end(before.threads, profile, order, end_time);
    assert(order.to_set().contains(act));
    let i = choose|i: int| 0 <= i < order.len() && order[i] == act;
    let place = before.threads.live[act].profile_thread as int;
    assert(before.threads.live[order[i]].profile_thread == place);
    assert(stands_for_one(before.threads, order, place));
}

/// To add a library and then to remove it leaves the unwinder with the modules that it had, if
/// there was none at the address of the library.
pub proof fn law_removed_library_leaves_no_module(
    before: Multiset<ModuleModel>,
    added: MappedLib,
    after: Multiset<ModuleModel>,
)
    requires
        !module_at(before, added.lib.base_avma),
        modules_after(
            before,
            seq![Modification::Added(added), Modification::Removed(added.lib)],
            after,
        ),
    ensures
        after == before,
{
    let changes = seq![Modification::Added(added), Modification::Removed(added.lib)];
    let first = changes.drop_last();
    assert(first =~= seq![Modification::Added(added)]);
    assert(first.drop_last() =~= Seq::<Modification>::empty());
    reveal_with_fuel(modules_after, 3);
    let between = choose|between: Multiset<ModuleModel>|
        modules_after(before, first, between) && #[trigger] modules_step(
            between,
            changes.last(),
            after,
        );
    let module = lib_module(added.lib, added.sections);
    assert(between == before.insert(module));
    assert(between.contains(module));
    assert(module_at(between, added.lib.base_avma));
    let removed = choose|removed: ModuleModel| #[trigger]
        between.contains(removed) && removed.avma_range.start == added.lib.base_avma && after
            == between.remove(removed);
    if removed != module {
        assert(before.contains(removed));
    }
    assert(after =~= before);
}

/// To take in some changes and then others comes to the same as to take in all of them at once: for
/// the profile, for what is written down, and for the modules that the unwinder can end up with. To
/// take in none changes nothing. All changes can be taken in if and only if both parts can.
pub proof fn law_changes_can_be_split(
    profile: ProfileModel,
    now_mono: u64,
    before: Multiset<ModuleModel>,
    first: Seq<Modification>,
    second: Seq<Modification>,
    after: Multiset<ModuleModel>,
)
    ensures
        changes_are_addable(first + second) <==> changes_are_addable(first) && changes_are_addable(
            second,
        ),
        profile_after(profile, first + second) == profile_after(
            profile_after(profile, first),
            second,
        ),
        ops_for(profile, now_mono, first + second) == ops_for(profile, now_mono, first) + ops_for(
            profile_after(profile, first),
            now_mono,
            second,
        ),
        modules_after(before, first + second, after) <==> exists|between: Multiset<ModuleModel>|
            #[trigger] modules_after(before, first, between) && modules_after(
                between,
                second,
                after,
            ),
        profile_after(profile, seq![]) == profile,
        ops_for(profile, now_mono, seq![]) == Seq::<(u64, LibOpModel)>::empty(),
        modules_after(before, seq![], after) <==> after == before,
    decreases second.len(),
{
    let all = first + second;
    if changes_are_addable(all) {
        assert forall|i: int| 0 <= i < first.len() implies (
        #[trigger] first[i] matches Modification::Added(added) ==> lib_is_addable(
            added.lib,
            added.sections,
        )) by {
            assert(all[i] == first[i]);
        }
        assert forall|i: int| 0 <= i < second.len() implies (
        #[trigger] second[i] matches Modification::Added(added) ==> lib_is_addable(
            added.lib,
            added.sections,
        )) by {
            assert(all[first.len() + i] == second[i]);
        }
    }
    if second.len() == 0 {
        assert(all =~= first);
        assert(ops_for(profile, now_mono, second) =~= seq![]);
    } else {
        let front = second.drop_last();
        let last = second.last();
        assert(all.drop_last() =~= first + front);
        assert(all.last() == last);
        law_changes_can_be_split(profile, now_mono, before, first, front, after);
        assert(ops_for(profile, now_mono, all) =~= ops_for(profile, now_mono, first) + ops_for(
            profile_after(profile, first),
            now_mono,
            second,
        ));
        if modules_after(before, all, after) {
            let late = choose|late: Multiset<ModuleModel>|
                modules_after(before, all.drop_last(), late) && #[trigger] modules_step(
                    late,
                    last,
                    after,
                );
            law_changes_can_be_split(profile, now_mono, before, first, front, late);
            let between = choose|between: Multiset<ModuleModel>| #[trigger]
                modules_after(before, first, between) && modules_after(between, front, late);
            assert(modules_after(between, second, after)) by {
                assert(modules_after(between, front, late) && modules_step(late, last, after));
            }
        }
        if exists|between: Multiset<ModuleModel>| #[trigger]
            modules_after(before, first, between) && modules_after(between, second, after) {
            let between = choose|between: Multiset<ModuleModel>| #[trigger]
                modules_after(before, first, between) && modules_after(between, second, after);
            let late = choose|late: Multiset<ModuleModel>|
                modules_after(between, front, late) && #[trigger] modules_step(late, last, after);
            law_changes_can_be_split(profile, now_mono, before, first, front, late);
            assert(modules_after(before, all.drop_last(), late) && modules_step(late, last, after));
        }
    }
}

/// Whether there is no choice which module goes whenever a library is removed: the modules that
/// start at its address are the same.
pub open spec fn removals_are_clear(
    before: Multiset<ModuleModel>,
    changes: Seq<Modification>,
) -> bool {
    forall|i: int, modules: Multiset<ModuleModel>|
        #![trigger modules_after(before, changes.take(i), modules)]
        0 <= i < changes.len() && modules_after(before, changes.take(i), modules) ==> (
        changes[i] matches Modification::Removed(lib) ==> same_modules_at(modules, lib.base_avma))
}

/// Whether the modules that start at `start` are the same.
pub open spec fn same_modules_at(modules: Multiset<ModuleModel>, start: u64) -> bool {
    forall|one: ModuleModel, other: ModuleModel|
        #![trigger modules.contains(one), modules.contains(other)]
        modules.contains(one) && modules.contains(other) && one.avma_range.start == start
            && other.avma_range.start == start ==> one == other
}

/// If there is never a choice which module goes, there is only one way in which the unwinder can
/// end up after some changes.
pub proof fn law_modules_are_determined(
    before: Multiset<ModuleModel>,
    changes: Seq<Modification>,
    one: Multiset<ModuleModel>,
    other: Multiset<ModuleModel>,
)
    requires
        removals_are_clear(before, changes),
        modules_after(before, changes, one),
        modules_after(before, changes, other),
    ensures
        one == other,
    decreases changes.len(),
{
    if changes.len() > 0 {
        let front = changes.drop_last();
        let last = changes.last();
        let before_one = choose|between: Multiset<ModuleModel>|
            modules_after(before, front, between) && #[trigger] modules_step(between, last, one);
        let before_other = choose|between: Multiset<ModuleModel>|
            modules_after(before, front, between) && #[trigger] modules_step(between, last, other);
        assert forall|i: int, modules: Multiset<ModuleModel>|
            #![trigger modules_after(before, front.take(i), modules)]
            0 <= i < front.len() && modules_after(before, front.take(i), modules) implies (
        front[i] matches Modification::Removed(lib) ==> same_modules_at(
            modules,
            lib.base_avma,
        )) by {
            assert(front.take(i) =~= changes.take(i));
            assert(modules_after(before, changes.take(i), modules));
        }
        law_modules_are_determined(before, front, before_one, before_other);
        if let Modification::Removed(lib) = last {
            assert(changes.take(changes.len() - 1) =~= front);
            assert(modules_after(before, changes.take(changes.len() - 1), before_one));
            assert(same_modules_at(before_one, lib.base_avma));
        }
    }
}

/// Two calls come to the same as one. Some changes are taken in by one call and the others by the
/// next, or all of them by a single call: the profile, what is written down and the modules of the
/// unwinder are the same in the end. The modules are so if there is never a choice which of them
/// goes; the unwinder does not say which of two different modules at one address it takes.
pub proof fn law_two_calls_come_to_one(
    profile: ProfileModel,
    now_mono: u64,
    ops: Seq<(u64, LibOpModel)>,
    modules: Multiset<ModuleModel>,
    first: Seq<Modification>,
    second: Seq<Modification>,
    modules_between: Multiset<ModuleModel>,
    modules_in_two: Multiset<ModuleModel>,
    modules_in_one: Multiset<ModuleModel>,
)
    requires
        modules_after(modules, first, modules_between),
        modules_after(modules_between, second, modules_in_two),
        modules_after(modules, first + second, modules_in_one),
    ensures
        profile_after(profile_after(profile, first), second) == profile_after(
            profile,
            first + second,
        ),
        ops + ops_for(profile, now_mono, first) + ops_for(
            profile_after(profile, first),
            now_mono,
            second,
        ) == ops + ops_for(profile, now_mono, first + second),
        removals_are_clear(modules, first + second) ==> modules_in_two == modules_in_one,
{
    law_changes_can_be_split(profile, now_mono, modules, first, second, modules_in_two);
    assert(ops + ops_for(profile, now_mono, first) + ops_for(
        profile_after(profile, first),
        now_mono,
        second,
    ) =~= ops + ops_for(profile, now_mono, first + second));
    assert(modules_after(modules, first, modules_between) && modules_after(
        modules_between,
        second,
        modules_in_two,
    ));
    if removals_are_clear(modules, first + second) {
        law_modules_are_determined(modules, first + second, modules_in_two, modules_in_one);
    }
}

/// A library that is added again is not shown twice in the profile.
pub proof fn law_library_is_shown_once(profile: ProfileModel, added: MappedLib)
    ensures
        profile_step(
            profile_step(profile, Modification::Added(added)),
            Modification::Added(added),
        ) == profile_step(profile, Modification::Added(added)),
{
    let once = profile_step(profile, Modification::Added(added));
    if once.libraries.len() > profile.libraries.len() {
        assert(once.libraries[profile.libraries.len() as int] == once.libraries.last());
    }
}

/// Where a file has a `__zdebug_frame` section, nothing else in it matters for where its
/// `debug_frame` section is stored. In particular, a `__debug_frame` section does not.
pub proof fn law_zdebug_frame_comes_first(first: Seq<u8>, second: Seq<u8>)
    requires
        object_section(first, "__zdebug_frame"@) is Some,
        object_section(first, "__zdebug_frame"@) == object_section(second, "__zdebug_frame"@),
    ensures
        debug_frame_storage(first) == debug_frame_storage(second),
{
}

/// A section that is stored as it is comes out byte for byte.
pub proof fn law_plain_section_comes_out_unchanged(
    file: Seq<u8>,
    range: CompressedFileRange,
    bytes: Seq<u8>,
    i: int,
)
    requires
        range.format == CompressionFormat::Uncompressed,
        stored_section(file, range, Some(bytes)),
        0 <= i < bytes.len(),
    ensures
        bytes.len() == range.uncompressed_size as usize,
        bytes[i] == file[(range.offset as usize) + i],
{
}

/// What a compressed `__zdebug_frame` section of `size` bytes starts with.
pub open spec fn zdebug_header(size: nat) -> Seq<u8> {
    zlib_magic() + seq![
        (size / 0x100_0000) as u8,
        (size / 0x1_0000 % 0x100) as u8,
        (size / 0x100 % 0x100) as u8,
        (size % 0x100) as u8,
    ]
}

/// Whether `stream` is `content`, compressed: the decoder makes exactly that of it when it gets a
/// vector that was made for it, however much more room there is.
pub open spec fn compresses(stream: Seq<u8>, content: Seq<u8>) -> bool {
    forall|capacity: nat|
        content.len() <= capacity ==> #[trigger] inflated(stream, content.len(), capacity) == Some(
            content,
        )
}

/// A compressed `__zdebug_frame` section is read back in full, and nothing else comes out: whatever
/// was compressed, if the header of the section tells its size.
pub proof fn law_zdebug_frame_is_read_back(
    file: Seq<u8>,
    start: u64,
    stream: Seq<u8>,
    content: Seq<u8>,
    bytes: Option<Seq<u8>>,
)
    requires
        content.len() < 0x1_0000_0000,
        compresses(stream, content),
        file.len() <= usize::MAX,
        start + 12 + stream.len() <= file.len(),
        file.subrange(start + 12, start + 12 + stream.len()) == stream,
        object_section(file, "__zdebug_frame"@) == Some(
            SectionModel {
                file_range: Some((start, (12 + stream.len()) as u64)),
                data: Some(zdebug_header(content.len()) + stream),
            },
        ),
        debug_frame(file, bytes),
    ensures
        bytes == Some(content),
        debug_frame_storage(file)->0.format == CompressionFormat::Zlib,
        content.len() <= isize::MAX ==> debug_frame_in_bounds(file),
{
    let size = content.len();
    let data = zdebug_header(size) + stream;
    assert(data.subrange(0, 8) =~= zlib_magic());
    assert(be_u32(data, 8) == size);
    let range = debug_frame_storage(file)->0;
    assert(range.offset as usize == start + 12);
    assert(range.compressed_size as usize == stream.len());
    assert(range.uncompressed_size as usize == size);
}

/// The name of the file `name` in a directory is `name`.
pub proof fn law_file_name_in_directory(directory: Seq<char>, name: Seq<char>)
    requires
        name.len() > 0,
        !name.contains('/'),
        name != seq!['.'],
        name != seq!['.', '.'],
    ensures
        path_file_name(directory + seq!['/'] + name) == Some(name),
{
    let front = directory + seq!['/'];
    lemma_component_start_behind(front, name);
    assert((front + name).skip(front.len() as int) =~= name);
}

/// The last component of a path starts behind the last slash.
pub proof fn lemma_component_start_behind(front: Seq<char>, name: Seq<char>)
    requires
        front.len() > 0,
        front.last() == '/',
        !name.contains('/'),
    ensures
        component_start(front + name) == front.len(),
    decreases name.len(),
{
    if name.len() == 0 {
        assert(front + name =~= front);
    } else {
        let rest = name.drop_last();
        assert forall|i: int| 0 <= i < rest.len() implies rest[i] != '/' by {
            assert(name.contains(name[i]));
        }
        lemma_component_start_behind(front, rest);
        assert((front + name).drop_last() =~= front + rest);
        assert(name.contains(name.last()));
        assert((front + name).last() == name.last());
    }
}

/// A slash at the end does not change the name of a file.
pub proof fn law_trailing_slash_is_ignored(path: Seq<char>)
    ensures
        path_file_name(path + seq!['/']) == path_file_name(path),
{
    let longer = path + seq!['/'];
    assert(longer.last() == '/');
    assert(component_start(longer) == longer.len());
    assert(longer.skip(longer.len() as int).len() == 0);
    assert(longer.take(longer.len() - 1) =~= path);
}

/// A task of which no library is the program itself has the name of the command.
pub proof fn law_command_name_is_fallback(changes: Seq<Modification>, command_name: Seq<char>)
    requires
        forall|i: int|
            #![trigger changes[i]]
            0 <= i < changes.len() ==> (changes[i] matches Modification::Added(added)
                ==> !added.lib.is_executable),
    ensures
        task_name(changes, command_name) == command_name,
    decreases changes.len(),
{
    if changes.len() > 0 {
        let first = changes[0];
        assert forall|i: int| 0 <= i < changes.skip(1).len() implies (
        #[trigger] changes.skip(1)[i] matches Modification::Added(added)
            ==> !added.lib.is_executable) by {
            assert(changes.skip(1)[i] == changes[i + 1]);
        }
        law_command_name_is_fallback(changes.skip(1), command_name);
    }
}

/// A library is moved as a whole: its stated start is its actual start, and two addresses are as
/// far apart in the memory of the task as its file states.
pub proof fn law_library_moves_as_a_whole(lib: DyldInfo, first: u64, second: u64)
    requires
        lib.relocates(first),
        lib.relocates(second),
    ensures
        lib.relocated(lib.svma_info.base_svma) == lib.base_avma,
        lib.relocated(first) - lib.relocated(second) == first - second,
{
}

} // verus!

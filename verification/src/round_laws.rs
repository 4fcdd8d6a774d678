//! What one event of a round of sampling does, said piece by piece.
use crate::error::{KernelError, SamplingError};
use crate::laws::law_round_sorts_threads;
use crate::library::Modification;
use crate::live_threads::{ThreadModel, ThreadsModel};
use crate::loaded_libs::{changes_are_addable, modules_after, ops_for, profile_after};
use crate::profile::{profile_view, thread_index};
use crate::sampling::{
    action_for, lemma_gone_threads, sample_state, RoundModel, SampleAction, SampleEvent,
    SampleProgress, SampleRound, SampleState, SampledThread,
};
use crate::task_profiler::{lemma_profile_after_keeps, TaskProfiler};
use fxprof_processed_profile::{Profile, Timestamp};
use vstd::prelude::*;

verus! {

/// In every round the changes in the loaded libraries are taken in, whether or not the threads
/// could be listed: they are written down behind what is there, at the time of the round, the
/// profile shows them, and the unwinder knows them. Where the changes could not be told, nothing of
/// that changes.
pub proof fn law_every_round_takes_in_the_libraries<S, J>(
    state: SampleState<S, J>,
    changes: Result<Vec<Modification>, KernelError>,
    thread_acts: Result<Vec<u32>, SamplingError>,
    now: Timestamp,
    now_mono: u64,
    after: SampleState<S, J>,
)
    requires
        state.becomes(SampleEvent::Begin { changes, thread_acts }, now, now_mono, after),
    ensures
        changes matches Ok(changes) ==> {
            &&& after.task.lib_ops == state.task.lib_ops + ops_for(
                state.profile,
                now_mono,
                changes@,
            )
            &&& after.profile.libraries == profile_after(state.profile, changes@).libraries
            &&& modules_after(state.task.modules, changes@, after.task.modules)
        },
        changes is Err ==> {
            &&& after.task.lib_ops == state.task.lib_ops
            &&& after.profile.libraries == state.profile.libraries
            &&& after.task.modules == state.task.modules
        },
{
    let previously_live = begin_order(state, changes, thread_acts, now, now_mono, after);
    let begun = state.begun(now_mono, changes, thread_acts, after.task.modules, previously_live);
    if thread_acts is Ok {
        lemma_settled_keeps_the_rest(begun, now);
    }
}

/// An order of the live threads from which a round that begins can have come to `after`.
spec fn begin_order<S, J>(
    state: SampleState<S, J>,
    changes: Result<Vec<Modification>, KernelError>,
    thread_acts: Result<Vec<u32>, SamplingError>,
    now: Timestamp,
    now_mono: u64,
    after: SampleState<S, J>,
) -> Seq<u32> {
    choose|previously_live: Seq<u32>|
        {
            let begun = state.begun(
                now_mono,
                changes,
                thread_acts,
                after.task.modules,
                previously_live,
            );
            &&& previously_live.no_duplicates()
            &&& #[trigger] previously_live.to_set() == state.task.threads.live.dom()
            &&& after == if thread_acts is Ok {
                begun.settled(now)
            } else {
                begun
            }
        }
}

proof fn lemma_settled_keeps_the_rest<S, J>(state: SampleState<S, J>, now: Timestamp)
    ensures
        state.settled(now).task.pid == state.task.pid,
        state.settled(now).task.executable_name == state.task.executable_name,
        state.settled(now).task.main_thread == state.task.main_thread,
        state.settled(now).task.modules == state.task.modules,
        state.settled(now).task.lib_ops == state.task.lib_ops,
        state.settled(now).task.ignored_errors == state.task.ignored_errors,
        state.settled(now).task.samples == state.task.samples,
        state.settled(now).task.jit == state.task.jit,
        state.settled(now).profile.libraries == state.profile.libraries,
        state.settled(now).profile.processes == state.profile.processes,
        state.settled(now).round == state.round,
{
    lemma_ended_threads_only(state.task.threads, state, state.gone(), now);
}

proof fn lemma_ended_threads_only<S, J>(
    threads: ThreadsModel,
    state: SampleState<S, J>,
    acts: Seq<u32>,
    now: Timestamp,
)
    ensures
        threads.profile_retire_all(state.profile, acts, now).libraries == state.profile.libraries,
        threads.profile_retire_all(state.profile, acts, now).processes == state.profile.processes,
    decreases acts.len(),
{
    if acts.len() > 0 {
        lemma_ended_threads_only(threads, state, acts.drop_last(), now);
    }
}

/// A round with threads begins with the first of them and goes through the list as it is. The
/// threads that were alive before it are all live threads, each once, and nothing is known yet of
/// who is alive now. No thread comes or goes by that. Where the threads could not be listed, none
/// does either, and no round begins. Where the list is empty, no thread stays alive.
pub proof fn law_round_begins_with_the_list<S, J>(
    state: SampleState<S, J>,
    changes: Result<Vec<Modification>, KernelError>,
    thread_acts: Result<Vec<u32>, SamplingError>,
    now: Timestamp,
    now_mono: u64,
    after: SampleState<S, J>,
    act: u32,
)
    requires
        state.task.fits(state.profile),
        state.becomes(SampleEvent::Begin { changes, thread_acts }, now, now_mono, after),
    ensures
        after.task.samples == state.task.samples,
        after.task.ignored_errors == state.task.ignored_errors,
        after.profile.processes == state.profile.processes,
        thread_acts matches Ok(acts) ==> {
            &&& after.round.thread_acts == acts@
            &&& after.round.next == 0
            &&& after.round.previously_live.no_duplicates()
            &&& after.round.previously_live.contains(act) <==> state.task.threads.live.contains_key(
                act,
            )
            &&& !after.round.now_live.contains(act)
            &&& acts@.len() == 0 ==> !after.task.threads.live.contains_key(act)
        },
        thread_acts is Err ==> after.round == state.round,
        (thread_acts matches Ok(acts) ==> acts@.len() > 0) ==> {
            &&& after.task.threads == state.task.threads
            &&& after.profile.threads == state.profile.threads
        },
{
    let previously_live = begin_order(state, changes, thread_acts, now, now_mono, after);
    let begun = state.begun(now_mono, changes, thread_acts, after.task.modules, previously_live);
    if changes is Ok {
        lemma_profile_after_keeps(state.profile, (changes->Ok_0)@);
    }
    assert(previously_live.to_set().contains(act) <==> previously_live.contains(act));
    if thread_acts is Ok {
        lemma_settled_keeps_the_rest(begun, now);
        state.lemma_begun(
            now_mono,
            changes,
            thread_acts->Ok_0,
            after.task.modules,
            previously_live,
        );
        if (thread_acts->Ok_0)@.len() == 0 {
            law_round_sorts_threads(begun, now, act);
        }
    }
}

/// A thread that was read is alive from then on, like any new thread, and has its turn to be
/// sampled; nothing else happens. One that could not be read has had its turn, and nothing is taken
/// in.
pub proof fn law_read_thread_is_taken_in<S, J>(
    state: SampleState<S, J>,
    id: Result<(u32, bool), KernelError>,
    name: Result<Option<String>, SamplingError>,
    now: Timestamp,
    now_mono: u64,
    after: SampleState<S, J>,
)
    requires
        state.accepts(SampleEvent::ThreadRead { id, name }),
        state.becomes(SampleEvent::ThreadRead { id, name }, now, now_mono, after),
    ensures
        id is Ok && name is Ok ==> {
            let act = state.round.thread_acts[state.round.next as int];
            let text = match name->Ok_0 {
                Some(name) => Some(name@),
                None => None,
            };
            &&& after.round == state.round
            &&& after.task.threads == state.task.threads.welcome(
                state.profile,
                act,
                (id->Ok_0).0,
                text,
            )
            &&& after.profile == state.task.threads.profile_with(
                state.profile,
                (id->Ok_0).0,
                text,
                now,
            )
        },
        id is Err || name is Err ==> {
            let turn_over = SampleState {
                round: RoundModel { next: state.round.next + 1, ..state.round },
                ..state
            };
            &&& after.round == turn_over.round
            &&& after == turn_over.settled(now)
        },
        after.task.samples == state.task.samples,
        after.task.lib_ops == state.task.lib_ops,
        after.task.modules == state.task.modules,
        after.profile.libraries == state.profile.libraries,
{
    if id is Err || name is Err {
        let turn_over = SampleState {
            round: RoundModel { next: state.round.next + 1, ..state.round },
            ..state
        };
        assert(state.next_turn(false) =~= turn_over);
        lemma_settled_keeps_the_rest(turn_over, now);
    }
}

/// The samples of a thread come behind those that are there, all of them, even if it is not known
/// whether the thread is alive. The live thread has the name and the thread of the profile that it
/// was sampled with; its port and its ID, and the other live threads, stay as they are. If it is
/// known whether the thread is alive its turn is over, and it counts as alive if and only if it is;
/// else the round does not go on.
pub proof fn law_samples_are_kept<S, J>(
    state: SampleState<S, J>,
    sampled: SampledThread<S>,
    now: Timestamp,
    now_mono: u64,
    after: SampleState<S, J>,
    other: u32,
)
    requires
        state.accepts(SampleEvent::ThreadSampled(sampled)),
        state.becomes(SampleEvent::ThreadSampled(sampled), now, now_mono, after),
    ensures
        after.task.samples == state.task.samples + sampled.samples@,
        after.task.lib_ops == state.task.lib_ops,
        after.task.modules == state.task.modules,
        after.profile.libraries == state.profile.libraries,
        after.round.thread_acts == state.round.thread_acts,
        after.round.previously_live == state.round.previously_live,
        ({
            let act = state.round.thread_acts[state.round.next as int];
            let over = sampled.still_alive is Ok && state.round.next + 1
                == state.round.thread_acts.len();
            &&& !over ==> {
                &&& after.task.threads.live.contains_key(act)
                &&& after.task.threads.live[act].profile_thread == thread_index(
                    sampled.profile_thread,
                )
                &&& after.task.threads.live[act].name is Some <==> sampled.name is Some
                &&& sampled.name matches Some(name) ==> after.task.threads.live[act].name == Some(
                    name@,
                )
                &&& after.task.threads.live[act].tid == state.task.threads.live[act].tid
                &&& after.task.threads.live[act].task == state.task.threads.live[act].task
                &&& after.task.threads.live[act].thread_act
                    == state.task.threads.live[act].thread_act
                &&& other != act ==> (after.task.threads.live.contains_key(other)
                    <==> state.task.threads.live.contains_key(other))
                    && after.task.threads.live[other] == state.task.threads.live[other]
                &&& after.task.threads.pool == state.task.threads.pool
                &&& after.profile == state.profile
            }
            &&& sampled.still_alive is Err ==> after.round == state.round
            &&& sampled.still_alive is Ok ==> after.round.next == state.round.next + 1
            &&& after.round.now_live.contains(other) <==> state.round.now_live.contains(other) || (
            other == act && sampled.still_alive == Ok::<_, SamplingError>(true))
            &&& over ==> exists|last: SampleState<S, J>|
                {
                    &&& after == #[trigger] last.settled(now)
                    &&& last.round == after.round
                    &&& last.profile == state.profile
                    &&& last.task.threads.pool == state.task.threads.pool
                    &&& last.task.threads.live == state.task.threads.live.insert(
                        act,
                        ThreadModel {
                            profile_thread: thread_index(sampled.profile_thread),
                            name: match sampled.name {
                                Some(name) => Some(name@),
                                None => None,
                            },
                            ..state.task.threads.live[act]
                        },
                    )
                }
        }),
{
    let last = state.after_sample(sampled);
    lemma_settled_keeps_the_rest(last, now);
    assert(sampled.still_alive is Ok ==> after == last.settled(now));
}

/// The threads that a round sees off at its end are those that were alive before it and did not
/// turn out to be alive, each once; they come to their end like single threads. Before its end a
/// round sees off nobody. Nothing else changes by that.
pub proof fn law_end_of_a_round<S, J>(state: SampleState<S, J>, now: Timestamp, act: u32)
    requires
        state.valid(),
    ensures
        state.round.next < state.round.thread_acts.len() ==> state.settled(now) == state,
        state.round.next == state.round.thread_acts.len() ==> {
            let after = state.settled(now);
            &&& after.task.threads == state.task.threads.retire_all(state.gone())
            &&& after.profile == state.task.threads.profile_retire_all(
                state.profile,
                state.gone(),
                now,
            )
            &&& state.gone().no_duplicates()
            &&& state.gone().contains(act) <==> state.round.previously_live.contains(act)
                && !state.round.now_live.contains(act)
            &&& after.round == state.round
            &&& after.task.samples == state.task.samples
            &&& after.task.lib_ops == state.task.lib_ops
            &&& after.task.modules == state.task.modules
            &&& after.task.ignored_errors == state.task.ignored_errors
            &&& after.task.main_thread == state.task.main_thread
            &&& after.task.jit == state.task.jit
        },
{
    lemma_gone_threads(state.round.previously_live, state.round.now_live);
    lemma_settled_keeps_the_rest(state, now);
}

/// What is asked for after an event: the thread whose turn it is then, to be sampled if it is alive
/// and to be read if it is not known. The round is over if and only if every thread has had its
/// turn or an error came in, which it ends with.
pub proof fn law_next_thread_is_asked_for<S, J>(
    state: SampleState<S, J>,
    event: SampleEvent<S>,
    now: Timestamp,
    now_mono: u64,
    after: SampleState<S, J>,
)
    requires
        state.accepts(event),
        state.becomes(event, now, now_mono, after),
    ensures
        match state.progress_after(event, now) {
            SampleProgress::ReadThread(act) => {
                &&& after.round.next < after.round.thread_acts.len()
                &&& act == after.round.thread_acts[after.round.next as int]
                &&& !after.task.threads.live.contains_key(act)
            },
            SampleProgress::SampleThread(act) => {
                &&& after.round.next < after.round.thread_acts.len()
                &&& act == after.round.thread_acts[after.round.next as int]
                &&& after.task.threads.live.contains_key(act)
            },
            SampleProgress::Finished(Ok(())) => {
                &&& event_error(event) is None
                &&& after.round.next == after.round.thread_acts.len()
            },
            SampleProgress::Finished(Err(e)) => event_error(event) == Some(e),
        },
        event_error(event) matches Some(e) ==> state.progress_after(event, now)
            == SampleProgress::Finished(Err(e)),
{
    if let SampleEvent::Begin { changes, thread_acts } = event {
        let order = begin_order(state, changes, thread_acts, now, now_mono, after);
        let begun = state.begun(now_mono, changes, thread_acts, after.task.modules, order);
        if thread_acts is Ok {
            lemma_settled_keeps_the_rest(begun, now);
        }
    }
}

/// The error that an event brings, if it brings one that ends the round.
pub open spec fn event_error<S>(event: SampleEvent<S>) -> Option<SamplingError> {
    match event {
        SampleEvent::Begin { changes: _, thread_acts: Err(e) } => Some(e),
        SampleEvent::ThreadSampled(sampled) => match sampled.still_alive {
            Err(e) => Some(e),
            Ok(_) => None,
        },
        _ => None,
    }
}

/// What a round comes to: a task whose process has terminated is not alive, an error that nobody
/// can get over is handed on, and a round that goes well or is not over is no error. Only an error
/// that can be ignored is written down, behind the others; the task counts as alive if there are
/// fewer than ten by then, and else that is reported.
pub proof fn law_what_a_round_comes_to(
    ignored_errors: Seq<SamplingError>,
    act: u32,
    place: &'static str,
    cause: KernelError,
)
    ensures
        action_for(ignored_errors, SampleProgress::ReadThread(act)) == (
            ignored_errors,
            SampleAction::ReadThread(act),
        ),
        action_for(ignored_errors, SampleProgress::SampleThread(act)) == (
            ignored_errors,
            SampleAction::SampleThread(act),
        ),
        action_for(ignored_errors, SampleProgress::Finished(Ok(()))) == (
            ignored_errors,
            SampleAction::Done { outcome: Ok(true), report: false },
        ),
        action_for(
            ignored_errors,
            SampleProgress::Finished(Err(SamplingError::ProcessTerminated(place, cause))),
        ) == (ignored_errors, SampleAction::Done { outcome: Ok(false), report: false }),
        action_for(
            ignored_errors,
            SampleProgress::Finished(Err(SamplingError::Fatal(place, cause))),
        ) == (
            ignored_errors,
            SampleAction::Done { outcome: Err(SamplingError::Fatal(place, cause)), report: false },
        ),
        action_for(
            ignored_errors,
            SampleProgress::Finished(Err(SamplingError::Ignorable(place, cause))),
        ) == (
            ignored_errors.push(SamplingError::Ignorable(place, cause)),
            SampleAction::Done {
                outcome: Ok(ignored_errors.len() < 9),
                report: ignored_errors.len() >= 9,
            },
        ),
{
}

/// Which events may come in: a round may begin whenever the task fits the profile and the libraries
/// can be added. A thread that is not known may be read when it has its turn, and a live thread may
/// be sampled when it has its turn.
pub proof fn law_which_events_may_come_in<S, J>(
    state: SampleState<S, J>,
    changes: Result<Vec<Modification>, KernelError>,
    thread_acts: Result<Vec<u32>, SamplingError>,
    id: Result<(u32, bool), KernelError>,
    name: Result<Option<String>, SamplingError>,
    sampled: SampledThread<S>,
)
    ensures
        state.accepts(SampleEvent::Begin { changes, thread_acts }) <==> state.task.fits(
            state.profile,
        ) && (changes matches Ok(changes) ==> changes_are_addable(changes@)),
        ({
            let act = state.round.thread_acts[state.round.next as int];
            let has_turn = state.round.next < state.round.thread_acts.len();
            &&& state.accepts(SampleEvent::ThreadRead { id, name }) <==> state.valid() && has_turn
                && !state.task.threads.live.contains_key(act)
            &&& state.accepts(SampleEvent::ThreadSampled(sampled)) <==> state.valid() && has_turn
                && state.task.threads.live.contains_key(act) && thread_index(
                sampled.profile_thread,
            ) < state.profile.threads.len()
        }),
{
}

/// When a task, a round and a profile belong together.
pub proof fn law_what_belongs_together<S, J>(state: SampleState<S, J>)
    ensures
        state.valid() <==> {
            &&& state.task.fits(state.profile)
            &&& state.round.next <= state.round.thread_acts.len()
            &&& state.round.previously_live.no_duplicates()
            &&& forall|act: u32|
                state.round.previously_live.contains(act)
                    ==> #[trigger] state.task.threads.live.contains_key(act)
            &&& forall|act: u32| #[trigger]
                state.round.now_live.contains(act) ==> state.task.threads.live.contains_key(act)
                    && exists|i: int|
                    0 <= i < state.round.next && #[trigger] state.round.thread_acts[i] == act
        },
{
    if state.valid() {
        assert forall|act: u32| #[trigger] state.round.now_live.contains(act) implies exists|i: int|
            0 <= i < state.round.next && #[trigger] state.round.thread_acts[i] == act by {
            assert(state.round.had_turn(act));
        }
    }
}

/// The state of a task, a round and a profile is what each of them stands for.
pub proof fn law_state_means_its_parts<S, J>(
    task: TaskProfiler<S, J>,
    round: SampleRound,
    profile: Profile,
)
    ensures
        sample_state(task, round, profile).task == task@,
        sample_state(task, round, profile).round == round@,
        sample_state(task, round, profile).profile == profile_view(profile),
{
}

} // verus!

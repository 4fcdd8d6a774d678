//! One round of sampling: every thread of the task is looked at once.
//!
//! What has to be asked of the kernel, and when, comes out of [`TaskProfiler::sample`] as an
//! action; what the kernel says goes back in as an event.
use crate::error::{KernelError, SamplingError};
use crate::library::{text_view, Modification};
use crate::live_threads::{ThreadModel, ThreadsModel};
use crate::loaded_libs::{changes_are_addable, modules_after, ops_for, profile_after};
use crate::profile::{profile_view, thread_index, ProfileModel};
use crate::task_profiler::{lemma_profile_after_keeps, TaskModel, TaskProfiler};
use crate::unwinder::ModuleModel;
use fxprof_processed_profile::{Profile, ThreadHandle, Timestamp};
use std::collections::HashSet;
use vstd::multiset::Multiset;
use vstd::prelude::*;

verus! {

/// After so many errors that could be ignored a task counts as terminated.
pub const MAX_IGNORED_ERRORS: usize = 10;

/// What came of sampling one thread.
pub struct SampledThread<S> {
    /// The name of the thread, as far as it is known by now.
    pub name: Option<String>,
    /// The thread of the profile that stands for the thread by now.
    pub profile_thread: ThreadHandle,
    /// The samples that were taken.
    pub samples: Vec<S>,
    /// Whether the thread is still alive, or why that is not known.
    pub still_alive: Result<bool, SamplingError>,
}

/// What the kernel said.
pub enum SampleEvent<S> {
    /// A round begins, with the changes in the loaded libraries since the last one and the ports
    /// of all threads.
    Begin {
        changes: Result<Vec<Modification>, KernelError>,
        thread_acts: Result<Vec<u32>, SamplingError>,
    },
    /// The thread ID and the name of the thread that was asked for.
    ThreadRead {
        id: Result<(u32, bool), KernelError>,
        name: Result<Option<String>, SamplingError>,
    },
    /// The thread that was asked for has been sampled.
    ThreadSampled(SampledThread<S>),
}

/// What the kernel has to be asked next, or how the round has ended.
#[derive(Clone, Copy, Debug)]
pub enum SampleAction {
    /// Read the ID and the name of the thread behind this port.
    ReadThread(u32),
    /// See whether the live thread behind this port has got a name by now, and sample it.
    SampleThread(u32),
    /// The round has ended. `outcome` says whether the task is still alive. If `report` is set, it
    /// counts as terminated because of the errors that were ignored, which should be reported.
    Done { outcome: Result<bool, SamplingError>, report: bool },
}

/// What has to be asked next, or what the round has come to.
#[derive(Clone, Copy, Debug)]
pub enum SampleProgress {
    ReadThread(u32),
    SampleThread(u32),
    Finished(Result<(), SamplingError>),
}

/// How far a round of sampling has come.
pub struct SampleRound {
    thread_acts: Vec<u32>,
    next: usize,
    previously_live: Vec<u32>,
    now_live: HashSet<u32>,
}

/// The mathematical content of a [`SampleRound`].
#[verifier::ext_equal]
pub struct RoundModel {
    /// The ports of all threads that the round goes through.
    pub thread_acts: Seq<u32>,
    /// The place of the thread whose turn it is.
    pub next: nat,
    /// The ports of the threads that were alive before the round, each once.
    pub previously_live: Seq<u32>,
    /// The ports of the threads that turned out to be alive in this round.
    pub now_live: Set<u32>,
}

impl View for SampleRound {
    type V = RoundModel;

    closed spec fn view(&self) -> RoundModel {
        RoundModel {
            thread_acts: self.thread_acts@,
            next: self.next as nat,
            previously_live: self.previously_live@,
            now_live: self.now_live@,
        }
    }
}

impl SampleRound {
    /// A round that has not begun.
    pub fn new() -> (round: Self)
        ensures
            round@ == (RoundModel {
                thread_acts: seq![],
                next: 0,
                previously_live: seq![],
                now_live: Set::empty(),
            }),
    {
        broadcast use vstd::std_specs::hash::group_hash_axioms;

        let round = SampleRound {
            thread_acts: Vec::new(),
            next: 0,
            previously_live: Vec::new(),
            now_live: HashSet::new(),
        };
        assert(round@.thread_acts =~= seq![]);
        assert(round@.previously_live =~= seq![]);
        round
    }
}

/// Those of `previously_live` that are not in `now_live`, in the same order.
pub open spec fn gone_threads(previously_live: Seq<u32>, now_live: Set<u32>) -> Seq<u32>
    decreases previously_live.len(),
{
    if previously_live.len() == 0 {
        seq![]
    } else {
        let front = gone_threads(previously_live.drop_last(), now_live);
        if now_live.contains(previously_live.last()) {
            front
        } else {
            front.push(previously_live.last())
        }
    }
}

/// A thread is gone if and only if it was alive before and did not turn out to be alive now.
pub proof fn lemma_gone_threads(previously_live: Seq<u32>, now_live: Set<u32>)
    requires
        previously_live.no_duplicates(),
    ensures
        gone_threads(previously_live, now_live).no_duplicates(),
        forall|act: u32| #[trigger]
            gone_threads(previously_live, now_live).contains(act) <==> previously_live.contains(act)
                && !now_live.contains(act),
    decreases previously_live.len(),
{
    let gone = gone_threads(previously_live, now_live);
    if previously_live.len() > 0 {
        let rest = previously_live.drop_last();
        let last = previously_live.last();
        let front = gone_threads(rest, now_live);
        lemma_gone_threads(rest, now_live);
        assert forall|act: u32| previously_live.contains(act) <==> rest.contains(act) || act
            == last by {
            if previously_live.contains(act) {
                let i = choose|i: int| 0 <= i < previously_live.len() && previously_live[i] == act;
                if i < rest.len() {
                    assert(rest[i] == act);
                }
            }
            if rest.contains(act) {
                let i = choose|i: int| 0 <= i < rest.len() && rest[i] == act;
                assert(previously_live[i] == act);
            }
            assert(previously_live[previously_live.len() - 1] == last);
        }
        assert(!rest.contains(last));
        if !now_live.contains(last) {
            assert(!front.contains(last));
            assert forall|act: u32| gone.contains(act) <==> front.contains(act) || act == last by {
                if gone.contains(act) {
                    let i = choose|i: int| 0 <= i < gone.len() && gone[i] == act;
                    if i < front.len() {
                        assert(front[i] == act);
                    }
                }
                if front.contains(act) {
                    let i = choose|i: int| 0 <= i < front.len() && front[i] == act;
                    assert(gone[i] == act);
                }
                assert(gone[front.len() as int] == last);
            }
        }
    }
}

/// A task, the round that it is in, and the profile.
#[verifier::ext_equal]
#[verifier::reject_recursive_types(S)]
#[verifier::reject_recursive_types(J)]
pub struct SampleState<S, J> {
    pub task: TaskModel<S, J>,
    pub round: RoundModel,
    pub profile: ProfileModel,
}

impl<S, J> SampleState<S, J> {
    /// Whether the three belong together: the task fits the profile, every thread that was alive
    /// before the round is still among the live threads, and only threads that have had their turn
    /// have turned out to be alive.
    pub open spec fn valid(self) -> bool {
        &&& self.task.fits(self.profile)
        &&& self.round.next <= self.round.thread_acts.len()
        &&& self.round.previously_live.no_duplicates()
        &&& forall|act: u32|
            self.round.previously_live.contains(act)
                ==> #[trigger] self.task.threads.live.contains_key(act)
        &&& forall|act: u32| #[trigger]
            self.round.now_live.contains(act) ==> self.round.had_turn(act)
        &&& forall|act: u32| #[trigger]
            self.round.now_live.contains(act) ==> self.task.threads.live.contains_key(act)
    }

    /// The port of the thread whose turn it is.
    pub open spec fn current(self) -> u32 {
        self.round.thread_acts[self.round.next as int]
    }

    /// Whether it is the turn of a thread that is not known yet.
    pub open spec fn expects_reading(self) -> bool {
        self.round.next < self.round.thread_acts.len() && !self.task.threads.live.contains_key(
            self.current(),
        )
    }

    /// Whether it is the turn of a live thread.
    pub open spec fn expects_sample(self) -> bool {
        self.round.next < self.round.thread_acts.len() && self.task.threads.live.contains_key(
            self.current(),
        )
    }

    /// Goes on to the next turn. `alive` says whether the thread whose turn it was is alive.
    pub open spec fn next_turn(self, alive: bool) -> SampleState<S, J> {
        SampleState {
            round: RoundModel {
                next: self.round.next + 1,
                now_live: if alive {
                    self.round.now_live.insert(self.current())
                } else {
                    self.round.now_live
                },
                ..self.round
            },
            ..self
        }
    }

    /// What has to be done now: the next thread is read if it is not known yet, and sampled if it
    /// is. When every thread has had its turn, the round is over.
    pub open spec fn progress(self) -> SampleProgress {
        if self.round.next < self.round.thread_acts.len() {
            if self.task.threads.live.contains_key(self.current()) {
                SampleProgress::SampleThread(self.current())
            } else {
                SampleProgress::ReadThread(self.current())
            }
        } else {
            SampleProgress::Finished(Ok(()))
        }
    }

    /// The ports of the threads that are gone by the end of the round.
    pub open spec fn gone(self) -> Seq<u32> {
        gone_threads(self.round.previously_live, self.round.now_live)
    }

    /// What is left when every thread has had its turn: threads that were alive before the round
    /// and did not turn out to be alive have come to their end.
    pub open spec fn settled(self, now: Timestamp) -> SampleState<S, J> {
        if self.round.next < self.round.thread_acts.len() {
            self
        } else {
            SampleState {
                task: TaskModel {
                    threads: self.task.threads.retire_all(self.gone()),
                    ..self.task
                },
                profile: self.task.threads.profile_retire_all(self.profile, self.gone(), now),
                ..self
            }
        }
    }

    /// What becomes of the state when the thread whose turn it is has been read.
    pub open spec fn after_reading(
        self,
        id: Result<(u32, bool), KernelError>,
        name: Result<Option<String>, SamplingError>,
        now: Timestamp,
    ) -> SampleState<S, J> {
        match (id, name) {
            (Ok((tid, _)), Ok(name)) => SampleState {
                task: TaskModel {
                    threads: self.task.threads.welcome(
                        self.profile,
                        self.current(),
                        tid,
                        text_view(name),
                    ),
                    ..self.task
                },
                profile: self.task.threads.profile_with(self.profile, tid, text_view(name), now),
                ..self
            },
            _ => self.next_turn(false),
        }
    }

    /// The state with what sampling has brought to light about the thread whose turn it is.
    pub open spec fn refreshed(self, sampled: SampledThread<S>) -> SampleState<S, J> {
        let live = self.task.threads.live;
        SampleState {
            task: TaskModel {
                threads: ThreadsModel {
                    live: live.insert(
                        self.current(),
                        ThreadModel {
                            name: text_view(sampled.name),
                            profile_thread: thread_index(sampled.profile_thread),
                            ..live[self.current()]
                        },
                    ),
                    ..self.task.threads
                },
                samples: self.task.samples + sampled.samples@,
                ..self.task
            },
            ..self
        }
    }

    /// What becomes of the state when the thread whose turn it is has been sampled. Where it is
    /// not known whether it is alive, the round does not go on.
    pub open spec fn after_sample(self, sampled: SampledThread<S>) -> SampleState<S, J> {
        match sampled.still_alive {
            Ok(alive) => self.refreshed(sampled).next_turn(alive),
            Err(_) => self.refreshed(sampled),
        }
    }

    /// The state when the round has begun: the changes in the libraries have been taken in, and
    /// every thread waits for its turn. `modules` and `previously_live` are one of the things that
    /// they can be.
    pub open spec fn begun(
        self,
        now_mono: u64,
        changes: Result<Vec<Modification>, KernelError>,
        thread_acts: Result<Vec<u32>, SamplingError>,
        modules: Multiset<ModuleModel>,
        previously_live: Seq<u32>,
    ) -> SampleState<S, J> {
        SampleState {
            task: match changes {
                Ok(changes) => TaskModel {
                    modules,
                    lib_ops: self.task.lib_ops + ops_for(self.profile, now_mono, changes@),
                    ..self.task
                },
                Err(_) => self.task,
            },
            profile: match changes {
                Ok(changes) => profile_after(self.profile, changes@),
                Err(_) => self.profile,
            },
            round: match thread_acts {
                Ok(thread_acts) => RoundModel {
                    thread_acts: thread_acts@,
                    next: 0,
                    previously_live,
                    now_live: Set::empty(),
                },
                Err(_) => self.round,
            },
        }
    }
}

impl RoundModel {
    /// Whether the thread behind the port `act` has had its turn.
    pub open spec fn had_turn(self, act: u32) -> bool {
        exists|i: int| 0 <= i < self.next && #[trigger] self.thread_acts[i] == act
    }
}

impl<S, J> SampleState<S, J> {
    /// Whether an event may come in: it answers what was asked for, and what it holds fits the
    /// profile. A round may begin at any time.
    pub open spec fn accepts(self, event: SampleEvent<S>) -> bool {
        match event {
            SampleEvent::Begin { changes, .. } => {
                &&& self.task.fits(self.profile)
                &&& changes matches Ok(changes) ==> changes_are_addable(changes@)
            },
            SampleEvent::ThreadRead { .. } => self.valid() && self.expects_reading(),
            SampleEvent::ThreadSampled(sampled) => {
                &&& self.valid() && self.expects_sample()
                &&& thread_index(sampled.profile_thread) < self.profile.threads.len()
            },
        }
    }

    /// What has to be done after an event.
    pub open spec fn progress_after(self, event: SampleEvent<S>, now: Timestamp) -> SampleProgress {
        match event {
            SampleEvent::Begin { thread_acts, .. } => match thread_acts {
                Ok(thread_acts) => if thread_acts@.len() == 0 {
                    SampleProgress::Finished(Ok(()))
                } else if self.task.threads.live.contains_key(thread_acts@[0]) {
                    SampleProgress::SampleThread(thread_acts@[0])
                } else {
                    SampleProgress::ReadThread(thread_acts@[0])
                },
                Err(e) => SampleProgress::Finished(Err(e)),
            },
            SampleEvent::ThreadRead { id, name } => self.after_reading(id, name, now).progress(),
            SampleEvent::ThreadSampled(sampled) => match sampled.still_alive {
                Ok(_) => self.after_sample(sampled).progress(),
                Err(e) => SampleProgress::Finished(Err(e)),
            },
        }
    }

    /// Whether `after` can be the state after an event. It is open in which order the threads that
    /// were alive before the round are looked at when it ends.
    pub open spec fn becomes(
        self,
        event: SampleEvent<S>,
        now: Timestamp,
        now_mono: u64,
        after: SampleState<S, J>,
    ) -> bool {
        match event {
            SampleEvent::Begin { changes, thread_acts } => {
                &&& changes matches Ok(changes) ==> modules_after(
                    self.task.modules,
                    changes@,
                    after.task.modules,
                )
                &&& exists|previously_live: Seq<u32>|
                    {
                        let begun = self.begun(
                            now_mono,
                            changes,
                            thread_acts,
                            after.task.modules,
                            previously_live,
                        );
                        &&& previously_live.no_duplicates()
                        &&& #[trigger] previously_live.to_set() == self.task.threads.live.dom()
                        &&& after == if thread_acts is Ok {
                            begun.settled(now)
                        } else {
                            begun
                        }
                    }
            },
            SampleEvent::ThreadRead { id, name } => after == self.after_reading(
                id,
                name,
                now,
            ).settled(now),
            SampleEvent::ThreadSampled(sampled) => after == if sampled.still_alive is Ok {
                self.after_sample(sampled).settled(now)
            } else {
                self.after_sample(sampled)
            },
        }
    }

    /// Settling a round keeps the task and the profile together.
    pub proof fn lemma_settled(self, now: Timestamp)
        requires
            self.valid(),
        ensures
            self.gone().no_duplicates(),
            forall|i: int|
                0 <= i < self.gone().len() ==> #[trigger] self.task.threads.live.contains_key(
                    self.gone()[i],
                ),
            self.settled(now).task.fits(self.settled(now).profile),
    {
        lemma_gone_threads(self.round.previously_live, self.round.now_live);
        let gone = self.gone();
        assert forall|i: int| 0 <= i < gone.len() implies
            #[trigger] self.task.threads.live.contains_key(gone[i]) by {
            assert(gone.contains(gone[i]));
        }
        self.task.threads.lemma_retire_all(self.profile, gone, now);
    }

    /// A turn that is over leaves the three together.
    pub proof fn lemma_next_turn(self, alive: bool)
        requires
            self.valid(),
            self.round.next < self.round.thread_acts.len(),
            alive ==> self.task.threads.live.contains_key(self.current()),
        ensures
            self.next_turn(alive).valid(),
    {
        let after = self.next_turn(alive);
        assert forall|act: u32| #[trigger] after.round.now_live.contains(act) implies
            after.round.had_turn(act) by {
            if self.round.now_live.contains(act) {
                assert(self.round.had_turn(act));
                let i = choose|i: int|
                    0 <= i < self.round.next && #[trigger] self.round.thread_acts[i] == act;
                assert(after.round.thread_acts[i] == act);
            } else {
                assert(after.round.thread_acts[self.round.next as int] == act);
            }
        }
    }

    /// A thread that has been read leaves the three together.
    pub proof fn lemma_after_reading(
        self,
        id: Result<(u32, bool), KernelError>,
        name: Result<Option<String>, SamplingError>,
        now: Timestamp,
    )
        requires
            self.valid(),
            self.expects_reading(),
        ensures
            self.after_reading(id, name, now).valid(),
    {
        if id is Ok && name is Ok {
            self.task.threads.lemma_welcome(
                self.profile,
                self.current(),
                (id->Ok_0).0,
                text_view(name->Ok_0),
                now,
            );
        } else {
            self.lemma_next_turn(false);
        }
    }

    /// A thread that has been sampled leaves the three together.
    pub proof fn lemma_after_sample(self, sampled: SampledThread<S>)
        requires
            self.valid(),
            self.expects_sample(),
            thread_index(sampled.profile_thread) < self.profile.threads.len(),
        ensures
            self.after_sample(sampled).valid(),
    {
        let state = self.refreshed(sampled);
        assert(state.valid());
        if sampled.still_alive is Ok {
            state.lemma_next_turn(sampled.still_alive->Ok_0);
        }
    }

    /// When a round begins, the three belong together.
    pub proof fn lemma_begun(
        self,
        now_mono: u64,
        changes: Result<Vec<Modification>, KernelError>,
        thread_acts: Vec<u32>,
        modules: Multiset<ModuleModel>,
        previously_live: Seq<u32>,
    )
        requires
            self.task.fits(self.profile),
            previously_live.no_duplicates(),
            previously_live.to_set() == self.task.threads.live.dom(),
        ensures
            self.begun(now_mono, changes, Ok(thread_acts), modules, previously_live).valid(),
    {
        if changes is Ok {
            lemma_profile_after_keeps(self.profile, (changes->Ok_0)@);
        }
        let after = self.begun(now_mono, changes, Ok(thread_acts), modules, previously_live);
        assert forall|act: u32| previously_live.contains(act) implies
            #[trigger] after.task.threads.live.contains_key(act) by {
            assert(previously_live.to_set().contains(act));
        }
    }
}

/// How the errors that were ignored grow with what a round has come to, and what is to be done. An
/// error that can be ignored is ignored, but not for ever: when there have been too many, the task
/// counts as terminated.
pub open spec fn action_for(
    ignored_errors: Seq<SamplingError>,
    progress: SampleProgress,
) -> (Seq<SamplingError>, SampleAction) {
    match progress {
        SampleProgress::ReadThread(act) => (ignored_errors, SampleAction::ReadThread(act)),
        SampleProgress::SampleThread(act) => (ignored_errors, SampleAction::SampleThread(act)),
        SampleProgress::Finished(Ok(())) => (
            ignored_errors,
            SampleAction::Done { outcome: Ok(true), report: false },
        ),
        SampleProgress::Finished(Err(e)) => match e {
            SamplingError::ProcessTerminated(_, _) => (
                ignored_errors,
                SampleAction::Done { outcome: Ok(false), report: false },
            ),
            SamplingError::Ignorable(_, _) => {
                let too_many = ignored_errors.len() + 1 >= MAX_IGNORED_ERRORS;
                (
                    ignored_errors.push(e),
                    SampleAction::Done { outcome: Ok(!too_many), report: too_many },
                )
            },
            SamplingError::Fatal(_, _) => (
                ignored_errors,
                SampleAction::Done { outcome: Err(e), report: false },
            ),
        },
    }
}

/// The state of `task`, `round` and `profile`.
pub open spec fn sample_state<S, J>(
    task: TaskProfiler<S, J>,
    round: SampleRound,
    profile: Profile,
) -> SampleState<S, J> {
    SampleState { task: task@, round: round@, profile: profile_view(profile) }
}

impl SampleRound {
    fn gone(&self) -> (gone: Vec<u32>)
        ensures
            gone@ == gone_threads(self@.previously_live, self@.now_live),
    {
        broadcast use vstd::std_specs::hash::group_hash_axioms;

        let mut gone: Vec<u32> = Vec::new();
        let mut i: usize = 0;
        let ghost all = self.previously_live@;
        assert(all.take(0) =~= seq![]);
        while i < self.previously_live.len()
            invariant
                i <= all.len(),
                all == self.previously_live@,
                gone@ == gone_threads(all.take(i as int), self.now_live@),
            decreases all.len() - i,
        {
            assert(all.take(i + 1).drop_last() =~= all.take(i as int));
            let thread_act: u32 = self.previously_live[i];
            if !self.now_live.contains(&thread_act) {
                gone.push(thread_act);
            }
            i += 1;
        }
        assert(all.take(all.len() as int) =~= all);
        gone
    }

    fn finish_turn(&mut self, alive: bool)
        requires
            old(self)@.next < old(self)@.thread_acts.len(),
        ensures
            final(self)@ == (RoundModel {
                next: old(self)@.next + 1,
                now_live: if alive {
                    old(self)@.now_live.insert(old(self)@.thread_acts[old(self)@.next as int])
                } else {
                    old(self)@.now_live
                },
                ..old(self)@
            }),
    {
        broadcast use vstd::std_specs::hash::group_hash_axioms;

        let thread_act: u32 = self.thread_acts[self.next];
        if alive {
            self.now_live.insert(thread_act);
        }
        assert(self.next < self.thread_acts.len());
        self.next += 1;
    }
}

impl<S, J> TaskProfiler<S, J> {
    fn settle(&mut self, round: &SampleRound, now: Timestamp, profile: &mut Profile) -> (progress:
        SampleProgress)
        requires
            sample_state(*old(self), *round, *old(profile)).valid(),
        ensures
            progress == sample_state(*old(self), *round, *old(profile)).progress(),
            sample_state(*final(self), *round, *final(profile)) == sample_state(
                *old(self),
                *round,
                *old(profile),
            ).settled(now),
            final(self)@.fits(profile_view(*final(profile))),
            final(self).jitdump_path_receiver == old(self).jitdump_path_receiver,
    {
        proof {
            sample_state(*self, *round, *profile).lemma_settled(now);
        }
        if round.next < round.thread_acts.len() {
            let thread_act: u32 = round.thread_acts[round.next];
            if self.threads.contains(thread_act) {
                SampleProgress::SampleThread(thread_act)
            } else {
                SampleProgress::ReadThread(thread_act)
            }
        } else {
            let gone = round.gone();
            self.threads.retire_all(&gone, now, profile);
            SampleProgress::Finished(Ok(()))
        }
    }

    fn begin_round(
        &mut self,
        now: Timestamp,
        now_mono: u64,
        changes: Result<Vec<Modification>, KernelError>,
        thread_acts: Result<Vec<u32>, SamplingError>,
        round: &mut SampleRound,
        profile: &mut Profile,
    ) -> (progress: SampleProgress)
        requires
            sample_state(*old(self), *old(round), *old(profile)).accepts(
                (SampleEvent::Begin { changes, thread_acts }),
            ),
        ensures
            progress == sample_state(*old(self), *old(round), *old(profile)).progress_after(
                (SampleEvent::Begin { changes, thread_acts }),
                now,
            ),
            sample_state(*old(self), *old(round), *old(profile)).becomes(
                (SampleEvent::Begin { changes, thread_acts }),
                now,
                now_mono,
                sample_state(*final(self), *final(round), *final(profile)),
            ),
            final(self)@.fits(profile_view(*final(profile))),
            !(progress is Finished) ==> sample_state(
                *final(self),
                *final(round),
                *final(profile),
            ).valid(),
            final(self).jitdump_path_receiver == old(self).jitdump_path_receiver,
    {
        let ghost before = sample_state(*self, *round, *profile);
        // First, check for any newly-loaded libraries.
        if let Ok(changes) = changes {
            self.libs.process_lib_modifications(now_mono, changes, profile);
            proof {
                lemma_profile_after_keeps(before.profile, changes@);
            }
        }
        let ghost modules = self@.modules;
        let previously_live = self.threads.thread_acts();
        match thread_acts {
            Ok(acts) => {
                *round = SampleRound {
                    thread_acts: acts,
                    next: 0,
                    previously_live,
                    now_live: HashSet::new(),
                };
                let ghost begun = before.begun(
                    now_mono,
                    changes,
                    thread_acts,
                    modules,
                    previously_live@,
                );
                proof {
                    before.lemma_begun(now_mono, changes, acts, modules, previously_live@);
                    assert(sample_state(*self, *round, *profile) =~= begun);
                }
                let progress = self.settle(round, now, profile);
                assert(previously_live@.to_set() == before.task.threads.live.dom());
                progress
            },
            Err(e) => {
                proof {
                    assert(sample_state(*self, *round, *profile) =~= before.begun(
                        now_mono,
                        changes,
                        thread_acts,
                        modules,
                        previously_live@,
                    ));
                    assert(previously_live@.to_set() == before.task.threads.live.dom());
                }
                SampleProgress::Finished(Err(e))
            },
        }
    }

    /// Takes in an event of a round, and says what has to be done next or what the round has come
    /// to.
    fn sample_impl(
        &mut self,
        now: Timestamp,
        now_mono: u64,
        event: SampleEvent<S>,
        round: &mut SampleRound,
        profile: &mut Profile,
    ) -> (progress: SampleProgress)
        requires
            sample_state(*old(self), *old(round), *old(profile)).accepts(event),
        ensures
            progress == sample_state(*old(self), *old(round), *old(profile)).progress_after(
                event,
                now,
            ),
            sample_state(*old(self), *old(round), *old(profile)).becomes(
                event,
                now,
                now_mono,
                sample_state(*final(self), *final(round), *final(profile)),
            ),
            final(self)@.fits(profile_view(*final(profile))),
            !(progress is Finished) ==> sample_state(
                *final(self),
                *final(round),
                *final(profile),
            ).valid(),
            final(self).jitdump_path_receiver == old(self).jitdump_path_receiver,
    {
        let ghost before = sample_state(*self, *round, *profile);
        match event {
            SampleEvent::Begin { changes, thread_acts } => self.begin_round(
                now,
                now_mono,
                changes,
                thread_acts,
                round,
                profile,
            ),
            SampleEvent::ThreadRead { id, name } => {
                let thread_act: u32 = round.thread_acts[round.next];
                if let (Ok((tid, _is_libdispatch_thread)), Ok(name)) = (id, name) {
                    self.threads.welcome(thread_act, tid, name, now, profile);
                } else {
                    round.finish_turn(false);
                }
                proof {
                    before.lemma_after_reading(id, name, now);
                    assert(sample_state(*self, *round, *profile) =~= before.after_reading(
                        id,
                        name,
                        now,
                    ));
                }
                self.settle(round, now, profile)
            },
            SampleEvent::ThreadSampled(sampled) => {
                let thread_act: u32 = round.thread_acts[round.next];
                let SampledThread { name, profile_thread, mut samples, still_alive } = sampled;
                self.threads.refresh(thread_act, name, profile_thread);
                self.unresolved_samples.append(&mut samples);
                proof {
                    before.lemma_after_sample(sampled);
                }
                match still_alive {
                    Ok(still_alive) => {
                        round.finish_turn(still_alive);
                        assert(sample_state(*self, *round, *profile) =~= before.after_sample(
                            sampled,
                        ));
                        self.settle(round, now, profile)
                    },
                    Err(e) => {
                        assert(sample_state(*self, *round, *profile) =~= before.after_sample(
                            sampled,
                        ));
                        SampleProgress::Finished(Err(e))
                    },
                }
            },
        }
    }

    /// Takes in an event of a round of sampling, and says what has to be done next or how the round
    /// has ended. A task is not given up because of single errors that can be ignored.
    pub fn sample(
        &mut self,
        now: Timestamp,
        now_mono: u64,
        event: SampleEvent<S>,
        round: &mut SampleRound,
        profile: &mut Profile,
    ) -> (action: SampleAction)
        requires
            sample_state(*old(self), *old(round), *old(profile)).accepts(event),
        ensures
            (final(self)@.ignored_errors, action) == action_for(
                old(self)@.ignored_errors,
                sample_state(*old(self), *old(round), *old(profile)).progress_after(event, now),
            ),
            sample_state(*old(self), *old(round), *old(profile)).becomes(
                event,
                now,
                now_mono,
                (SampleState {
                    task: TaskModel {
                        ignored_errors: old(self)@.ignored_errors,
                        ..final(self)@
                    },
                    round: final(round)@,
                    profile: profile_view(*final(profile)),
                }),
            ),
            final(self)@.fits(profile_view(*final(profile))),
            !(action is Done) ==> sample_state(
                *final(self),
                *final(round),
                *final(profile),
            ).valid(),
            final(self).jitdump_path_receiver == old(self).jitdump_path_receiver,
    {
        let ghost before = sample_state(*self, *round, *profile);
        let progress = self.sample_impl(now, now_mono, event, round, profile);
        let ghost between = sample_state(*self, *round, *profile);
        let action = match progress {
            SampleProgress::ReadThread(thread_act) => SampleAction::ReadThread(thread_act),
            SampleProgress::SampleThread(thread_act) => SampleAction::SampleThread(thread_act),
            SampleProgress::Finished(Ok(())) => SampleAction::Done {
                outcome: Ok(true),
                report: false,
            },
            SampleProgress::Finished(Err(err)) => match err {
                SamplingError::ProcessTerminated(_, _) => SampleAction::Done {
                    outcome: Ok(false),
                    report: false,
                },
                SamplingError::Ignorable(_, _) => {
                    self.ignored_errors.push(err);
                    if self.ignored_errors.len() >= MAX_IGNORED_ERRORS {
                        SampleAction::Done { outcome: Ok(false), report: true }
                    } else {
                        // Pretend that sampling worked and that the task is still alive.
                        SampleAction::Done { outcome: Ok(true), report: false }
                    }
                },
                SamplingError::Fatal(_, _) => SampleAction::Done {
                    outcome: Err(err),
                    report: false,
                },
            },
        };
        assert(between =~= (SampleState {
            task: TaskModel { ignored_errors: old(self)@.ignored_errors, ..self@ },
            round: round@,
            profile: profile_view(*profile),
        }));
        action
    }
}

} // verus!

//! The threads that are alive in a task, and the threads of the profile that stand for them.
use crate::library::text_view;
use crate::profile::{
    process_index, profile_threads, profile_view, thread_index, ProfileModel, ThreadRecord,
};
use crate::recycling::{first_named, has_named, ThreadRecycler};
use fxprof_processed_profile::{ProcessHandle, Profile, ThreadHandle, Timestamp};
use std::collections::HashMap;
use vstd::prelude::*;
use vstd::std_specs::iter::IteratorSpec;

verus! {

/// A thread of the task.
pub struct ThreadProfiler {
    pub task: u32,
    pub tid: u32,
    /// The thread of the profile that gets the samples of this one.
    pub profile_thread: ThreadHandle,
    pub thread_act: u32,
    pub name: Option<String>,
}

/// The mathematical content of a [`ThreadProfiler`].
pub struct ThreadModel {
    pub task: u32,
    pub tid: u32,
    pub profile_thread: nat,
    pub thread_act: u32,
    pub name: Option<Seq<char>>,
}

impl View for ThreadProfiler {
    type V = ThreadModel;

    open spec fn view(&self) -> ThreadModel {
        ThreadModel {
            task: self.task,
            tid: self.tid,
            profile_thread: thread_index(self.profile_thread),
            thread_act: self.thread_act,
            name: text_view(self.name),
        }
    }
}

impl ThreadProfiler {
    /// Follows the thread behind the port `thread_act`.
    pub fn new(
        task: u32,
        tid: u32,
        profile_thread: ThreadHandle,
        thread_act: u32,
        name: Option<String>,
    ) -> (thread: Self)
        ensures
            thread@ == (ThreadModel {
                task,
                tid,
                profile_thread: thread_index(profile_thread),
                thread_act,
                name: text_view(name),
            }),
    {
        ThreadProfiler { task, tid, profile_thread, thread_act, name }
    }

    /// Writes down that the thread has come to its end.
    pub fn notify_dead(&mut self, end_time: Timestamp, profile: &mut Profile)
        requires
            thread_index(old(self).profile_thread) < profile_threads(*old(profile)).len(),
        ensures
            *final(self) == *old(self),
            profile_view(*final(profile)) == profile_view(*old(profile)).end_thread(
                old(self)@.profile_thread,
                end_time,
            ),
    {
        profile.set_thread_end_time(self.profile_thread, end_time);
    }

    /// The name of the thread and the thread of the profile that stood for it.
    pub fn finish(self) -> (rest: (Option<String>, ThreadHandle))
        ensures
            rest == (self.name, self.profile_thread),
    {
        (self.name, self.profile_thread)
    }
}

/// The threads that are alive in a task.
pub struct LiveThreads {
    pub task: u32,
    /// The process of the profile that the threads belong to.
    pub process: ProcessHandle,
    /// The threads, by their ports.
    pub threads: HashMap<u32, ThreadProfiler>,
    /// Threads of the profile to use again, where that is wanted.
    pub recycler: Option<ThreadRecycler>,
}

/// The mathematical content of a [`LiveThreads`].
#[verifier::ext_equal]
pub struct ThreadsModel {
    pub task: u32,
    pub process: nat,
    pub live: Map<u32, ThreadModel>,
    pub pool: Option<Seq<(Seq<char>, nat)>>,
}

/// The threads that wait in a recycler, if there is one.
pub open spec fn pool_view(recycler: Option<ThreadRecycler>) -> Option<Seq<(Seq<char>, nat)>> {
    match recycler {
        Some(recycler) => Some(recycler@),
        None => None,
    }
}

/// Whether all threads that wait are threads of a profile with `threads` threads.
pub open spec fn pool_fits(pool: Seq<(Seq<char>, nat)>, threads: nat) -> bool {
    forall|i: int| 0 <= i < pool.len() ==> #[trigger] pool[i].1 < threads
}

impl View for LiveThreads {
    type V = ThreadsModel;

    open spec fn view(&self) -> ThreadsModel {
        ThreadsModel {
            task: self.task,
            process: process_index(self.process),
            live: self.threads@.map_values(|thread: ThreadProfiler| thread@),
            pool: pool_view(self.recycler),
        }
    }
}

impl ThreadsModel {
    /// Whether the process, all live threads and all threads that wait are in the profile.
    pub open spec fn fits(self, profile: ProfileModel) -> bool {
        &&& self.process < profile.processes.len()
        &&& forall|act: u32| #[trigger]
            self.live.contains_key(act) ==> self.live[act].profile_thread < profile.threads.len()
        &&& self.pool matches Some(pool) ==> pool_fits(pool, profile.threads.len())
    }

    /// Whether a new thread called `name` takes over a thread of the profile that waits.
    pub open spec fn reuses(self, name: Option<Seq<char>>) -> bool {
        match (name, self.pool) {
            (Some(name), Some(pool)) => has_named(pool, name),
            _ => false,
        }
    }

    /// The thread of the profile that a new thread gets: one that waited under its name, or a
    /// new one at the end.
    pub open spec fn profile_thread_for(
        self,
        profile: ProfileModel,
        name: Option<Seq<char>>,
    ) -> nat {
        if self.reuses(name) {
            self.pool->0[first_named(self.pool->0, name->0) as int].1
        } else {
            profile.threads.len()
        }
    }

    /// The threads that wait once a new thread called `name` has got its thread of the profile.
    pub open spec fn pool_without(self, name: Option<Seq<char>>) -> Option<
        Seq<(Seq<char>, nat)>,
    > {
        if self.reuses(name) {
            Some(self.pool->0.remove(first_named(self.pool->0, name->0) as int))
        } else {
            self.pool
        }
    }

    /// The profile once a new thread has got its thread of the profile.
    pub open spec fn profile_with(
        self,
        profile: ProfileModel,
        tid: u32,
        name: Option<Seq<char>>,
        start_time: Timestamp,
    ) -> ProfileModel {
        if self.reuses(name) {
            profile
        } else {
            profile.add_thread(
                ThreadRecord {
                    process: self.process,
                    tid,
                    start_time,
                    end_time: None,
                    is_main: false,
                    name,
                },
            )
        }
    }

    /// The live threads with a new one behind the port `thread_act`; `profile` is the profile
    /// before it came.
    pub open spec fn welcome(
        self,
        profile: ProfileModel,
        thread_act: u32,
        tid: u32,
        name: Option<Seq<char>>,
    ) -> ThreadsModel {
        ThreadsModel {
            live: self.live.insert(
                thread_act,
                ThreadModel {
                    task: self.task,
                    tid,
                    profile_thread: self.profile_thread_for(profile, name),
                    thread_act,
                    name,
                },
            ),
            pool: self.pool_without(name),
            ..self
        }
    }

    /// The live threads without the one behind the port `thread_act`. If it has a name, its
    /// thread of the profile waits under that name from now on.
    pub open spec fn retire(self, thread_act: u32) -> ThreadsModel {
        let thread = self.live[thread_act];
        ThreadsModel {
            live: self.live.remove(thread_act),
            pool: match (thread.name, self.pool) {
                (Some(name), Some(pool)) => Some(pool.push((name, thread.profile_thread))),
                _ => self.pool,
            },
            ..self
        }
    }

    /// The live threads without those behind the ports `thread_acts`, which go in this order.
    pub open spec fn retire_all(self, thread_acts: Seq<u32>) -> ThreadsModel
        decreases thread_acts.len(),
    {
        if thread_acts.len() == 0 {
            self
        } else {
            self.retire_all(thread_acts.drop_last()).retire(thread_acts.last())
        }
    }

    /// The profile once the threads behind the ports `thread_acts` have come to their end.
    pub open spec fn profile_retire_all(
        self,
        profile: ProfileModel,
        thread_acts: Seq<u32>,
        end_time: Timestamp,
    ) -> ProfileModel
        decreases thread_acts.len(),
    {
        if thread_acts.len() == 0 {
            profile
        } else {
            self.profile_retire_all(profile, thread_acts.drop_last(), end_time).end_thread(
                self.live[thread_acts.last()].profile_thread,
                end_time,
            )
        }
    }

    /// A new thread that is taken in is in the profile, and so is everything that was.
    pub proof fn lemma_welcome(
        self,
        profile: ProfileModel,
        thread_act: u32,
        tid: u32,
        name: Option<Seq<char>>,
        start_time: Timestamp,
    )
        requires
            self.fits(profile),
        ensures
            self.welcome(profile, thread_act, tid, name).fits(
                self.profile_with(profile, tid, name, start_time),
            ),
    {
        let after = self.welcome(profile, thread_act, tid, name);
        if self.reuses(name) {
            let pool = self.pool->0;
            let place = first_named(pool, name->0) as int;
            assert(pool[place].1 < profile.threads.len());
            assert forall|i: int| 0 <= i < pool.len() - 1 implies #[trigger] pool.remove(place)[i].1
                < profile.threads.len() by {
                assert(pool[if i < place { i } else { i + 1 }].1 < profile.threads.len());
            }
        }
        assert forall|act: u32| #[trigger] after.live.contains_key(act) implies
            after.live[act].profile_thread < self.profile_with(
            profile,
            tid,
            name,
            start_time,
        ).threads.len() by {
            if act != thread_act {
                assert(self.live.contains_key(act));
            }
        }
    }

    /// What is left once some live threads have come to their end.
    pub proof fn lemma_retire_all(
        self,
        profile: ProfileModel,
        thread_acts: Seq<u32>,
        end_time: Timestamp,
    )
        requires
            self.fits(profile),
            thread_acts.no_duplicates(),
            forall|i: int| 0 <= i < thread_acts.len() ==> #[trigger] self.live.contains_key(
                thread_acts[i],
            ),
        ensures
            self.retire_all(thread_acts).live == self.live.remove_keys(thread_acts.to_set()),
            self.retire_all(thread_acts).fits(
                self.profile_retire_all(profile, thread_acts, end_time),
            ),
            self.retire_all(thread_acts).task == self.task,
            self.retire_all(thread_acts).process == self.process,
            self.retire_all(thread_acts).pool is Some == self.pool is Some,
            self.profile_retire_all(profile, thread_acts, end_time).processes == profile.processes,
            self.profile_retire_all(profile, thread_acts, end_time).threads.len()
                == profile.threads.len(),
            self.profile_retire_all(profile, thread_acts, end_time).libraries == profile.libraries,
        decreases thread_acts.len(),
    {
        if thread_acts.len() == 0 {
            assert(self.live.remove_keys(thread_acts.to_set()) =~= self.live);
        } else {
            let front = thread_acts.drop_last();
            let last = thread_acts.last();
            assert forall|i: int| 0 <= i < front.len() implies #[trigger] self.live.contains_key(
                front[i],
            ) by {
                assert(self.live.contains_key(thread_acts[i]));
            }
            self.lemma_retire_all(profile, front, end_time);
            assert(thread_acts.to_set() =~= front.to_set().insert(last)) by {
                assert forall|act: u32| thread_acts.to_set().contains(act)
                    == front.to_set().insert(last).contains(act) by {
                    if thread_acts.contains(act) {
                        let i = choose|i: int| 0 <= i < thread_acts.len() && thread_acts[i] == act;
                        if i < front.len() {
                            assert(front[i] == act);
                        }
                    }
                    if front.contains(act) {
                        let i = choose|i: int| 0 <= i < front.len() && front[i] == act;
                        assert(thread_acts[i] == act);
                    }
                    assert(thread_acts[thread_acts.len() - 1] == last);
                }
            }
            assert(self.live.contains_key(thread_acts[thread_acts.len() - 1]));
            assert(!front.contains(last));
            assert(self.retire_all(thread_acts).live =~= self.live.remove_keys(
                thread_acts.to_set(),
            ));
        }
    }
}

impl LiveThreads {
    /// No thread is alive.
    pub fn new(task: u32, process: ProcessHandle, recycler: Option<ThreadRecycler>) -> (threads:
        Self)
        ensures
            threads@ == (ThreadsModel {
                task,
                process: process_index(process),
                live: Map::empty(),
                pool: pool_view(recycler),
            }),
    {
        broadcast use vstd::std_specs::hash::group_hash_axioms;

        let threads = LiveThreads { task, process, threads: HashMap::new(), recycler };
        assert(threads@.live =~= Map::<u32, ThreadModel>::empty());
        threads
    }

    /// Whether the thread behind the port `thread_act` is alive.
    pub fn contains(&self, thread_act: u32) -> (live: bool)
        ensures
            live == self@.live.contains_key(thread_act),
    {
        broadcast use vstd::std_specs::hash::group_hash_axioms;

        self.threads.contains_key(&thread_act)
    }

    /// The ports of all live threads, in some order.
    pub fn thread_acts(&self) -> (thread_acts: Vec<u32>)
        ensures
            thread_acts@.no_duplicates(),
            thread_acts@.to_set() == self@.live.dom(),
    {
        broadcast use vstd::std_specs::hash::group_hash_axioms;

        let mut thread_acts: Vec<u32> = Vec::new();
        let keys = self.threads.keys();
        let ghost ports = keys.remaining().unref();
        for thread_act in iter: keys
            invariant
                iter.seq().unref() == ports,
                iter.seq().len() == ports.len(),
                thread_acts@ == ports.take(iter.index() as int),
        {
            thread_acts.push(*thread_act);
        }
        assert(ports.take(ports.len() as int) =~= ports);
        assert(self@.live.dom() =~= self.threads@.dom());
        thread_acts
    }

    /// Takes over `thread` as the live thread behind the port `thread_act`.
    pub fn insert(&mut self, thread_act: u32, thread: ThreadProfiler)
        ensures
            final(self)@ == (ThreadsModel {
                live: old(self)@.live.insert(thread_act, thread@),
                ..old(self)@
            }),
    {
        broadcast use vstd::std_specs::hash::group_hash_axioms;

        self.threads.insert(thread_act, thread);
        assert(self@.live =~= old(self)@.live.insert(thread_act, thread@));
    }

    /// Writes down what the live thread behind the port `thread_act` is called by now, and which
    /// thread of the profile stands for it.
    pub fn refresh(&mut self, thread_act: u32, name: Option<String>, profile_thread: ThreadHandle)
        requires
            old(self)@.live.contains_key(thread_act),
        ensures
            final(self)@ == (ThreadsModel {
                live: old(self)@.live.insert(
                    thread_act,
                    (ThreadModel {
                        name: text_view(name),
                        profile_thread: thread_index(profile_thread),
                        ..old(self)@.live[thread_act]
                    }),
                ),
                ..old(self)@
            }),
    {
        broadcast use vstd::std_specs::hash::group_hash_axioms;

        let thread = self.threads.remove(&thread_act).unwrap();
        self.insert(thread_act, ThreadProfiler { name, profile_thread, ..thread });
        assert(self@.live =~= old(self)@.live.insert(thread_act, self@.live[thread_act]));
    }

    fn profile_thread(
        &mut self,
        tid: u32,
        name: &Option<String>,
        start_time: Timestamp,
        profile: &mut Profile,
    ) -> (profile_thread: ThreadHandle)
        requires
            old(self)@.fits(profile_view(*old(profile))),
        ensures
            thread_index(profile_thread) == old(self)@.profile_thread_for(
                profile_view(*old(profile)),
                text_view(*name),
            ),
            profile_view(*final(profile)) == old(self)@.profile_with(
                profile_view(*old(profile)),
                tid,
                text_view(*name),
                start_time,
            ),
            final(self)@ == (ThreadsModel {
                pool: old(self)@.pool_without(text_view(*name)),
                ..old(self)@
            }),
    {
        if let (Some(name), Some(recycler)) = (name, &mut self.recycler) {
            if let Some(profile_thread) = recycler.recycle_by_name(name.as_str()) {
                return profile_thread;
            }
        }
        let profile_thread = profile.add_thread(self.process, tid, start_time, false);
        if let Some(name) = name {
            profile.set_thread_name(profile_thread, name.as_str());
        }
        proof {
            let record = ThreadRecord {
                process: self@.process,
                tid,
                start_time,
                end_time: None,
                is_main: false,
                name: text_view(*name),
            };
            assert(profile_threads(*profile) =~= profile_threads(*old(profile)).push(record));
        }
        profile_thread
    }

    /// Takes in a new thread. Where its name is known and a thread of the profile waits under
    /// that name, it goes on with that one; else the profile gets a new thread.
    pub fn welcome(
        &mut self,
        thread_act: u32,
        tid: u32,
        name: Option<String>,
        start_time: Timestamp,
        profile: &mut Profile,
    )
        requires
            old(self)@.fits(profile_view(*old(profile))),
        ensures
            final(self)@ == old(self)@.welcome(
                profile_view(*old(profile)),
                thread_act,
                tid,
                text_view(name),
            ),
            profile_view(*final(profile)) == old(self)@.profile_with(
                profile_view(*old(profile)),
                tid,
                text_view(name),
                start_time,
            ),
            final(self)@.fits(profile_view(*final(profile))),
    {
        let profile_thread = self.profile_thread(tid, &name, start_time, profile);
        let thread = ThreadProfiler::new(self.task, tid, profile_thread, thread_act, name);
        self.insert(thread_act, thread);
        proof {
            old(self)@.lemma_welcome(
                profile_view(*old(profile)),
                thread_act,
                tid,
                text_view(name),
                start_time,
            );
        }
    }

    /// Lets the live thread behind the port `thread_act` come to its end.
    pub fn retire(&mut self, thread_act: u32, end_time: Timestamp, profile: &mut Profile)
        requires
            old(self)@.live.contains_key(thread_act),
            old(self)@.live[thread_act].profile_thread < profile_view(*old(profile)).threads.len(),
        ensures
            final(self)@ == old(self)@.retire(thread_act),
            profile_view(*final(profile)) == profile_view(*old(profile)).end_thread(
                old(self)@.live[thread_act].profile_thread,
                end_time,
            ),
    {
        broadcast use vstd::std_specs::hash::group_hash_axioms;

        let mut thread = self.threads.remove(&thread_act).unwrap();
        thread.notify_dead(end_time, profile);
        let (thread_name, thread_handle) = thread.finish();
        if let (Some(thread_name), Some(recycler)) = (thread_name, &mut self.recycler) {
            recycler.add_to_pool(thread_name.as_str(), thread_handle);
        }
        assert(self@.live =~= old(self)@.live.remove(thread_act));
    }

    /// Lets the live threads behind the ports `thread_acts` come to their end, in this order.
    pub fn retire_all(&mut self, thread_acts: &Vec<u32>, end_time: Timestamp, profile: &mut Profile)
        requires
            old(self)@.fits(profile_view(*old(profile))),
            thread_acts@.no_duplicates(),
            forall|i: int|
                0 <= i < thread_acts@.len() ==> #[trigger] old(self)@.live.contains_key(
                    thread_acts@[i],
                ),
        ensures
            final(self)@ == old(self)@.retire_all(thread_acts@),
            profile_view(*final(profile)) == old(self)@.profile_retire_all(
                profile_view(*old(profile)),
                thread_acts@,
                end_time,
            ),
            final(self)@.fits(profile_view(*final(profile))),
    {
        let ghost threads = self@;
        let ghost before = profile_view(*profile);
        let ghost all = thread_acts@;
        assert(all.take(0) =~= Seq::<u32>::empty());
        let mut i: usize = 0;
        while i < thread_acts.len()
            invariant
                i <= thread_acts@.len(),
                all == thread_acts@,
                threads.fits(before),
                all.no_duplicates(),
                forall|j: int| 0 <= j < all.len() ==> #[trigger] threads.live.contains_key(all[j]),
                self@ == threads.retire_all(all.take(i as int)),
                profile_view(*profile) == threads.profile_retire_all(
                    before,
                    all.take(i as int),
                    end_time,
                ),
            decreases thread_acts@.len() - i,
        {
            let ghost front = all.take(i as int);
            let ghost next = all.take(i + 1);
            proof {
                assert(next.drop_last() =~= front);
                assert(next.last() == all[i as int]);
                assert forall|j: int| 0 <= j < front.len() implies
                    #[trigger] threads.live.contains_key(front[j]) by {
                    assert(threads.live.contains_key(all[j]));
                }
                threads.lemma_retire_all(before, front, end_time);
                assert(!front.contains(all[i as int]));
                assert(threads.live.contains_key(all[i as int]));
            }
            self.retire(thread_acts[i], end_time, profile);
            i += 1;
        }
        proof {
            assert(all.take(all.len() as int) =~= all);
            threads.lemma_retire_all(before, all, end_time);
        }
    }
}

} // verus!

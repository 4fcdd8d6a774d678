//! Pools of threads and processes that have come to their end. A new thread or process of
//! the same name goes on where the old one in the profile left off.
use crate::profile::{process_index, thread_index};
use fxprof_processed_profile::{ProcessHandle, ThreadHandle};
use vstd::prelude::*;

verus! {

/// The place of the first entry that is called `name`; behind the end where there is none.
pub open spec fn first_named<T>(pool: Seq<(Seq<char>, T)>, name: Seq<char>) -> nat
    decreases pool.len(),
{
    if pool.len() == 0 || pool[0].0 == name {
        0
    } else {
        1 + first_named(pool.skip(1), name)
    }
}

/// Whether an entry is called `name`.
pub open spec fn has_named<T>(pool: Seq<(Seq<char>, T)>, name: Seq<char>) -> bool {
    first_named(pool, name) < pool.len()
}

/// The place of the first entry that is called `name` is the only one with nothing of that
/// name before it and an entry of that name, or the end, at it.
pub proof fn lemma_first_named<T>(pool: Seq<(Seq<char>, T)>, name: Seq<char>, place: nat)
    requires
        place <= pool.len(),
        forall|i: int| 0 <= i < place ==> #[trigger] pool[i].0 != name,
        place < pool.len() ==> pool[place as int].0 == name,
    ensures
        first_named(pool, name) == place,
    decreases pool.len(),
{
    if place > 0 {
        let rest = pool.skip(1);
        assert forall|i: int| 0 <= i < place - 1 implies #[trigger] rest[i].0 != name by {
            assert(rest[i] == pool[i + 1]);
        }
        assert(pool[0].0 != name);
        lemma_first_named(rest, name, (place - 1) as nat);
    }
}

/// What the place of the first entry that is called `name` promises.
pub proof fn lemma_first_named_found<T>(pool: Seq<(Seq<char>, T)>, name: Seq<char>)
    ensures
        first_named(pool, name) <= pool.len(),
        has_named(pool, name) ==> pool[first_named(pool, name) as int].0 == name,
        forall|i: int| 0 <= i < first_named(pool, name) ==> #[trigger] pool[i].0 != name,
    decreases pool.len(),
{
    if pool.len() > 0 && pool[0].0 != name {
        let rest = pool.skip(1);
        lemma_first_named_found(rest, name);
        assert forall|i: int| 0 <= i < first_named(pool, name) implies #[trigger] pool[i].0
            != name by {
            if i > 0 {
                assert(rest[i - 1] == pool[i]);
            }
        }
    }
}

/// The place of the first entry that is called `name` does not depend on the values.
proof fn lemma_first_named_same<T, U>(
    pool: Seq<(Seq<char>, T)>,
    other: Seq<(Seq<char>, U)>,
    name: Seq<char>,
)
    requires
        other.len() == pool.len(),
        forall|i: int| 0 <= i < pool.len() ==> #[trigger] other[i].0 == pool[i].0,
    ensures
        first_named(other, name) == first_named(pool, name),
{
    lemma_first_named_found(pool, name);
    lemma_first_named(other, name, first_named(pool, name));
}

/// Values that wait under a name to be used again.
pub struct NamePool<T> {
    entries: Vec<(String, T)>,
}

impl<T> View for NamePool<T> {
    type V = Seq<(Seq<char>, T)>;

    closed spec fn view(&self) -> Seq<(Seq<char>, T)> {
        self.entries@.map_values(|entry: (String, T)| (entry.0@, entry.1))
    }
}

impl<T> NamePool<T> {
    /// A pool in which nothing waits.
    pub fn new() -> (pool: Self)
        ensures
            pool@ == Seq::<(Seq<char>, T)>::empty(),
    {
        let pool = NamePool { entries: Vec::new() };
        assert(pool@ =~= Seq::<(Seq<char>, T)>::empty());
        pool
    }

    /// Lets `value` wait under `name`, behind everything that waits already.
    pub fn put(&mut self, name: &str, value: T)
        ensures
            final(self)@ == old(self)@.push((name@, value)),
    {
        self.entries.push((name.to_owned(), value));
        assert(self@ =~= old(self)@.push((name@, value)));
    }

    /// Takes out what has waited the longest under `name`.
    pub fn take(&mut self, name: &str) -> (value: Option<T>)
        ensures
            match value {
                Some(value) => {
                    let place = first_named(old(self)@, name@) as int;
                    &&& has_named(old(self)@, name@)
                    &&& value == old(self)@[place].1
                    &&& final(self)@ == old(self)@.remove(place)
                },
                None => !has_named(old(self)@, name@) && final(self)@ == old(self)@,
            },
    {
        let wanted = name.to_owned();
        let mut i: usize = 0;
        while i < self.entries.len()
            invariant
                *self == *old(self),
                wanted@ == name@,
                i <= self.entries@.len(),
                forall|j: int| 0 <= j < i ==> #[trigger] self@[j].0 != name@,
            decreases self.entries@.len() - i,
        {
            if self.entries[i].0 == wanted {
                assert(self@[i as int].0 == name@);
                proof {
                    lemma_first_named(self@, name@, i as nat);
                }
                let (_, value) = self.entries.remove(i);
                assert(self@ =~= old(self)@.remove(i as int));
                return Some(value);
            }
            i += 1;
        }
        proof {
            lemma_first_named(self@, name@, i as nat);
        }
        None
    }
}

/// Threads of the profile that wait to be used again, by name.
pub struct ThreadRecycler {
    pool: NamePool<ThreadHandle>,
}

impl View for ThreadRecycler {
    type V = Seq<(Seq<char>, nat)>;

    closed spec fn view(&self) -> Seq<(Seq<char>, nat)> {
        self.pool@.map_values(|entry: (Seq<char>, ThreadHandle)| (entry.0, thread_index(entry.1)))
    }
}

impl ThreadRecycler {
    /// No thread waits.
    pub fn new() -> (recycler: Self)
        ensures
            recycler@ == Seq::<(Seq<char>, nat)>::empty(),
    {
        let recycler = ThreadRecycler { pool: NamePool::new() };
        assert(recycler@ =~= Seq::<(Seq<char>, nat)>::empty());
        recycler
    }

    /// Lets a thread wait under `name`.
    pub fn add_to_pool(&mut self, name: &str, thread: ThreadHandle)
        ensures
            final(self)@ == old(self)@.push((name@, thread_index(thread))),
    {
        self.pool.put(name, thread);
        assert(self@ =~= old(self)@.push((name@, thread_index(thread))));
    }

    /// Takes out the thread that has waited the longest under `name`.
    pub fn recycle_by_name(&mut self, name: &str) -> (thread: Option<ThreadHandle>)
        ensures
            match thread {
                Some(thread) => {
                    let place = first_named(old(self)@, name@) as int;
                    &&& has_named(old(self)@, name@)
                    &&& thread_index(thread) == old(self)@[place].1
                    &&& final(self)@ == old(self)@.remove(place)
                },
                None => !has_named(old(self)@, name@) && final(self)@ == old(self)@,
            },
    {
        proof {
            lemma_first_named_found(self.pool@, name@);
            lemma_first_named_same(self.pool@, self@, name@);
        }
        let thread = self.pool.take(name);
        proof {
            if thread is Some {
                let place = first_named(old(self)@, name@) as int;
                assert(self@ =~= old(self)@.remove(place));
            }
        }
        thread
    }
}

/// What is left of a process that has come to its end, for the next process of its name.
/// `J` is what is known about the functions that were compiled at run time.
pub struct ProcessRecyclingData<J> {
    pub process_handle: ProcessHandle,
    pub main_thread_handle: ThreadHandle,
    pub thread_recycler: ThreadRecycler,
    pub jit_function_recycler: J,
}

/// The mathematical content of a [`ProcessRecyclingData`].
pub struct RecyclingModel<J> {
    pub process: nat,
    pub main_thread: nat,
    pub pool: Seq<(Seq<char>, nat)>,
    pub jit: J,
}

impl<J> View for ProcessRecyclingData<J> {
    type V = RecyclingModel<J>;

    open spec fn view(&self) -> RecyclingModel<J> {
        RecyclingModel {
            process: process_index(self.process_handle),
            main_thread: thread_index(self.main_thread_handle),
            pool: self.thread_recycler@,
            jit: self.jit_function_recycler,
        }
    }
}

/// Processes that have come to their end, by name.
pub struct ProcessRecycler<J> {
    pool: NamePool<ProcessRecyclingData<J>>,
}

impl<J> View for ProcessRecycler<J> {
    type V = Seq<(Seq<char>, RecyclingModel<J>)>;

    closed spec fn view(&self) -> Seq<(Seq<char>, RecyclingModel<J>)> {
        self.pool@.map_values(
            |entry: (Seq<char>, ProcessRecyclingData<J>)| (entry.0, entry.1@),
        )
    }
}

impl<J> ProcessRecycler<J> {
    /// No process waits.
    pub fn new() -> (recycler: Self)
        ensures
            recycler@ == Seq::<(Seq<char>, RecyclingModel<J>)>::empty(),
    {
        let recycler = ProcessRecycler { pool: NamePool::new() };
        assert(recycler@ =~= Seq::<(Seq<char>, RecyclingModel<J>)>::empty());
        recycler
    }

    /// Lets what is left of a process wait under `name`.
    pub fn add_to_pool(&mut self, name: &str, data: ProcessRecyclingData<J>)
        ensures
            final(self)@ == old(self)@.push((name@, data@)),
    {
        self.pool.put(name, data);
        assert(self@ =~= old(self)@.push((name@, data@)));
    }

    /// Takes out what is left of the process that has waited the longest under `name`.
    pub fn recycle_by_name(&mut self, name: &str) -> (data: Option<ProcessRecyclingData<J>>)
        ensures
            match data {
                Some(data) => {
                    let place = first_named(old(self)@, name@) as int;
                    &&& has_named(old(self)@, name@)
                    &&& data@ == old(self)@[place].1
                    &&& final(self)@ == old(self)@.remove(place)
                },
                None => !has_named(old(self)@, name@) && final(self)@ == old(self)@,
            },
    {
        proof {
            lemma_first_named_found(self.pool@, name@);
            lemma_first_named_same(self.pool@, self@, name@);
        }
        let data = self.pool.take(name);
        proof {
            if data is Some {
                let place = first_named(old(self)@, name@) as int;
                assert(self@ =~= old(self)@.remove(place));
            }
        }
        data
    }
}

} // verus!

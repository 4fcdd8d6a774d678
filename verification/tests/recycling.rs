use fxprof_processed_profile::{
    Profile, ReferenceTimestamp, SamplingInterval, ThreadHandle, Timestamp,
};
use task_profiler::recycling::{NamePool, ProcessRecycler, ProcessRecyclingData, ThreadRecycler};

fn profile() -> Profile {
    Profile::new(
        "test",
        ReferenceTimestamp::from_millis_since_unix_epoch(0.0),
        SamplingInterval::from_millis(1),
    )
}

fn threads(count: u32) -> (fxprof_processed_profile::ProcessHandle, Vec<ThreadHandle>) {
    let mut profile = profile();
    let start = Timestamp::from_nanos_since_reference(0);
    let process = profile.add_process("app", 1, start);
    let mut threads = Vec::new();
    for tid in 0..count {
        threads.push(profile.add_thread(process, tid, start, tid == 0));
    }
    (process, threads)
}

#[test]
fn a_pool_gives_back_what_came_first() {
    let mut pool: NamePool<u32> = NamePool::new();
    assert_eq!(pool.take("a"), None);
    pool.put("a", 1);
    pool.put("b", 2);
    pool.put("a", 3);
    assert_eq!(pool.take("b"), Some(2));
    assert_eq!(pool.take("b"), None);
    assert_eq!(pool.take("a"), Some(1));
    pool.put("a", 4);
    assert_eq!(pool.take("a"), Some(3));
    assert_eq!(pool.take("a"), Some(4));
    assert_eq!(pool.take("a"), None);
}

#[test]
fn names_have_to_match_exactly() {
    let mut pool: NamePool<u32> = NamePool::new();
    pool.put("worker", 1);
    assert_eq!(pool.take("Worker"), None);
    assert_eq!(pool.take("worker "), None);
    assert_eq!(pool.take(""), None);
    assert_eq!(pool.take("worker"), Some(1));
}

#[test]
fn threads_are_recycled_by_name() {
    let (_, handles) = threads(3);
    let mut recycler = ThreadRecycler::new();
    assert_eq!(recycler.recycle_by_name("worker"), None);
    recycler.add_to_pool("worker", handles[1]);
    recycler.add_to_pool("worker", handles[2]);
    recycler.add_to_pool("main", handles[0]);
    assert_eq!(recycler.recycle_by_name("worker"), Some(handles[1]));
    assert_eq!(recycler.recycle_by_name("main"), Some(handles[0]));
    assert_eq!(recycler.recycle_by_name("main"), None);
    assert_eq!(recycler.recycle_by_name("worker"), Some(handles[2]));
    assert_eq!(recycler.recycle_by_name("worker"), None);
}

#[test]
fn processes_are_recycled_by_name() {
    let (process, handles) = threads(2);
    let mut thread_recycler = ThreadRecycler::new();
    thread_recycler.add_to_pool("worker", handles[1]);
    let mut recycler: ProcessRecycler<&str> = ProcessRecycler::new();
    assert!(recycler.recycle_by_name("app").is_none());
    recycler.add_to_pool(
        "app",
        ProcessRecyclingData {
            process_handle: process,
            main_thread_handle: handles[0],
            thread_recycler,
            jit_function_recycler: "functions",
        },
    );
    assert!(recycler.recycle_by_name("other").is_none());
    let mut data = recycler.recycle_by_name("app").unwrap();
    assert_eq!(data.process_handle, process);
    assert_eq!(data.main_thread_handle, handles[0]);
    assert_eq!(data.jit_function_recycler, "functions");
    assert_eq!(data.thread_recycler.recycle_by_name("worker"), Some(handles[1]));
    assert!(recycler.recycle_by_name("app").is_none());
}

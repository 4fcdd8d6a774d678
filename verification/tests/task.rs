use crossbeam_channel::{unbounded, Sender};
use fxprof_processed_profile::{Profile, ReferenceTimestamp, SamplingInterval, Timestamp};
use serde_json::Value;
use std::path::PathBuf;
use task_profiler::error::{KernelError, SamplingError};
use task_profiler::library::{
    DebugId, DyldInfo, MappedLib, MappedSections, Modification, UnwindSectionInfo,
};
use task_profiler::recycling::ProcessRecycler;
use task_profiler::sampling::{
    SampleAction, SampleEvent, SampleRound, SampledThread, MAX_IGNORED_ERRORS,
};
use task_profiler::task_profiler::{
    has_readable_main_thread, jitdump_requests, TaskInit, TaskProfiler, ThreadReading,
};
use task_profiler::unwinder::ModuleSvmaInfo;

type Task = TaskProfiler<u32, Vec<&'static str>>;
type Recycler = ProcessRecycler<Vec<&'static str>>;

const MAIN: u32 = 0x103;
const WORKER: u32 = 0x207;

fn profile() -> Profile {
    Profile::new(
        "test",
        ReferenceTimestamp::from_millis_since_unix_epoch(0.0),
        SamplingInterval::from_millis(1),
    )
}

fn millis(ms: u64) -> Timestamp {
    Timestamp::from_nanos_since_reference(ms * 1_000_000)
}

fn init(pid: u32) -> (TaskInit, Sender<PathBuf>) {
    let (sender, receiver) = unbounded();
    let init = TaskInit { start_time_mono: 9, task: 0x55, pid, jitdump_path_receiver: receiver };
    (init, sender)
}

fn reading(thread_act: u32, tid: u32, name: Option<&str>) -> ThreadReading {
    ThreadReading { thread_act, id: Ok((tid, false)), name: Ok(name.map(str::to_string)) }
}

fn added(file: &str, is_executable: bool) -> Modification {
    Modification::Added(MappedLib {
        lib: DyldInfo {
            file: file.to_string(),
            base_avma: 0x1000,
            vmsize: 0x1000,
            svma_info: ModuleSvmaInfo {
                base_svma: 0,
                text: None,
                text_env: None,
                stubs: None,
                stub_helper: None,
                eh_frame: None,
                eh_frame_hdr: None,
                got: None,
            },
            unwind_sections: UnwindSectionInfo {
                unwind_info_section: None,
                eh_frame_section: None,
                text_segment: None,
            },
            debug_id: Some(DebugId::nil()),
            code_id: None,
            arch: None,
            is_executable,
        },
        sections: MappedSections { unwind_info: None, eh_frame: None, text: None, debug_frame: None },
    })
}

fn start(
    threads: Vec<ThreadReading>,
    profile: &mut Profile,
    recycler: Option<&mut Recycler>,
) -> Task {
    let (init, _) = init(42);
    let task = Task::new(
        init,
        millis(1),
        "command",
        Ok(vec![added("/bin/app", true)]),
        Ok(threads),
        profile,
        recycler,
        vec!["new"],
    );
    match task {
        Ok(task) => task,
        Err(e) => panic!("{:?}", e),
    }
}

fn threads(profile: &Profile) -> Vec<Value> {
    let value = serde_json::to_value(profile).unwrap();
    value["threads"].as_array().unwrap().clone()
}

fn thread<'a>(threads: &'a [Value], tid: &str) -> &'a Value {
    threads.iter().find(|thread| thread["tid"] == tid).unwrap()
}

fn sampled(task: &Task, act: u32, samples: Vec<u32>, alive: Result<bool, SamplingError>) -> SampleEvent<u32> {
    let thread = &task.threads.threads[&act];
    SampleEvent::ThreadSampled(SampledThread {
        name: thread.name.clone(),
        profile_thread: thread.profile_thread,
        samples,
        still_alive: alive,
    })
}

/// Goes through a whole round in which all threads that are listed are alive; those that are new
/// are called `name`.
fn run_round(
    task: &mut Task,
    ms: u64,
    listed: Vec<u32>,
    name: Option<&str>,
    profile: &mut Profile,
) -> Result<bool, SamplingError> {
    let mut round = SampleRound::new();
    let mut event = SampleEvent::Begin { changes: Ok(vec![]), thread_acts: Ok(listed) };
    loop {
        event = match task.sample(millis(ms), ms, event, &mut round, profile) {
            SampleAction::ReadThread(act) => SampleEvent::ThreadRead {
                id: Ok((act * 10, false)),
                name: Ok(name.map(str::to_string)),
            },
            SampleAction::SampleThread(act) => sampled(task, act, vec![act], Ok(true)),
            SampleAction::Done { outcome, report } => {
                assert!(!report);
                return outcome;
            }
        };
    }
}

#[test]
fn task_starts_with_its_threads() {
    let mut profile = profile();
    let unreadable = ThreadReading {
        thread_act: 1,
        id: Err(KernelError::Terminated),
        name: Ok(None),
    };
    let nameless = ThreadReading {
        thread_act: 2,
        id: Ok((2, false)),
        name: Err(SamplingError::Ignorable("name", KernelError::Other(1))),
    };
    let readings = vec![
        reading(MAIN, 100, Some("main")),
        unreadable,
        reading(WORKER, 101, Some("worker")),
        nameless,
        reading(3, 103, None),
    ];
    let task = start(readings, &mut profile, None);
    assert_eq!(task.executable_name, "app");
    assert_eq!(task.pid, 42);
    assert!(task.jit_function_recycler.is_none());
    assert!(task.threads.recycler.is_none());
    let mut live: Vec<u32> = task.threads.threads.keys().cloned().collect();
    live.sort();
    assert_eq!(live, vec![3, MAIN, WORKER]);
    assert!(task.threads.contains(WORKER));
    assert!(!task.threads.contains(1));
    let shown = threads(&profile);
    assert_eq!(shown.len(), 3);
    let main = thread(&shown, "100");
    assert_eq!(main["isMainThread"], true);
    assert_eq!(main["processName"], "app");
    assert_eq!(main["pid"], "42");
    assert_eq!(main["registerTime"], 1.0);
    assert_eq!(main["processStartupTime"], 1.0);
    assert_eq!(main["unregisterTime"], Value::Null);
    let worker = thread(&shown, "101");
    assert_eq!(worker["isMainThread"], false);
    assert_eq!(worker["name"], "worker");
    assert_eq!(thread(&shown, "103")["name"], "Thread <103>");
    let (data, rest) = task.finish((), None::<()>);
    assert!(rest.is_none());
    let ops = data.lib_mapping_ops.into_ops();
    assert_eq!(ops.len(), 1);
    assert_eq!(ops[0].0, 9);
}

#[test]
fn task_is_named_after_its_program() {
    let name = |changes: Vec<Modification>| {
        let (init, _) = init(1);
        let threads = Ok(vec![reading(MAIN, 100, None)]);
        let mut profile = profile();
        let task = Task::new(init, millis(0), "cmd", Ok(changes), threads, &mut profile, None, vec![]);
        task.unwrap_or_else(|e| panic!("{:?}", e)).executable_name
    };
    assert_eq!(name(vec![]), "cmd");
    assert_eq!(name(vec![added("/lib/a", false)]), "cmd");
    assert_eq!(name(vec![added("/lib/a", false), added("/bin/b", true), added("/c", true)]), "b");
    assert_eq!(name(vec![added("/", true), added("/c", true)]), "c");
    assert_eq!(name(vec![added("/..", true)]), "cmd");
}

#[test]
fn tasks_that_cannot_be_profiled() {
    let fail = |changes: Result<Vec<Modification>, KernelError>,
                threads: Result<Vec<ThreadReading>, SamplingError>| {
        let (init, _) = init(1);
        let mut profile = profile();
        let mut recycler = Recycler::new();
        let result = Task::new(
            init,
            millis(0),
            "cmd",
            changes,
            threads,
            &mut profile,
            Some(&mut recycler),
            vec![],
        );
        let shown = serde_json::to_value(&profile).unwrap();
        assert_eq!(shown["threads"].as_array().unwrap().len(), 0);
        match result {
            Ok(_) => panic!("started"),
            Err(e) => e,
        }
    };
    let terminated = KernelError::Terminated;
    assert!(matches!(
        fail(Err(KernelError::Other(2)), Err(SamplingError::Fatal("list", terminated))),
        SamplingError::Ignorable("Could not check process libraries", KernelError::Other(2))
    ));
    assert!(matches!(
        fail(Ok(vec![]), Err(SamplingError::Fatal("list", terminated))),
        SamplingError::Fatal("list", KernelError::Terminated)
    ));
    assert!(matches!(
        fail(Ok(vec![]), Ok(vec![])),
        SamplingError::Ignorable("No threads", KernelError::Terminated)
    ));
    let main = |id, name| vec![ThreadReading { thread_act: MAIN, id, name }, reading(1, 1, None)];
    assert!(matches!(
        fail(Ok(vec![]), Ok(main(Err(KernelError::Other(3)), Ok(None)))),
        SamplingError::Ignorable("Could not get main thread tid", KernelError::Other(3))
    ));
    let name = Err(SamplingError::ProcessTerminated("name", terminated));
    assert!(matches!(
        fail(Ok(vec![]), Ok(main(Ok((1, false)), name))),
        SamplingError::ProcessTerminated("name", KernelError::Terminated)
    ));
}

#[test]
fn failed_start_does_not_touch_the_libraries() {
    let mut changes = vec![added("/bin/app", true)];
    if let Modification::Added(added) = &mut changes[0] {
        added.lib.debug_id = None;
        assert!(!added.is_addable());
    }
    let main = ThreadReading { thread_act: 1, id: Err(KernelError::Other(6)), name: Ok(None) };
    let threads = Ok(vec![main]);
    assert!(!has_readable_main_thread(&threads));
    let mut profile = profile();
    let (init, _) = init(1);
    let task = Task::new(init, millis(0), "cmd", Ok(changes), threads, &mut profile, None, vec![]);
    match task {
        Err(SamplingError::Ignorable(place, cause)) => {
            assert_eq!(place, "Could not get main thread tid");
            assert_eq!(cause, KernelError::Other(6));
        }
        _ => panic!("started"),
    }
    let shown = serde_json::to_value(&profile).unwrap();
    assert_eq!(shown["threads"].as_array().unwrap().len(), 0);
}

#[test]
fn main_thread_has_to_be_readable() {
    let error = || SamplingError::Ignorable("list", KernelError::Other(1));
    assert!(has_readable_main_thread(&Ok(vec![reading(1, 1, None)])));
    assert!(!has_readable_main_thread(&Ok(vec![])));
    assert!(!has_readable_main_thread(&Err(error())));
    let nameless = ThreadReading { thread_act: 1, id: Ok((1, false)), name: Err(error()) };
    assert!(!has_readable_main_thread(&Ok(vec![nameless, reading(2, 2, None)])));
}

#[test]
fn round_asks_for_every_thread() {
    let mut profile = profile();
    let mut task = start(vec![reading(MAIN, 100, None)], &mut profile, None);
    let mut round = SampleRound::new();
    let begin = SampleEvent::Begin { changes: Ok(vec![]), thread_acts: Ok(vec![MAIN, WORKER, 5]) };
    let action = task.sample(millis(2), 2, begin, &mut round, &mut profile);
    assert!(matches!(action, SampleAction::SampleThread(MAIN)));
    let event = sampled(&task, MAIN, vec![1, 2], Ok(true));
    let action = task.sample(millis(2), 2, event, &mut round, &mut profile);
    assert!(matches!(action, SampleAction::ReadThread(WORKER)));
    let event = SampleEvent::ThreadRead { id: Ok((101, true)), name: Ok(Some("worker".to_string())) };
    let action = task.sample(millis(2), 2, event, &mut round, &mut profile);
    assert!(matches!(action, SampleAction::SampleThread(WORKER)));
    let event = sampled(&task, WORKER, vec![3], Ok(true));
    let action = task.sample(millis(2), 2, event, &mut round, &mut profile);
    assert!(matches!(action, SampleAction::ReadThread(5)));
    let event = SampleEvent::ThreadRead { id: Err(KernelError::Terminated), name: Ok(None) };
    let action = task.sample(millis(2), 2, event, &mut round, &mut profile);
    assert!(matches!(action, SampleAction::Done { outcome: Ok(true), report: false }));
    assert_eq!(task.unresolved_samples, vec![1, 2, 3]);
    assert!(!task.threads.contains(5));
    let shown = threads(&profile);
    assert_eq!(thread(&shown, "101")["name"], "worker");
    assert_eq!(thread(&shown, "101")["registerTime"], 2.0);
}

#[test]
fn sampling_can_find_out_the_name_of_a_thread() {
    let mut profile = profile();
    let mut task = start(vec![reading(MAIN, 100, None)], &mut profile, None);
    let mut round = SampleRound::new();
    let begin = SampleEvent::Begin { changes: Ok(vec![]), thread_acts: Ok(vec![MAIN]) };
    task.sample(millis(2), 2, begin, &mut round, &mut profile);
    let event = SampleEvent::ThreadSampled(SampledThread {
        name: Some("found".to_string()),
        profile_thread: task.main_thread_handle,
        samples: vec![],
        still_alive: Ok(true),
    });
    task.sample(millis(2), 2, event, &mut round, &mut profile);
    assert_eq!(task.threads.threads[&MAIN].name.as_deref(), Some("found"));
}

#[test]
fn missing_thread_comes_to_its_end() {
    let mut profile = profile();
    let readings = vec![reading(MAIN, 100, None), reading(WORKER, 101, Some("worker"))];
    let mut task = start(readings, &mut profile, None);
    assert!(run_round(&mut task, 2, vec![MAIN, WORKER], None, &mut profile).unwrap());
    assert_eq!(thread(&threads(&profile), "101")["unregisterTime"], Value::Null);
    assert!(run_round(&mut task, 3, vec![MAIN], None, &mut profile).unwrap());
    assert!(!task.threads.contains(WORKER));
    assert!(task.threads.contains(MAIN));
    let shown = threads(&profile);
    assert_eq!(thread(&shown, "101")["unregisterTime"], 3.0);
    assert_eq!(thread(&shown, "100")["unregisterTime"], Value::Null);
}

#[test]
fn dead_thread_comes_to_its_end() {
    let mut profile = profile();
    let mut task = start(vec![reading(MAIN, 100, None)], &mut profile, None);
    let mut round = SampleRound::new();
    let listed = Ok(vec![MAIN, WORKER]);
    let begin = SampleEvent::Begin { changes: Ok(vec![]), thread_acts: listed };
    task.sample(millis(2), 2, begin, &mut round, &mut profile);
    let event = sampled(&task, MAIN, vec![], Ok(false));
    task.sample(millis(2), 2, event, &mut round, &mut profile);
    let event = SampleEvent::ThreadRead { id: Ok((101, false)), name: Ok(None) };
    task.sample(millis(2), 2, event, &mut round, &mut profile);
    let event = sampled(&task, WORKER, vec![], Ok(false));
    let action = task.sample(millis(2), 2, event, &mut round, &mut profile);
    assert!(matches!(action, SampleAction::Done { outcome: Ok(true), report: false }));
    assert!(!task.threads.contains(MAIN));
    // A thread that came with the round is seen off in the next one.
    assert!(task.threads.contains(WORKER));
    assert_eq!(thread(&threads(&profile), "100")["unregisterTime"], 2.0);
    assert_eq!(thread(&threads(&profile), "101")["unregisterTime"], Value::Null);
    assert!(run_round(&mut task, 3, vec![], None, &mut profile).unwrap());
    assert!(!task.threads.contains(WORKER));
    assert_eq!(thread(&threads(&profile), "101")["unregisterTime"], 3.0);
}

#[test]
fn named_thread_is_followed() {
    let mut profile = profile();
    let mut recycler = Recycler::new();
    let readings = vec![reading(MAIN, 100, None), reading(WORKER, 101, Some("worker"))];
    let mut task = start(readings, &mut profile, Some(&mut recycler));
    let handle = task.threads.threads[&WORKER].profile_thread;
    run_round(&mut task, 2, vec![MAIN], None, &mut profile).unwrap();
    run_round(&mut task, 3, vec![MAIN, 7], Some("worker"), &mut profile).unwrap();
    assert_eq!(task.threads.threads[&7].profile_thread, handle);
    assert_eq!(threads(&profile).len(), 2);
    run_round(&mut task, 4, vec![MAIN, 7, 8], Some("worker"), &mut profile).unwrap();
    assert_eq!(threads(&profile).len(), 3);
}

#[test]
fn without_a_recycler_every_thread_is_new() {
    let mut profile = profile();
    let readings = vec![reading(MAIN, 100, None), reading(WORKER, 101, Some("worker"))];
    let mut task = start(readings, &mut profile, None);
    run_round(&mut task, 2, vec![MAIN], None, &mut profile).unwrap();
    run_round(&mut task, 3, vec![MAIN, 7], Some("worker"), &mut profile).unwrap();
    assert_eq!(threads(&profile).len(), 3);
}

fn fail_round(task: &mut Task, error: SamplingError, profile: &mut Profile) -> SampleAction {
    let mut round = SampleRound::new();
    let begin = SampleEvent::Begin { changes: Err(KernelError::Other(1)), thread_acts: Err(error) };
    task.sample(millis(2), 2, begin, &mut round, profile)
}

#[test]
fn errors_add_up() {
    let mut profile = profile();
    let mut task = start(vec![reading(MAIN, 100, None)], &mut profile, None);
    let error = SamplingError::Ignorable("list", KernelError::Other(4));
    for _ in 0..MAX_IGNORED_ERRORS - 1 {
        let action = fail_round(&mut task, error, &mut profile);
        assert!(matches!(action, SampleAction::Done { outcome: Ok(true), report: false }));
        // Rounds that go well do not make up for it.
        assert!(run_round(&mut task, 3, vec![MAIN], None, &mut profile).unwrap());
    }
    assert_eq!(task.ignored_errors.len(), 9);
    let action = fail_round(&mut task, error, &mut profile);
    assert!(matches!(action, SampleAction::Done { outcome: Ok(false), report: true }));
    assert_eq!(task.ignored_errors.len(), 10);
    let action = fail_round(&mut task, error, &mut profile);
    assert!(matches!(action, SampleAction::Done { outcome: Ok(false), report: true }));
}

#[test]
fn other_errors_are_not_counted() {
    let mut profile = profile();
    let mut task = start(vec![reading(MAIN, 100, None)], &mut profile, None);
    let terminated = SamplingError::ProcessTerminated("list", KernelError::Terminated);
    let action = fail_round(&mut task, terminated, &mut profile);
    assert!(matches!(action, SampleAction::Done { outcome: Ok(false), report: false }));
    let fatal = SamplingError::Fatal("list", KernelError::InvalidArgument);
    let action = fail_round(&mut task, fatal, &mut profile);
    assert!(matches!(
        action,
        SampleAction::Done {
            outcome: Err(SamplingError::Fatal("list", KernelError::InvalidArgument)),
            report: false,
        }
    ));
    assert!(task.ignored_errors.is_empty());
    assert!(task.threads.contains(MAIN));
}

#[test]
fn failed_sample_ends_the_round_and_no_thread() {
    let mut profile = profile();
    let readings = vec![reading(MAIN, 100, None), reading(WORKER, 101, None)];
    let mut task = start(readings, &mut profile, None);
    let mut round = SampleRound::new();
    let begin = SampleEvent::Begin { changes: Ok(vec![]), thread_acts: Ok(vec![MAIN, WORKER]) };
    task.sample(millis(2), 2, begin, &mut round, &mut profile);
    let error = SamplingError::Ignorable("sample", KernelError::Other(7));
    let event = sampled(&task, MAIN, vec![1], Err(error));
    let action = task.sample(millis(2), 2, event, &mut round, &mut profile);
    assert!(matches!(action, SampleAction::Done { outcome: Ok(true), report: false }));
    assert!(task.threads.contains(MAIN));
    assert!(task.threads.contains(WORKER));
    assert_eq!(task.ignored_errors.len(), 1);
    assert_eq!(task.unresolved_samples, vec![1]);
}

#[test]
fn libraries_are_taken_in_though_the_threads_cannot_be_listed() {
    let mut profile = profile();
    let mut task = start(vec![reading(MAIN, 100, None)], &mut profile, None);
    let mut round = SampleRound::new();
    let begin = SampleEvent::Begin {
        changes: Ok(vec![added("/lib/later", false)]),
        thread_acts: Err(SamplingError::Ignorable("list", KernelError::Other(1))),
    };
    task.sample(millis(2), 17, begin, &mut round, &mut profile);
    let (data, _) = task.finish((), None::<()>);
    let times: Vec<u64> = data.lib_mapping_ops.into_ops().iter().map(|(time, _)| *time).collect();
    assert_eq!(times, vec![9, 17]);
}

#[test]
fn task_ends_with_its_threads() {
    let mut profile = profile();
    let mut recycler = Recycler::new();
    let readings = vec![reading(MAIN, 100, None), reading(WORKER, 101, Some("worker"))];
    let mut task = start(readings, &mut profile, Some(&mut recycler));
    let handle = task.threads.threads[&WORKER].profile_thread;
    task.notify_dead(millis(8), &mut profile);
    assert!(task.threads.threads.is_empty());
    for thread in threads(&profile) {
        assert_eq!(thread["unregisterTime"], 8.0);
        assert_eq!(thread["processShutdownTime"], 8.0);
    }
    let waiting = task.threads.recycler.as_mut().unwrap();
    assert_eq!(waiting.recycle_by_name("worker"), Some(handle));
}

#[test]
fn finished_task_hands_out_what_was_recorded() {
    let mut profile = profile();
    let mut task = start(vec![reading(MAIN, 100, None)], &mut profile, None);
    assert_eq!(task.perf_map_pid(), None);
    run_round(&mut task, 2, vec![MAIN], None, &mut profile).unwrap();
    assert_eq!(task.perf_map_pid(), Some(42));
    let (data, rest) = task.finish("jitdump", Some("perf map"));
    assert_eq!(data.unresolved_samples, vec![MAIN]);
    assert_eq!(data.jitdump_lib_ops, "jitdump");
    assert_eq!(data.perf_map_mappings, Some("perf map"));
    assert!(rest.is_none());
}

#[test]
fn without_samples_there_is_no_perf_map() {
    let mut profile = profile();
    let task = start(vec![reading(MAIN, 100, None)], &mut profile, None);
    let (data, _) = task.finish((), Some("perf map"));
    assert_eq!(data.perf_map_mappings, None);
}

#[test]
fn process_is_followed() {
    let mut profile = profile();
    let mut recycler = Recycler::new();
    let readings = vec![reading(MAIN, 100, None), reading(WORKER, 101, Some("worker"))];
    let mut first = start(readings, &mut profile, Some(&mut recycler));
    assert_eq!(first.jit_function_recycler, Some(vec!["new"]));
    first.jit_function_recycler = Some(vec!["old"]);
    let process = first.threads.process;
    let main = first.main_thread_handle;
    let worker = first.threads.threads[&WORKER].profile_thread;
    first.notify_dead(millis(5), &mut profile);
    let (_, rest) = first.finish((), None::<()>);
    let (name, data) = rest.unwrap();
    assert_eq!(name, "app");
    recycler.add_to_pool(&name, data);
    let readings = vec![
        reading(9, 200, None),
        reading(10, 201, Some("worker")),
        reading(11, 202, Some("worker")),
    ];
    let second = start(readings, &mut profile, Some(&mut recycler));
    assert_eq!(second.threads.process, process);
    assert_eq!(second.main_thread_handle, main);
    assert_eq!(second.threads.threads[&9].profile_thread, main);
    assert_eq!(second.threads.threads[&10].profile_thread, worker);
    assert_eq!(second.jit_function_recycler, Some(vec!["old"]));
    // Only the second worker is a new thread of the profile.
    assert_eq!(threads(&profile).len(), 3);
    assert!(recycler.recycle_by_name("app").is_none());
}

#[test]
fn tasks_share_a_profile() {
    let mut profile = profile();
    let mut first = start(vec![reading(MAIN, 100, None)], &mut profile, None);
    let second = start(vec![reading(9, 200, None)], &mut profile, None);
    assert_ne!(first.threads.process, second.threads.process);
    assert!(run_round(&mut first, 2, vec![MAIN, 7], Some("late"), &mut profile).unwrap());
    first.notify_dead(millis(3), &mut profile);
    let shown = threads(&profile);
    assert_eq!(thread(&shown, "100")["unregisterTime"], 3.0);
    assert_eq!(thread(&shown, "70")["unregisterTime"], 3.0);
    assert_eq!(thread(&shown, "200")["unregisterTime"], Value::Null);
    assert_eq!(thread(&shown, "200")["processShutdownTime"], Value::Null);
    assert_eq!(thread(&shown, "200")["pid"], "42.1");
}

#[test]
fn predecessors_follow_in_their_order() {
    let mut profile = profile();
    let mut recycler = Recycler::new();
    let mut processes = Vec::new();
    let mut remains = Vec::new();
    for tid in [100, 200] {
        let task = start(vec![reading(MAIN, tid, None)], &mut profile, Some(&mut recycler));
        processes.push(task.threads.process);
        remains.push(task.finish((), None::<()>).1.unwrap());
    }
    for (name, data) in remains {
        recycler.add_to_pool(&name, data);
    }
    for process in processes {
        let task = start(vec![reading(MAIN, 300, None)], &mut profile, Some(&mut recycler));
        assert_eq!(task.threads.process, process);
    }
    assert_eq!(threads(&profile).len(), 2);
    start(vec![reading(MAIN, 400, None)], &mut profile, Some(&mut recycler));
    assert_eq!(threads(&profile).len(), 3);
}

#[test]
fn predecessor_is_used_up_even_if_the_main_thread_cannot_be_read() {
    let mut profile = profile();
    let mut recycler = Recycler::new();
    let first = start(vec![reading(MAIN, 100, None)], &mut profile, Some(&mut recycler));
    let (name, data) = first.finish((), None::<()>).1.unwrap();
    recycler.add_to_pool(&name, data);
    let (init, _) = init(43);
    let main = ThreadReading { thread_act: 1, id: Err(KernelError::Terminated), name: Ok(None) };
    let second = Task::new(
        init,
        millis(2),
        "app",
        Ok(vec![]),
        Ok(vec![main]),
        &mut profile,
        Some(&mut recycler),
        vec![],
    );
    assert!(second.is_err());
    assert!(recycler.recycle_by_name("app").is_none());
}

#[test]
fn jitdump_paths_are_collected() {
    let mut profile = profile();
    let (init, sender) = init(42);
    let threads = Ok(vec![reading(MAIN, 100, None)]);
    let task = Task::new(init, millis(1), "app", Ok(vec![]), threads, &mut profile, None, vec![]);
    let mut task = task.unwrap_or_else(|e| panic!("{:?}", e));
    assert!(task.check_jitdump().is_empty());
    sender.send(PathBuf::from("/tmp/jit-1.dump")).unwrap();
    sender.send(PathBuf::from("/tmp/jit-2.dump")).unwrap();
    let expected = vec![
        (PathBuf::from("/tmp/jit-1.dump"), None),
        (PathBuf::from("/tmp/jit-2.dump"), None),
    ];
    assert_eq!(task.check_jitdump(), expected);
    assert!(task.check_jitdump().is_empty());
    drop(sender);
    assert!(task.check_jitdump().is_empty());
}

#[test]
fn jitdump_requests_keep_their_order() {
    assert!(jitdump_requests(vec![]).is_empty());
    let requests = jitdump_requests(vec![PathBuf::from("b"), PathBuf::from("a")]);
    assert_eq!(requests, vec![(PathBuf::from("b"), None), (PathBuf::from("a"), None)]);
}

use hm3_sandbox::threads::{select_threads, ThreadEntry, ThreadGroup, ThreadSuspender};

fn snapshot() -> Vec<ThreadEntry> {
    vec![
        ThreadEntry { owner_process_id: 4, thread_id: 8 },
        ThreadEntry { owner_process_id: 100, thread_id: 101 },
        ThreadEntry { owner_process_id: 100, thread_id: 102 },
        ThreadEntry { owner_process_id: 200, thread_id: 201 },
        ThreadEntry { owner_process_id: 100, thread_id: 103 },
        ThreadEntry { owner_process_id: 100, thread_id: 104 },
    ]
}

#[test]
fn only_other_threads_of_the_process_are_picked() {
    assert_eq!(select_threads(&snapshot(), 100, 102), vec![101, 103, 104]);
    assert_eq!(select_threads(&snapshot(), 100, 999), vec![101, 102, 103, 104]);
    assert_eq!(select_threads(&snapshot(), 200, 201), Vec::<u32>::new());
    assert_eq!(select_threads(&snapshot(), 300, 1), Vec::<u32>::new());
    assert_eq!(select_threads(&[], 100, 102), Vec::<u32>::new());
}

#[test]
fn every_suspended_thread_is_resumed_once() {
    let mut suspender = ThreadSuspender::new(&snapshot(), 100, 103);
    let suspended = suspender.threads().clone();
    assert_eq!(suspended, vec![101, 102, 104]);
    let resumed = suspender.release();
    assert_eq!(resumed, suspended);
    assert!(suspender.threads().is_empty());
    assert_eq!(suspender.release(), Vec::<u32>::new());
}

#[test]
fn threads_are_resumed_when_the_guarded_work_fails() {
    let mut suspends = 0;
    let mut resumes = 0;
    let mut suspender = ThreadSuspender::new(&snapshot(), 100, 101);
    for _ in suspender.threads() {
        suspends += 1;
    }
    let work = || -> Result<(), String> { Err(String::from("failed to find hook")) };
    let outcome = work();
    for _ in suspender.release() {
        resumes += 1;
    }
    assert!(outcome.is_err());
    assert_eq!(suspends, 3);
    assert_eq!(resumes, suspends);
}

#[test]
fn a_group_lists_its_threads_until_released() {
    let mut group = ThreadGroup::new(&snapshot(), 100, 104);
    assert_eq!(group.suspend(), &vec![101, 102, 103]);
    assert_eq!(group.resume(), &vec![101, 102, 103]);
    assert_eq!(group.release(), vec![101, 102, 103]);
    assert!(group.suspend().is_empty());
    assert!(group.resume().is_empty());
    assert_eq!(group.release(), Vec::<u32>::new());
}

use endpoint_protection_agent::channel::Delivery;
use endpoint_protection_agent::event::{
    AccessKind, AccessMode, CreateKind, DataChange, FileSystemEvent, ModifyKind, RawKind,
    RawRecord, RemoveKind,
};
use endpoint_protection_agent::file_monitor::{
    BatchOutcome, ConstructError, FileMonitor, Lifecycle, StartError, StartEvent, StartStep,
};
use endpoint_protection_agent::watch::{BackendFailure, PathStatus, WatchMode, WatchedPath};
use tokio::sync::mpsc::error::TryRecvError;
use tokio::sync::mpsc::Receiver;

fn rec(kind: RawKind, path: &str) -> RawRecord {
    RawRecord { kind, paths: vec![path.to_string()] }
}

fn strings(names: &[&str]) -> Vec<String> {
    names.iter().map(|n| n.to_string()).collect()
}

// A monitor for `paths`, started at time 0 with every path an existing
// directory that the backend accepts.
fn watching(paths: &[&str]) -> (FileMonitor, Receiver<FileSystemEvent>) {
    let (mut monitor, rx) =
        FileMonitor::new(strings(paths), 0, Ok(())).expect("Failed to create FileMonitor");
    let mut step = monitor.start().expect("Failed to start FileMonitor");
    loop {
        step = match step {
            StartStep::Probe(_) => monitor.advance(StartEvent::Probed(PathStatus::Directory)),
            StartStep::Register(_, _) => monitor.advance(StartEvent::Answered(Ok(()))),
            StartStep::Finished => break,
        }
        .expect("Failed to start FileMonitor");
    }
    assert_eq!(monitor.state(), Lifecycle::Watching);
    (monitor, rx)
}

// A watching monitor whose consumer has seen and discarded the creation event
// of the watched directory itself. The window that follows starts at 2000.
fn setup_test_env() -> (FileMonitor, String, Receiver<FileSystemEvent>) {
    let watch_path = "/tmp/watched_dir".to_string();
    let (mut monitor, mut rx) = watching(&["/tmp/watched_dir"]);
    monitor.on_batch(Ok(vec![rec(RawKind::Create(CreateKind::Folder), &watch_path)]));
    assert_eq!(monitor.tick(2000), 1);
    assert_eq!(monitor.deliver(), Delivery { sent: 1, dropped: 0, stalled: false });
    let mut dir_event_drained = false;
    while let Ok(event) = rx.try_recv() {
        if monitor.is_root_creation(&event) {
            dir_event_drained = true;
            break;
        }
    }
    assert!(dir_event_drained);
    while rx.try_recv().is_ok() {}
    (monitor, watch_path, rx)
}

// Receives up to `limit` events and says whether one of them is as expected.
fn receive_events_and_check(
    rx: &mut Receiver<FileSystemEvent>,
    expected_event_predicate: impl Fn(&FileSystemEvent) -> bool,
    limit: u64,
) -> bool {
    let mut collected_events = Vec::new();
    for _ in 0..limit {
        match rx.try_recv() {
            Ok(event) => collected_events.push(event),
            Err(_) => break,
        }
    }
    collected_events.iter().any(expected_event_predicate)
}

fn drain(rx: &mut Receiver<FileSystemEvent>) -> Vec<FileSystemEvent> {
    let mut events = Vec::new();
    while let Ok(event) = rx.try_recv() {
        events.push(event);
    }
    events
}

#[test]
fn test_file_monitor_creation() {
    let paths = vec!["/tmp/test_dir".to_string()];
    let (_file_monitor, mut rx) = FileMonitor::new(paths.clone(), 0, Ok(()))
        .expect("FileMonitor creation should succeed");

    assert!(rx.try_recv().is_err());
}

#[test]
fn test_file_created_event() {
    let (mut monitor, watch_path, mut rx) = setup_test_env();

    let file_path = format!("{}/test_file_created.txt", watch_path);
    // What the backend reports when the file is written with "hello".
    monitor.on_batch(Ok(vec![rec(RawKind::Create(CreateKind::File), &file_path)]));
    monitor.on_batch(Ok(vec![rec(RawKind::Modify(ModifyKind::Data(DataChange::Any)), &file_path)]));
    monitor.on_batch(Ok(vec![rec(RawKind::Access(AccessKind::Close(AccessMode::Write)), &file_path)]));

    // Three seconds later the debouncer has had its time.
    monitor.tick(5000);
    monitor.deliver();

    let expected_predicate = |event: &FileSystemEvent| {
        if let FileSystemEvent::Created(p) = event {
            *p == file_path
        } else {
            false
        }
    };

    let received = receive_events_and_check(&mut rx, expected_predicate, 10);
    assert!(received, "Did not receive expected FileSystemEvent::Created for {}", file_path);
}

#[test]
fn test_file_modified_event() {
    let (mut monitor, watch_path, mut rx) = setup_test_env();

    let file_path = format!("{}/test_file_modified.txt", watch_path);
    // The file is written with "initial".
    monitor.on_batch(Ok(vec![rec(RawKind::Create(CreateKind::File), &file_path)]));
    monitor.on_batch(Ok(vec![rec(RawKind::Modify(ModifyKind::Data(DataChange::Any)), &file_path)]));
    monitor.tick(5000);
    monitor.deliver();

    while rx.try_recv().is_ok() {}

    // The file is overwritten with "modified content".
    monitor.on_batch(Ok(vec![rec(RawKind::Modify(ModifyKind::Data(DataChange::Any)), &file_path)]));
    monitor.on_batch(Ok(vec![rec(RawKind::Access(AccessKind::Close(AccessMode::Write)), &file_path)]));
    monitor.tick(8000);
    monitor.deliver();

    let expected_predicate = |event: &FileSystemEvent| {
        if let FileSystemEvent::Modified(p) = event {
            *p == file_path
        } else {
            false
        }
    };

    let received = receive_events_and_check(&mut rx, expected_predicate, 10);
    assert!(received, "Did not receive expected FileSystemEvent::Modified for {}", file_path);
}

#[test]
fn test_file_deleted_event() {
    let (mut monitor, watch_path, mut rx) = setup_test_env();

    let file_path = format!("{}/test_file_deleted.txt", watch_path);
    // The file is written with "to_delete".
    monitor.on_batch(Ok(vec![rec(RawKind::Create(CreateKind::File), &file_path)]));
    monitor.on_batch(Ok(vec![rec(RawKind::Modify(ModifyKind::Data(DataChange::Any)), &file_path)]));
    monitor.tick(5000);
    monitor.deliver();

    while rx.try_recv().is_ok() {}

    // The file is removed.
    monitor.on_batch(Ok(vec![rec(RawKind::Remove(RemoveKind::File), &file_path)]));
    monitor.tick(8000);
    monitor.deliver();

    let expected_predicate = |event: &FileSystemEvent| {
        if let FileSystemEvent::Deleted(p) = event {
            *p == file_path
        } else {
            false
        }
    };

    let received = receive_events_and_check(&mut rx, expected_predicate, 10);
    assert!(received, "Did not receive expected FileSystemEvent::Deleted for {}", file_path);
}

#[test]
fn construction_fails_only_when_the_backend_failed() {
    let failed = FileMonitor::new(strings(&["/tmp"]), 0, Err(BackendFailure::MaxFilesWatch));
    match failed {
        Err(error) => assert_eq!(error, ConstructError::BackendInit(BackendFailure::MaxFilesWatch)),
        Ok(_) => panic!("construction succeeded without a backend"),
    }
    let missing = FileMonitor::new(strings(&["/nonexistent"]), 0, Ok(()));
    assert!(missing.is_ok());
}

#[test]
fn new_monitor_is_uninitialized_and_holds_the_watched_set() {
    let (monitor, _rx) =
        FileMonitor::new(strings(&["/tmp", "/home/test", "/tmp"]), 0, Ok(())).unwrap();
    assert_eq!(monitor.state(), Lifecycle::Uninitialized);
    assert_eq!(
        monitor.watched(),
        &vec![
            WatchedPath { path: "/tmp".to_string(), mode: WatchMode::Recursive },
            WatchedPath { path: "/home/test".to_string(), mode: WatchMode::Recursive },
        ]
    );
    assert_eq!(monitor.registered_count(), 0);
    assert!(!monitor.is_registered(0));
    assert!(!monitor.is_registered(1));
    assert!(!monitor.is_registered(2));
    assert_eq!(monitor.step(), StartStep::Probe(0));
    assert_eq!(monitor.pending_records(), 0);
    assert_eq!(monitor.pending_events(), 0);
}

#[test]
fn start_succeeds_with_a_missing_path_and_events_still_arrive() {
    let (mut monitor, mut rx) =
        FileMonitor::new(strings(&["/tmp/d", "/nonexistent"]), 0, Ok(())).unwrap();
    assert_eq!(monitor.start(), Ok(StartStep::Probe(0)));
    assert_eq!(
        monitor.advance(StartEvent::Probed(PathStatus::Directory)),
        Ok(StartStep::Register(0, WatchMode::Recursive))
    );
    assert_eq!(monitor.advance(StartEvent::Answered(Ok(()))), Ok(StartStep::Probe(1)));
    assert_eq!(monitor.state(), Lifecycle::Uninitialized);
    assert_eq!(monitor.advance(StartEvent::Probed(PathStatus::Missing)), Ok(StartStep::Finished));
    assert_eq!(monitor.state(), Lifecycle::Watching);
    assert!(monitor.is_registered(0));
    assert!(!monitor.is_registered(1));
    assert_eq!(monitor.registered_count(), 1);

    monitor.on_batch(Ok(vec![rec(RawKind::Create(CreateKind::File), "/tmp/d/a")]));
    assert_eq!(monitor.tick(2000), 1);
    assert_eq!(monitor.deliver(), Delivery { sent: 1, dropped: 0, stalled: false });
    let events = drain(&mut rx);
    assert_eq!(events, vec![FileSystemEvent::Created("/tmp/d/a".to_string())]);
    for event in events {
        assert!(!matches!(event, FileSystemEvent::Created(p) if p == "/nonexistent"));
    }
}

#[test]
fn start_with_no_registered_path_is_not_an_error() {
    let (mut monitor, mut rx) =
        FileMonitor::new(strings(&["/nonexistent", "/root/secret", "/dev/null"]), 0, Ok(()))
            .unwrap();
    assert_eq!(monitor.start(), Ok(StartStep::Probe(0)));
    assert_eq!(monitor.advance(StartEvent::Probed(PathStatus::Missing)), Ok(StartStep::Probe(1)));
    assert_eq!(
        monitor.advance(StartEvent::Probed(PathStatus::Inaccessible)),
        Ok(StartStep::Probe(2))
    );
    assert_eq!(monitor.advance(StartEvent::Probed(PathStatus::Other)), Ok(StartStep::Finished));
    assert_eq!(monitor.state(), Lifecycle::Watching);
    assert_eq!(monitor.registered_count(), 0);
    assert_eq!(monitor.tick(10_000), 0);
    assert_eq!(monitor.deliver(), Delivery { sent: 0, dropped: 0, stalled: false });
    assert_eq!(rx.try_recv(), Err(TryRecvError::Empty));
}

#[test]
fn start_with_no_paths_is_watching_at_once() {
    let (mut monitor, _rx) = FileMonitor::new(Vec::new(), 0, Ok(())).unwrap();
    assert_eq!(monitor.step(), StartStep::Finished);
    assert_eq!(monitor.state(), Lifecycle::Uninitialized);
    assert_eq!(monitor.start(), Ok(StartStep::Finished));
    assert_eq!(monitor.state(), Lifecycle::Watching);
    assert_eq!(monitor.start(), Ok(StartStep::Finished));
    assert_eq!(monitor.state(), Lifecycle::Watching);
}

#[test]
fn single_file_is_watched_non_recursively() {
    let (mut monitor, _rx) = FileMonitor::new(strings(&["/etc/passwd"]), 0, Ok(())).unwrap();
    assert_eq!(monitor.start(), Ok(StartStep::Probe(0)));
    assert_eq!(
        monitor.advance(StartEvent::Probed(PathStatus::File)),
        Ok(StartStep::Register(0, WatchMode::NonRecursive))
    );
    assert_eq!(
        monitor.watched(),
        &vec![WatchedPath { path: "/etc/passwd".to_string(), mode: WatchMode::NonRecursive }]
    );
    assert_eq!(monitor.step(), StartStep::Register(0, WatchMode::NonRecursive));
    assert_eq!(monitor.advance(StartEvent::Answered(Ok(()))), Ok(StartStep::Finished));
    assert!(monitor.is_registered(0));
}

#[test]
fn path_that_the_backend_cannot_reach_is_skipped() {
    for failure in [
        BackendFailure::PathNotFound,
        BackendFailure::IoNotFound,
        BackendFailure::IoPermissionDenied,
    ] {
        let (mut monitor, _rx) =
            FileMonitor::new(strings(&["/tmp/gone", "/tmp/d"]), 0, Ok(())).unwrap();
        monitor.start().unwrap();
        monitor.advance(StartEvent::Probed(PathStatus::Directory)).unwrap();
        assert_eq!(monitor.advance(StartEvent::Answered(Err(failure))), Ok(StartStep::Probe(1)));
        assert_eq!(monitor.state(), Lifecycle::Uninitialized);
        monitor.advance(StartEvent::Probed(PathStatus::Directory)).unwrap();
        assert_eq!(monitor.advance(StartEvent::Answered(Ok(()))), Ok(StartStep::Finished));
        assert_eq!(monitor.state(), Lifecycle::Watching);
        assert!(!monitor.is_registered(0));
        assert!(monitor.is_registered(1));
    }
}

#[test]
fn failure_of_the_backend_itself_ends_the_monitor() {
    for failure in [
        BackendFailure::MaxFilesWatch,
        BackendFailure::IoOther,
        BackendFailure::WatchNotFound,
        BackendFailure::InvalidConfig,
        BackendFailure::Generic,
    ] {
        let (mut monitor, mut rx) =
            FileMonitor::new(strings(&["/tmp/a", "/tmp/b"]), 0, Ok(())).unwrap();
        monitor.start().unwrap();
        monitor.advance(StartEvent::Probed(PathStatus::Directory)).unwrap();
        monitor.advance(StartEvent::Answered(Ok(()))).unwrap();
        monitor.on_batch(Ok(vec![rec(RawKind::Create(CreateKind::File), "/tmp/a/x")]));
        monitor.advance(StartEvent::Probed(PathStatus::Directory)).unwrap();
        assert_eq!(
            monitor.advance(StartEvent::Answered(Err(failure))),
            Err(StartError::BackendInit(failure))
        );
        assert_eq!(monitor.state(), Lifecycle::Stopped);
        assert_eq!(monitor.pending_records(), 0);
        assert_eq!(monitor.step(), StartStep::Finished);
        assert_eq!(monitor.start(), Err(StartError::Stopped));
        assert_eq!(rx.try_recv(), Err(TryRecvError::Disconnected));
    }
}

#[test]
fn reports_out_of_turn_are_ignored() {
    let (mut monitor, _rx) = FileMonitor::new(strings(&["/tmp/a"]), 0, Ok(())).unwrap();
    assert_eq!(monitor.advance(StartEvent::Answered(Ok(()))), Ok(StartStep::Probe(0)));
    assert_eq!(
        monitor.advance(StartEvent::Answered(Err(BackendFailure::MaxFilesWatch))),
        Ok(StartStep::Probe(0))
    );
    assert_eq!(monitor.state(), Lifecycle::Uninitialized);
    assert_eq!(
        monitor.advance(StartEvent::Probed(PathStatus::Directory)),
        Ok(StartStep::Register(0, WatchMode::Recursive))
    );
    assert_eq!(
        monitor.advance(StartEvent::Probed(PathStatus::Missing)),
        Ok(StartStep::Register(0, WatchMode::Recursive))
    );
    assert_eq!(monitor.advance(StartEvent::Answered(Ok(()))), Ok(StartStep::Finished));
    assert_eq!(monitor.advance(StartEvent::Probed(PathStatus::Missing)), Ok(StartStep::Finished));
    assert_eq!(
        monitor.advance(StartEvent::Answered(Err(BackendFailure::MaxFilesWatch))),
        Ok(StartStep::Finished)
    );
    assert_eq!(monitor.state(), Lifecycle::Watching);
    assert!(monitor.is_registered(0));
}

#[test]
fn stopped_monitor_cannot_be_started() {
    let (mut monitor, _rx) = FileMonitor::new(strings(&["/tmp/a"]), 0, Ok(())).unwrap();
    monitor.stop();
    assert_eq!(monitor.state(), Lifecycle::Stopped);
    assert_eq!(monitor.start(), Err(StartError::Stopped));
    assert_eq!(
        monitor.advance(StartEvent::Probed(PathStatus::Directory)),
        Err(StartError::Stopped)
    );
    assert_eq!(monitor.state(), Lifecycle::Stopped);
    assert!(!monitor.is_registered(0));
}

#[test]
fn overwriting_twice_in_one_window_gives_one_modified_event() {
    let (mut monitor, mut rx) = watching(&["/tmp/d"]);
    monitor.on_batch(Ok(vec![rec(RawKind::Modify(ModifyKind::Data(DataChange::Any)), "/tmp/d/a")]));
    monitor.on_batch(Ok(vec![rec(RawKind::Modify(ModifyKind::Data(DataChange::Any)), "/tmp/d/a")]));
    assert_eq!(monitor.pending_records(), 1);
    assert_eq!(monitor.tick(2000), 1);
    monitor.deliver();
    assert_eq!(drain(&mut rx), vec![FileSystemEvent::Modified("/tmp/d/a".to_string())]);
}

#[test]
fn overwriting_in_two_windows_gives_two_modified_events() {
    let (mut monitor, mut rx) = watching(&["/tmp/d"]);
    monitor.on_batch(Ok(vec![rec(RawKind::Modify(ModifyKind::Any), "/tmp/d/a")]));
    assert_eq!(monitor.tick(2000), 1);
    monitor.deliver();
    monitor.on_batch(Ok(vec![rec(RawKind::Modify(ModifyKind::Any), "/tmp/d/a")]));
    assert_eq!(monitor.tick(4000), 1);
    monitor.deliver();
    assert_eq!(
        drain(&mut rx),
        vec![
            FileSystemEvent::Modified("/tmp/d/a".to_string()),
            FileSystemEvent::Modified("/tmp/d/a".to_string()),
        ]
    );
}

#[test]
fn nothing_is_heard_of_a_path_after_its_removal() {
    let (mut monitor, mut rx) = watching(&["/tmp/d"]);
    monitor.on_batch(Ok(vec![rec(RawKind::Create(CreateKind::File), "/tmp/d/a")]));
    assert_eq!(monitor.tick(2000), 1);
    monitor.deliver();
    monitor.on_batch(Ok(vec![rec(RawKind::Remove(RemoveKind::File), "/tmp/d/a")]));
    assert_eq!(monitor.tick(4000), 1);
    monitor.deliver();
    assert_eq!(
        drain(&mut rx),
        vec![
            FileSystemEvent::Created("/tmp/d/a".to_string()),
            FileSystemEvent::Deleted("/tmp/d/a".to_string()),
        ]
    );
    monitor.on_batch(Ok(vec![rec(RawKind::Modify(ModifyKind::Any), "/tmp/d/b")]));
    assert_eq!(monitor.tick(6000), 1);
    assert_eq!(monitor.tick(8000), 0);
    assert_eq!(monitor.tick(10_000), 0);
    monitor.deliver();
    assert_eq!(drain(&mut rx), vec![FileSystemEvent::Modified("/tmp/d/b".to_string())]);
}

#[test]
fn create_modify_delete_are_observed_in_order() {
    let (mut monitor, mut rx) = watching(&["/tmp/d"]);
    monitor.on_batch(Ok(vec![rec(RawKind::Create(CreateKind::File), "/tmp/d/a")]));
    monitor.on_batch(Ok(vec![rec(RawKind::Create(CreateKind::File), "/tmp/d/other")]));
    monitor.tick(2500);
    monitor.deliver();
    monitor.on_batch(Ok(vec![
        rec(RawKind::Modify(ModifyKind::Any), "/tmp/d/other"),
        rec(RawKind::Modify(ModifyKind::Data(DataChange::Content)), "/tmp/d/a"),
    ]));
    monitor.tick(5000);
    monitor.deliver();
    monitor.on_batch(Ok(vec![rec(RawKind::Remove(RemoveKind::File), "/tmp/d/a")]));
    monitor.tick(7500);
    monitor.deliver();
    let about_a: Vec<FileSystemEvent> = drain(&mut rx)
        .into_iter()
        .filter(|event| match event {
            FileSystemEvent::Created(p)
            | FileSystemEvent::Modified(p)
            | FileSystemEvent::Deleted(p) => p == "/tmp/d/a",
            _ => false,
        })
        .collect();
    assert_eq!(
        about_a,
        vec![
            FileSystemEvent::Created("/tmp/d/a".to_string()),
            FileSystemEvent::Modified("/tmp/d/a".to_string()),
            FileSystemEvent::Deleted("/tmp/d/a".to_string()),
        ]
    );
}

#[test]
fn paths_of_one_tick_arrive_in_first_seen_order() {
    let (mut monitor, mut rx) = watching(&["/tmp/d"]);
    monitor.on_batch(Ok(vec![
        rec(RawKind::Create(CreateKind::File), "/tmp/d/z"),
        rec(RawKind::Create(CreateKind::File), "/tmp/d/a"),
    ]));
    monitor.on_batch(Ok(vec![
        rec(RawKind::Create(CreateKind::Any), "/tmp/d/z"),
        rec(RawKind::Remove(RemoveKind::File), "/tmp/d/m"),
    ]));
    assert_eq!(monitor.tick(2000), 3);
    monitor.deliver();
    assert_eq!(
        drain(&mut rx),
        vec![
            FileSystemEvent::Created("/tmp/d/z".to_string()),
            FileSystemEvent::Created("/tmp/d/a".to_string()),
            FileSystemEvent::Deleted("/tmp/d/m".to_string()),
        ]
    );
}

#[test]
fn tick_flushes_exactly_when_the_window_is_over() {
    let (mut monitor, mut rx) = watching(&["/tmp/d"]);
    monitor.on_batch(Ok(vec![rec(RawKind::Create(CreateKind::File), "/tmp/d/a")]));
    assert_eq!(monitor.tick(0), 0);
    assert_eq!(monitor.tick(1999), 0);
    assert_eq!(monitor.pending_records(), 1);
    assert_eq!(monitor.pending_events(), 0);
    assert_eq!(monitor.deliver(), Delivery { sent: 0, dropped: 0, stalled: false });
    assert_eq!(rx.try_recv(), Err(TryRecvError::Empty));
    assert_eq!(monitor.tick(2000), 1);
    assert_eq!(monitor.pending_records(), 0);
    assert_eq!(monitor.pending_events(), 1);
}

#[test]
fn empty_tick_causes_no_channel_traffic() {
    let (mut monitor, mut rx) = watching(&["/tmp/d"]);
    assert_eq!(monitor.tick(2000), 0);
    assert_eq!(monitor.pending_events(), 0);
    assert_eq!(monitor.deliver(), Delivery { sent: 0, dropped: 0, stalled: false });
    assert_eq!(rx.try_recv(), Err(TryRecvError::Empty));
}

#[test]
fn monitor_that_is_not_watching_does_not_flush() {
    let (mut monitor, _rx) = FileMonitor::new(strings(&["/tmp/d"]), 0, Ok(())).unwrap();
    assert_eq!(
        monitor.on_batch(Ok(vec![rec(RawKind::Create(CreateKind::Folder), "/tmp/d")])),
        BatchOutcome::Buffered { accepted: 1, ignored: 0 }
    );
    assert_eq!(monitor.tick(5000), 0);
    assert_eq!(monitor.pending_records(), 1);
    monitor.start().unwrap();
    monitor.advance(StartEvent::Probed(PathStatus::Directory)).unwrap();
    monitor.advance(StartEvent::Answered(Ok(()))).unwrap();
    assert_eq!(monitor.tick(5000), 1);
}

#[test]
fn backend_error_in_place_of_a_batch_changes_nothing() {
    let (mut monitor, mut rx) = watching(&["/tmp/d"]);
    monitor.on_batch(Ok(vec![rec(RawKind::Create(CreateKind::File), "/tmp/d/a")]));
    assert_eq!(
        monitor.on_batch(Err(BackendFailure::Generic)),
        BatchOutcome::BackendCallbackError(BackendFailure::Generic)
    );
    assert_eq!(monitor.state(), Lifecycle::Watching);
    assert_eq!(monitor.pending_records(), 1);
    assert_eq!(
        monitor.on_batch(Ok(vec![rec(RawKind::Create(CreateKind::File), "/tmp/d/b")])),
        BatchOutcome::Buffered { accepted: 1, ignored: 0 }
    );
    assert_eq!(monitor.tick(2000), 2);
    monitor.deliver();
    assert_eq!(
        drain(&mut rx),
        vec![
            FileSystemEvent::Created("/tmp/d/a".to_string()),
            FileSystemEvent::Created("/tmp/d/b".to_string()),
        ]
    );
}

#[test]
fn records_without_a_path_are_counted_and_ignored() {
    let (mut monitor, _rx) = watching(&["/tmp/d"]);
    let outcome = monitor.on_batch(Ok(vec![
        RawRecord { kind: RawKind::Other, paths: Vec::new() },
        rec(RawKind::Create(CreateKind::File), "/tmp/d/a"),
        RawRecord { kind: RawKind::Create(CreateKind::File), paths: Vec::new() },
        rec(RawKind::Create(CreateKind::File), "/tmp/d/a"),
    ]));
    assert_eq!(outcome, BatchOutcome::Buffered { accepted: 2, ignored: 2 });
    assert_eq!(monitor.pending_records(), 1);
    assert_eq!(monitor.on_batch(Ok(Vec::new())), BatchOutcome::Buffered { accepted: 0, ignored: 0 });
}

#[test]
fn creation_of_a_registered_root_is_told_apart() {
    let (mut monitor, _rx) =
        FileMonitor::new(strings(&["/tmp/d", "/tmp/missing"]), 0, Ok(())).unwrap();
    let root = FileSystemEvent::Created("/tmp/d".to_string());
    assert!(!monitor.is_root_creation(&root));
    monitor.start().unwrap();
    monitor.advance(StartEvent::Probed(PathStatus::Directory)).unwrap();
    monitor.advance(StartEvent::Answered(Ok(()))).unwrap();
    monitor.advance(StartEvent::Probed(PathStatus::Missing)).unwrap();
    assert!(monitor.is_root_creation(&root));
    assert!(!monitor.is_root_creation(&FileSystemEvent::Created("/tmp/d/a".to_string())));
    assert!(!monitor.is_root_creation(&FileSystemEvent::Created("/tmp/missing".to_string())));
    assert!(!monitor.is_root_creation(&FileSystemEvent::Modified("/tmp/d".to_string())));
    assert!(!monitor.is_root_creation(&FileSystemEvent::Deleted("/tmp/d".to_string())));
    assert!(!monitor.is_root_creation(&FileSystemEvent::Other(
        RawKind::Create(CreateKind::Folder),
        strings(&["/tmp/d"])
    )));
}

#[test]
fn receiver_sees_the_end_after_teardown_once_drained() {
    let (mut monitor, mut rx) = watching(&["/tmp/d"]);
    monitor.on_batch(Ok(vec![
        rec(RawKind::Create(CreateKind::File), "/tmp/d/a"),
        rec(RawKind::Create(CreateKind::File), "/tmp/d/b"),
    ]));
    assert_eq!(monitor.tick(2000), 2);
    assert_eq!(monitor.deliver(), Delivery { sent: 2, dropped: 0, stalled: false });
    monitor.on_batch(Ok(vec![rec(RawKind::Create(CreateKind::File), "/tmp/d/c")]));
    monitor.stop();
    assert_eq!(monitor.state(), Lifecycle::Stopped);
    assert_eq!(rx.try_recv(), Ok(FileSystemEvent::Created("/tmp/d/a".to_string())));
    assert_eq!(rx.try_recv(), Ok(FileSystemEvent::Created("/tmp/d/b".to_string())));
    assert_eq!(rx.try_recv(), Err(TryRecvError::Disconnected));

    assert_eq!(
        monitor.on_batch(Ok(vec![rec(RawKind::Modify(ModifyKind::Any), "/tmp/d/a")])),
        BatchOutcome::Stopped
    );
    assert_eq!(monitor.on_batch(Err(BackendFailure::Generic)), BatchOutcome::Stopped);
    assert_eq!(monitor.pending_records(), 0);
    assert_eq!(monitor.tick(100_000), 0);
    assert_eq!(monitor.pending_events(), 0);
    assert_eq!(monitor.deliver(), Delivery { sent: 0, dropped: 0, stalled: false });
    assert_eq!(rx.try_recv(), Err(TryRecvError::Disconnected));
    assert_eq!(rx.blocking_recv(), None);
}

#[test]
fn receiver_sees_the_end_when_the_monitor_is_dropped() {
    let (mut monitor, mut rx) = watching(&["/tmp/d"]);
    monitor.on_batch(Ok(vec![rec(RawKind::Remove(RemoveKind::File), "/tmp/d/a")]));
    monitor.tick(2000);
    monitor.deliver();
    drop(monitor);
    assert_eq!(rx.blocking_recv(), Some(FileSystemEvent::Deleted("/tmp/d/a".to_string())));
    assert_eq!(rx.blocking_recv(), None);
}

#[test]
fn events_after_the_receiver_is_gone_are_dropped_and_the_monitor_goes_on() {
    let (mut monitor, rx) = watching(&["/tmp/d"]);
    drop(rx);
    monitor.on_batch(Ok(vec![
        rec(RawKind::Create(CreateKind::File), "/tmp/d/a"),
        rec(RawKind::Create(CreateKind::File), "/tmp/d/b"),
    ]));
    assert_eq!(monitor.tick(2000), 2);
    assert_eq!(monitor.deliver(), Delivery { sent: 0, dropped: 2, stalled: false });
    assert_eq!(monitor.state(), Lifecycle::Watching);
    monitor.on_batch(Ok(vec![rec(RawKind::Create(CreateKind::File), "/tmp/d/c")]));
    assert_eq!(monitor.tick(4000), 1);
    assert_eq!(monitor.deliver(), Delivery { sent: 0, dropped: 1, stalled: false });
}

#[test]
fn full_channel_holds_the_next_window_back() {
    let (mut monitor, mut rx) = watching(&["/tmp/d"]);
    let names: Vec<String> = (0..150).map(|n| format!("/tmp/d/file{}", n)).collect();
    let batch: Vec<RawRecord> =
        names.iter().map(|n| rec(RawKind::Create(CreateKind::File), n)).collect();
    assert_eq!(monitor.on_batch(Ok(batch)), BatchOutcome::Buffered { accepted: 150, ignored: 0 });
    assert_eq!(monitor.tick(2000), 150);
    assert_eq!(monitor.deliver(), Delivery { sent: 100, dropped: 0, stalled: true });
    assert_eq!(monitor.pending_events(), 50);

    monitor.on_batch(Ok(vec![rec(RawKind::Remove(RemoveKind::File), "/tmp/d/file0")]));
    assert_eq!(monitor.tick(4000), 0);
    assert_eq!(monitor.pending_records(), 1);
    assert_eq!(monitor.pending_events(), 50);

    for name in names.iter().take(100) {
        assert_eq!(rx.try_recv(), Ok(FileSystemEvent::Created(name.clone())));
    }
    assert_eq!(rx.try_recv(), Err(TryRecvError::Empty));
    assert_eq!(monitor.deliver(), Delivery { sent: 50, dropped: 0, stalled: false });
    assert_eq!(monitor.tick(4001), 1);
    assert_eq!(monitor.deliver(), Delivery { sent: 1, dropped: 0, stalled: false });
    for name in names.iter().skip(100) {
        assert_eq!(rx.try_recv(), Ok(FileSystemEvent::Created(name.clone())));
    }
    assert_eq!(rx.try_recv(), Ok(FileSystemEvent::Deleted("/tmp/d/file0".to_string())));
    assert_eq!(rx.try_recv(), Err(TryRecvError::Empty));
}

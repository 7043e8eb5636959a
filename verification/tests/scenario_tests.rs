use rusqlite::Connection;
use sweeper::capture::CaptureStats;
use sweeper::cleanup::{Cleaner, CleanerAction, CleanerEvent, DeletionOutcome};
use sweeper::persist::{PersistAction, PersistEvent, Persister};
use sweeper::store::ScheduleStore;
use sweeper::wire::encode_event;

/// Drives one pass of the cleanup loop against `store`. Files are not
/// touched: an attempt to delete `path` ends as `outcome_of(path)` says.
/// Returns the paths whose deletion was asked for and the identifiers of the
/// records that were removed.
fn run_pass(
    store: &ScheduleStore,
    now: i64,
    outcome_of: fn(&str) -> DeletionOutcome,
) -> (Vec<String>, Vec<i64>) {
    let mut deleted: Vec<String> = Vec::new();
    let mut removed: Vec<i64> = Vec::new();
    let mut event = CleanerEvent::Wake { running: true, now };
    let mut cleaner = Cleaner::new();
    loop {
        let (next, action) = cleaner.step(event);
        cleaner = next;
        event = match action {
            CleanerAction::ListDue { now } => match store.list_due(now) {
                Ok(records) => CleanerEvent::Listed { records },
                Err(_) => CleanerEvent::ListFailed,
            },
            CleanerAction::DeleteFile { id: _, path } => {
                let outcome = outcome_of(&path);
                deleted.push(path);
                CleanerEvent::FileDone { outcome }
            }
            CleanerAction::RemoveRecord { id } => {
                removed.push(id);
                CleanerEvent::RecordDone { removed: store.remove(id).is_ok() }
            }
            CleanerAction::Sleep => {
                assert_eq!(cleaner, Cleaner::Idle);
                return (deleted, removed);
            }
            CleanerAction::Stop => panic!("the loop stopped while the process was running"),
        };
    }
}

fn always_deleted(_path: &str) -> DeletionOutcome {
    DeletionOutcome::Deleted
}

fn always_missing(_path: &str) -> DeletionOutcome {
    DeletionOutcome::Missing
}

fn always_failed(_path: &str) -> DeletionOutcome {
    DeletionOutcome::Failed
}

fn fails_for_locked(path: &str) -> DeletionOutcome {
    if path == "/locked" {
        DeletionOutcome::Failed
    } else {
        DeletionOutcome::Deleted
    }
}

fn open_store() -> ScheduleStore {
    let store = ScheduleStore::new(Connection::open_in_memory().unwrap());
    store.setup_db().unwrap();
    store
}

#[test]
fn captured_event_is_scheduled_swept_and_forgotten() {
    let store = open_store();
    let mut stats = CaptureStats::new();
    let sample = encode_event(b"/tmp/a", b"user.expire_at", b"1000000000");
    let request = stats.on_sample(&sample).unwrap();

    let (persister, action) = Persister::new(3).step(PersistEvent::Wake { running: true });
    assert_eq!(action, PersistAction::Receive);
    let (persister, action) = persister.step(PersistEvent::Received { request: Some(request) });
    let id = match action {
        PersistAction::Insert { request } => store.insert(&request).unwrap(),
        other => panic!("expected an insert, got {:?}", other),
    };
    let (_, action) = persister.step(PersistEvent::Stored { ok: true });
    assert_eq!(action, PersistAction::Sleep);

    let listed = store.list_due(1000000001).unwrap();
    assert_eq!(listed.len(), 1);
    assert_eq!(listed[0].id, id);
    assert_eq!(listed[0].path, "/tmp/a");
    assert_eq!(listed[0].expire_at, 1000000000);

    let (deleted, removed) = run_pass(&store, 1000000001, always_deleted);
    assert_eq!(deleted, vec!["/tmp/a".to_string()]);
    assert_eq!(removed, vec![id]);

    assert_eq!(store.list_due(1000000001).unwrap(), vec![]);
    assert_eq!(store.list_due(i64::MAX).unwrap(), vec![]);
    let (deleted, removed) = run_pass(&store, 1000000002, always_deleted);
    assert!(deleted.is_empty());
    assert!(removed.is_empty());
}

#[test]
fn nothing_is_swept_before_its_time() {
    let store = open_store();
    let sample = encode_event(b"/tmp/a", b"user.expire_at", b"1000000000");
    let request = CaptureStats::new().on_sample(&sample).unwrap();
    store.insert(&request).unwrap();
    let (deleted, removed) = run_pass(&store, 999999999, always_deleted);
    assert!(deleted.is_empty());
    assert!(removed.is_empty());
    assert_eq!(store.list_due(1000000000).unwrap().len(), 1);
}

#[test]
fn file_that_is_already_gone_has_its_record_removed() {
    let store = open_store();
    let sample = encode_event(b"/gone", b"user.expire_at", b"10");
    let id = store.insert(&CaptureStats::new().on_sample(&sample).unwrap()).unwrap();
    let (deleted, removed) = run_pass(&store, 10, always_missing);
    assert_eq!(deleted, vec!["/gone".to_string()]);
    assert_eq!(removed, vec![id]);
    assert_eq!(store.list_due(10).unwrap(), vec![]);
}

#[test]
fn file_that_cannot_be_deleted_keeps_its_record() {
    let store = open_store();
    let sample = encode_event(b"/locked", b"user.expire_at", b"10");
    let id = store.insert(&CaptureStats::new().on_sample(&sample).unwrap()).unwrap();
    for now in [10i64, 11, 12] {
        let (deleted, removed) = run_pass(&store, now, always_failed);
        assert_eq!(deleted, vec!["/locked".to_string()]);
        assert!(removed.is_empty());
        let listed = store.list_due(now).unwrap();
        assert_eq!(listed.len(), 1);
        assert_eq!(listed[0].id, id);
    }
    let (deleted, removed) = run_pass(&store, 13, always_deleted);
    assert_eq!(deleted, vec!["/locked".to_string()]);
    assert_eq!(removed, vec![id]);
    assert_eq!(store.list_due(13).unwrap(), vec![]);
}

#[test]
fn one_failed_deletion_does_not_hold_up_the_others() {
    let store = open_store();
    let mut ids: Vec<i64> = Vec::new();
    for path in ["/a", "/locked", "/b"] {
        let sample = encode_event(path.as_bytes(), b"user.expire_at", b"10");
        ids.push(store.insert(&CaptureStats::new().on_sample(&sample).unwrap()).unwrap());
    }
    let (mut deleted, mut removed) = run_pass(&store, 10, fails_for_locked);
    deleted.sort();
    removed.sort();
    assert_eq!(deleted, vec!["/a".to_string(), "/b".to_string(), "/locked".to_string()]);
    assert_eq!(removed, vec![ids[0], ids[2]]);
    let left = store.list_due(10).unwrap();
    assert_eq!(left.len(), 1);
    assert_eq!(left[0].id, ids[1]);
    assert_eq!(left[0].path, "/locked");
}

#[test]
fn shutdown_ends_the_loops_without_further_work() {
    let store = open_store();
    let sample = encode_event(b"/tmp/a", b"user.expire_at", b"10");
    store.insert(&CaptureStats::new().on_sample(&sample).unwrap()).unwrap();
    let (cleaner, action) = Cleaner::new().step(CleanerEvent::Wake { running: false, now: 20 });
    assert_eq!(action, CleanerAction::Stop);
    let (_, action) = cleaner.step(CleanerEvent::Wake { running: true, now: 21 });
    assert_eq!(action, CleanerAction::Stop);
    let (persister, action) = Persister::new(3).step(PersistEvent::Wake { running: false });
    assert_eq!(action, PersistAction::Stop);
    let (_, action) = persister.step(PersistEvent::Wake { running: true });
    assert_eq!(action, PersistAction::Stop);
    assert_eq!(store.list_due(20).unwrap().len(), 1);
}

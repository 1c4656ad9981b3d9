use torrent_flow::EngineAddOutcome;
use torrent_flow::RegisterOutcome;
use torrent_flow::Registry;
use torrent_flow::SessionError;
use torrent_flow::TransferState;

fn added(id: &str) -> EngineAddOutcome {
    EngineAddOutcome::Added { content_id: String::from(id) }
}

#[test]
fn start_twice_with_same_identifier_is_idempotent() {
    // Two starts with the same content identifier: one registry entry,
    // and both calls answer with the same underlying transfer.
    let mut reg = Registry::new();
    let first = reg.start(added("btih-aaaa")).unwrap();
    let second = reg.start(added("btih-aaaa")).unwrap();
    assert_eq!(reg.len(), 1);
    assert_eq!(first, RegisterOutcome::Added { index: 0 });
    assert_eq!(second, RegisterOutcome::Existing { index: 0 });
    assert_eq!(first.index(), second.index());
}

#[test]
fn distinct_starts_register_every_identifier() {
    // Five starts with distinct identifiers: five entries, none lost,
    // none duplicated, each one findable afterwards.
    let mut reg = Registry::new();
    let ids = ["id-1", "id-2", "id-3", "id-4", "id-5"];
    for (k, id) in ids.iter().enumerate() {
        let outcome = reg.start(added(id)).unwrap();
        assert_eq!(outcome, RegisterOutcome::Added { index: k });
    }
    assert_eq!(reg.len(), 5);
    for (k, id) in ids.iter().enumerate() {
        assert_eq!(reg.find(id), Some(k));
    }
    assert_eq!(reg.find("id-6"), None);
}

#[test]
fn start_rejected_by_engine_fails_and_changes_nothing() {
    let mut reg = Registry::new();
    reg.start(added("id-1")).unwrap();
    let err = reg.start(EngineAddOutcome::Rejected).unwrap_err();
    assert_eq!(err, SessionError::EngineAddFailed);
    assert_eq!(reg.len(), 1);
    assert_eq!(err.describe(), "the transfer engine rejected the identifier");
}

#[test]
fn resume_with_one_invalid_record_starts_the_rest() {
    // Four persisted records, one pointing at an identifier the engine
    // rejects: three transfers start, the failure is skipped.
    let mut reg = Registry::new();
    let outcomes = vec![
        added("r-1"),
        added("r-2"),
        EngineAddOutcome::Rejected,
        added("r-4"),
    ];
    let count = reg.resume_all(&outcomes);
    assert_eq!(count, 3);
    assert_eq!(reg.len(), 3);
    assert!(reg.find("r-1").is_some());
    assert!(reg.find("r-2").is_some());
    assert!(reg.find("r-4").is_some());
}

#[test]
fn resume_counts_a_repeated_identifier_as_started() {
    // A repeat is an idempotent start that answers with the existing
    // entry: it counts as started but adds no second entry.
    let mut reg = Registry::new();
    let outcomes = vec![added("r-1"), added("r-1")];
    let count = reg.resume_all(&outcomes);
    assert_eq!(count, 2);
    assert_eq!(reg.len(), 1);
}

#[test]
fn status_shows_running_right_after_start() {
    // The scenario around a start into /tmp/d: as soon as `start`
    // returns, the status view reports the transfer as running.
    let mut reg = Registry::new();
    let outcome = reg.start(added("btih-live")).unwrap();
    let snaps = reg.status_all();
    assert_eq!(snaps.len(), 1);
    assert_eq!(snaps[outcome.index()].content_id, "btih-live");
    assert_eq!(snaps[outcome.index()].state, TransferState::Running);
}

#[test]
fn watcher_reports_drive_transfers_to_terminal_states() {
    let mut reg = Registry::new();
    reg.start(added("done")).unwrap();
    reg.start(added("broken")).unwrap();
    reg.start(added("still-going")).unwrap();
    reg.mark_completed(0);
    reg.mark_failed(1);
    let snaps = reg.status_all();
    assert_eq!(snaps.len(), 3);
    assert_eq!(snaps[0].state, TransferState::Completed);
    assert_eq!(snaps[1].state, TransferState::Failed);
    assert_eq!(snaps[2].state, TransferState::Running);
    // Terminal states remain queryable.
    assert_eq!(reg.state_of(0), TransferState::Completed);
    assert_eq!(reg.state_of(1), TransferState::Failed);
}

#[test]
fn status_all_lists_entries_in_registry_order() {
    let mut reg = Registry::new();
    reg.start(added("first")).unwrap();
    reg.start(added("second")).unwrap();
    let snaps = reg.status_all();
    assert_eq!(snaps.len(), 2);
    assert_eq!(snaps[0].content_id, "first");
    assert_eq!(snaps[1].content_id, "second");
}

#[test]
fn empty_registry_has_empty_status() {
    let reg = Registry::new();
    assert_eq!(reg.len(), 0);
    assert!(reg.status_all().is_empty());
    assert_eq!(reg.find("anything"), None);
}

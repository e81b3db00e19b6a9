use memory_broker::delete_keys::{DeleteKeysTask, DeleteKeysTaskMap, HostDBMap, LeftSlots};
use memory_broker::meta_store::{MetaStore, MetaStoreError, NodeSlots};
use memory_broker::scan::{keys_to_delete, ScanAction, ScanEvent, ScanState};
use memory_broker::slots::{SlotRange, SlotRangeArray};
use std::sync::Arc;

fn left(db: &str, address: &str, slots: Vec<SlotRange>) -> LeftSlots {
    LeftSlots { db: db.to_string(), address: address.to_string(), slots }
}

#[test]
fn new_task_for_relinquished_slots() {
    let map = DeleteKeysTaskMap::new();
    let view = HostDBMap::new(vec![("db0".to_string(), "10.0.0.1:6379".to_string())]);
    let change = vec![left("db0", "10.0.0.1:6379", vec![SlotRange { start: 0, end: 50 }])];
    let (map, tasks) = map.update_from_old_task_map(&view, change);
    assert_eq!(tasks.len(), 1);
    assert_eq!(tasks[0].get_address(), "10.0.0.1:6379");
    assert_eq!(tasks[0].slot_ranges.ranges, vec![SlotRange { start: 0, end: 50 }]);
    assert_eq!(map.entries.len(), 1);
    assert_eq!(map.entries[0].db, "db0");
    assert!(Arc::ptr_eq(&map.entries[0].task, &tasks[0]));
}

#[test]
fn rebuild_carries_tasks_and_drops_stale_ones() {
    let map = DeleteKeysTaskMap::new();
    let view = HostDBMap::new(vec![
        ("db0".to_string(), "a:1".to_string()),
        ("db1".to_string(), "b:1".to_string()),
    ]);
    let change = vec![
        left("db0", "a:1", vec![SlotRange { start: 0, end: 10 }]),
        left("db1", "b:1", vec![SlotRange { start: 20, end: 30 }]),
    ];
    let (first, created) = map.update_from_old_task_map(&view, change);
    assert_eq!(created.len(), 2);

    // db1/b:1 is gone from the new view; db0/a:1 stays with no new slots.
    let view2 = HostDBMap::new(vec![("db0".to_string(), "a:1".to_string())]);
    let (second, none) = first.update_from_old_task_map(&view2, vec![]);
    let (third, none2) = first.update_from_old_task_map(&view2, vec![]);
    assert!(none.is_empty() && none2.is_empty());
    assert_eq!(second.entries.len(), 1);
    assert_eq!(third.entries.len(), 1);
    assert!(Arc::ptr_eq(&second.entries[0].task, &created[0]));
    assert!(Arc::ptr_eq(&second.entries[0].task, &third.entries[0].task));
}

#[test]
fn rebuild_replaces_task_for_renewed_pair() {
    let view = HostDBMap::new(vec![("db0".to_string(), "a:1".to_string())]);
    let (first, created) = DeleteKeysTaskMap::new()
        .update_from_old_task_map(&view, vec![left("db0", "a:1", vec![SlotRange { start: 0, end: 10 }])]);
    let (second, renewed) =
        first.update_from_old_task_map(&view, vec![left("db0", "a:1", vec![SlotRange { start: 5, end: 6 }])]);
    assert_eq!(second.entries.len(), 1);
    assert!(!Arc::ptr_eq(&second.entries[0].task, &created[0]));
    assert!(Arc::ptr_eq(&second.entries[0].task, &renewed[0]));
}

#[test]
fn start_gives_the_job_once() {
    let mut task = DeleteKeysTask::new("a:1".to_string(), vec![SlotRange { start: 0, end: 1 }]);
    assert_eq!(task.start(), Some(ScanState::Scanning { cursor: 0 }));
    assert_eq!(task.start(), None);
}

#[test]
fn only_keys_outside_ranges_are_deleted() {
    // slot("foo") == 12182, slot("bar") == 5061
    let ranges = SlotRangeArray::new(vec![SlotRange { start: 12000, end: 13000 }]);
    let keys = vec![b"foo".to_vec(), b"bar".to_vec()];
    assert_eq!(keys_to_delete(&ranges, &keys), vec![b"bar".to_vec()]);
    assert!(keys_to_delete(&ranges, &vec![b"foo".to_vec()]).is_empty());
    assert!(keys_to_delete(&ranges, &vec![]).is_empty());
}

#[test]
fn scan_reply_leads_to_delete_of_outside_keys() {
    let ranges = SlotRangeArray::new(vec![SlotRange { start: 12000, end: 13000 }]);
    let (state, action) = ScanState::start(10);
    assert!(matches!(action, ScanAction::Scan { cursor: 0, count: 10 }));
    let event = ScanEvent::Scanned { next_cursor: 0, keys: vec![b"foo".to_vec(), b"bar".to_vec()] };
    let (state, action) = state.step(event, &ranges, 10, 500);
    assert_eq!(state, ScanState::Deleting { cursor: 0, next_cursor: 0 });
    match action {
        ScanAction::Delete { keys } => assert_eq!(keys, vec![b"bar".to_vec()]),
        other => panic!("unexpected action {:?}", other),
    }
    let (state, action) = state.step(ScanEvent::Deleted, &ranges, 10, 500);
    assert_eq!(state, ScanState::Done);
    assert!(matches!(action, ScanAction::Finish));
}

#[test]
fn failed_attempt_backs_off_then_deletes_once() {
    let ranges = SlotRangeArray::new(vec![SlotRange { start: 12000, end: 13000 }]);
    let mut deletes = 0;
    let (state, _) = ScanState::start(10);
    let (state, action) = state.step(ScanEvent::Failed, &ranges, 10, 700);
    assert!(matches!(action, ScanAction::Wait { micros: 700 }));
    let (state, action) = state.step(ScanEvent::Waited, &ranges, 10, 700);
    assert!(matches!(action, ScanAction::Scan { cursor: 0, count: 10 }));
    let event = ScanEvent::Scanned { next_cursor: 7, keys: vec![b"bar".to_vec()] };
    let (state, action) = state.step(event, &ranges, 10, 700);
    if let ScanAction::Delete { .. } = action {
        deletes += 1;
    }
    let (state, action) = state.step(ScanEvent::Deleted, &ranges, 10, 700);
    assert!(matches!(action, ScanAction::Scan { cursor: 7, count: 10 }));
    let event = ScanEvent::Scanned { next_cursor: 0, keys: vec![b"foo".to_vec()] };
    let (state, action) = state.step(event, &ranges, 10, 700);
    assert!(matches!(action, ScanAction::Finish));
    assert_eq!(state, ScanState::Done);
    assert_eq!(deletes, 1);
}

#[test]
fn failed_delete_rescans_the_batch() {
    let ranges = SlotRangeArray::new(vec![]);
    let state = ScanState::Scanning { cursor: 3 };
    let event = ScanEvent::Scanned { next_cursor: 9, keys: vec![b"x".to_vec()] };
    let (state, _) = state.step(event, &ranges, 1, 1);
    let (state, _) = state.step(ScanEvent::Failed, &ranges, 1, 1);
    assert_eq!(state, ScanState::Backoff { cursor: 3 });
}

#[test]
fn stop_ends_the_loop() {
    let ranges = SlotRangeArray::new(vec![]);
    let (state, _) = ScanState::start(10);
    let (state, action) = state.step(ScanEvent::Stopped, &ranges, 10, 1);
    assert_eq!(state, ScanState::Canceled);
    assert!(matches!(action, ScanAction::Cancel));
    let event = ScanEvent::Scanned { next_cursor: 5, keys: vec![b"k".to_vec()] };
    let (state, action) = state.step(event, &ranges, 10, 1);
    assert_eq!(state, ScanState::Canceled);
    assert!(matches!(action, ScanAction::Cancel));
    let (_, action) = state.step(ScanEvent::Waited, &ranges, 10, 1);
    assert!(matches!(action, ScanAction::Cancel));
}

#[test]
fn update_checks_the_epoch() {
    let mut store = MetaStore::new();
    let nodes = vec![NodeSlots {
        db: "db0".to_string(),
        address: "10.0.0.1:6379".to_string(),
        ranges: vec![SlotRange { start: 0, end: 100 }],
    }];
    assert_eq!(store.update(0, nodes), Ok(1));
    assert_eq!(store.get_epoch(), 1);
    assert_eq!(store.update(0, vec![]), Err(MetaStoreError::StaleEpoch));
    assert_eq!(store.get_epoch(), 1);
    assert_eq!(store.nodes.len(), 1);
    assert_eq!(store.update(1, vec![]), Ok(2));
    assert!(store.nodes.is_empty());
}

#[test]
fn task_map_text() {
    assert_eq!(DeleteKeysTaskMap::new().info(), "deleting_tasks:");
    let view = HostDBMap::new(vec![]);
    let change = vec![
        left("db0", "10.0.0.1:6379", vec![SlotRange { start: 0, end: 50 }]),
        left("db1", "10.0.0.2:6379", vec![SlotRange { start: 1, end: 2 }, SlotRange { start: 7, end: 9 }]),
    ];
    let (map, _) = DeleteKeysTaskMap::new().update_from_old_task_map(&view, change);
    assert_eq!(
        map.info(),
        "deleting_tasks:db0-10.0.0.1:6379-(0-50),db1-10.0.0.2:6379-(1-2,7-9)"
    );
}

#[test]
fn moving_a_range_between_nodes() {
    let mut store = MetaStore::new();
    let db = "db0".to_string();
    let a = "10.0.0.1:6379".to_string();
    let b = "10.0.0.2:6379".to_string();
    let nodes = vec![NodeSlots { db: db.clone(), address: a.clone(), ranges: vec![SlotRange { start: 0, end: 100 }] }];
    assert_eq!(store.update(0, nodes), Ok(1));
    assert_eq!(store.move_range(1, &db, &a, &b, SlotRange { start: 0, end: 50 }), Ok(2));
    assert_eq!(store.nodes.len(), 2);
    assert_eq!(store.nodes[0].ranges, vec![SlotRange { start: 51, end: 100 }]);
    assert_eq!(store.nodes[1].address, b);
    assert_eq!(store.nodes[1].ranges, vec![SlotRange { start: 0, end: 50 }]);

    // Stale epoch, slots not owned, and a move onto itself are refused without change.
    assert_eq!(
        store.move_range(1, &db, &a, &b, SlotRange { start: 60, end: 70 }),
        Err(MetaStoreError::StaleEpoch)
    );
    assert_eq!(
        store.move_range(2, &db, &a, &b, SlotRange { start: 0, end: 10 }),
        Err(MetaStoreError::InvalidTransition)
    );
    assert_eq!(
        store.move_range(2, &db, &a, &a, SlotRange { start: 60, end: 70 }),
        Err(MetaStoreError::InvalidTransition)
    );
    assert_eq!(
        store.move_range(2, &"db1".to_string(), &a, &b, SlotRange { start: 60, end: 70 }),
        Err(MetaStoreError::InvalidTransition)
    );
    assert_eq!(store.get_epoch(), 2);
    assert_eq!(store.nodes[0].ranges, vec![SlotRange { start: 51, end: 100 }]);

    // Moving back appends to the existing entry of the destination.
    assert_eq!(store.move_range(2, &db, &b, &a, SlotRange { start: 10, end: 20 }), Ok(3));
    assert_eq!(store.nodes.len(), 2);
    assert_eq!(store.nodes[0].ranges, vec![SlotRange { start: 51, end: 100 }, SlotRange { start: 10, end: 20 }]);
    assert_eq!(
        store.nodes[1].ranges,
        vec![SlotRange { start: 0, end: 9 }, SlotRange { start: 21, end: 50 }]
    );

    // The old owner's task keeps the slots it still serves and deletes the rest.
    let view = HostDBMap::new(vec![(db.clone(), a.clone())]);
    let kept = store.nodes[0].ranges.clone();
    let (_, tasks) = DeleteKeysTaskMap::new().update_from_old_task_map(&view, vec![left("db0", "10.0.0.1:6379", kept)]);
    assert!(tasks[0].slot_ranges.is_key_inside(b"123456789") == false);
}

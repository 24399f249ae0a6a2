use hydrocomplete_dag::history::{History, HISTORY_LIMIT};

#[test]
fn undo_and_redo_walk_the_history() {
    let mut h: History<u32> = History::new();
    let mut cur = 0u32;
    assert!(!h.can_undo());
    assert!(!h.undo(&mut cur));
    assert_eq!(cur, 0);
    h.push_snapshot(cur);
    cur = 1;
    h.push_snapshot(cur);
    cur = 2;
    assert!(h.undo(&mut cur));
    assert_eq!(cur, 1);
    assert!(h.can_redo());
    assert!(h.undo(&mut cur));
    assert_eq!(cur, 0);
    assert!(!h.undo(&mut cur));
    assert!(h.redo(&mut cur));
    assert!(h.redo(&mut cur));
    assert_eq!(cur, 2);
    assert!(!h.redo(&mut cur));
}

#[test]
fn new_snapshot_clears_redo() {
    let mut h: History<u32> = History::new();
    let mut cur = 5u32;
    h.push_snapshot(cur);
    cur = 6;
    assert!(h.undo(&mut cur));
    assert!(h.can_redo());
    h.push_snapshot(cur);
    assert!(!h.can_redo());
}

#[test]
fn history_keeps_at_most_limit_snapshots() {
    let mut h: History<usize> = History::new();
    let mut cur = 0usize;
    for i in 0..(HISTORY_LIMIT + 10) {
        h.push_snapshot(i);
        cur = i + 1;
    }
    let mut undone = 0;
    while h.undo(&mut cur) {
        undone += 1;
    }
    assert_eq!(undone, HISTORY_LIMIT);
    // the oldest kept snapshot is the one recorded 50 steps back
    assert_eq!(cur, 10);
}

#[test]
fn release_records_the_right_step() {
    let mut h: History<u32> = History::new();
    // a click that moved nothing records nothing
    assert!(!h.record_release(false, Some(1), false, 2));
    assert!(!h.can_undo());
    // a drag that moved records the model from when the drag started
    assert!(h.record_release(false, Some(1), true, 2));
    let mut cur = 3u32;
    assert!(h.undo(&mut cur));
    assert_eq!(cur, 1);
    // a structural change records the model just before the release
    assert!(h.record_release(true, None, false, 7));
    assert!(h.undo(&mut cur));
    assert_eq!(cur, 7);
}

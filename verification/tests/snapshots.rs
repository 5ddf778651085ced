use revisionstore::{
    plan_snapshot_update, HgChangesetId, HgId, SnapshotStep, SnapshotUpdate, SnapshotWrite,
    WorkspaceSnapshot,
};

fn id(b: u8) -> HgId {
    HgId([b; 20])
}

#[test]
fn deletion_comes_before_insertions() {
    let writes = plan_snapshot_update(vec![id(1), id(2)], vec![id(3), id(4)]);
    assert_eq!(writes.len(), 3);
    match &writes[0] {
        SnapshotWrite::Delete(args) => {
            assert_eq!(
                args.removed_commits,
                vec![HgChangesetId(id(3)), HgChangesetId(id(4))]
            );
        }
        SnapshotWrite::Insert(_) => panic!("expected the deletion first"),
    }
    for (write, b) in writes[1..].iter().zip([1u8, 2u8]) {
        match write {
            SnapshotWrite::Insert(s) => {
                assert_eq!(s, &WorkspaceSnapshot { commit: HgChangesetId(id(b)) })
            }
            SnapshotWrite::Delete(_) => panic!("expected an insertion"),
        }
    }
}

#[test]
fn nothing_removed_means_no_deletion() {
    let writes = plan_snapshot_update(vec![id(5)], vec![]);
    assert_eq!(writes.len(), 1);
    assert!(matches!(&writes[0], SnapshotWrite::Insert(s) if s.commit == HgChangesetId(id(5))));
}

#[test]
fn nothing_to_do_plans_nothing() {
    assert!(plan_snapshot_update(vec![], vec![]).is_empty());
}

#[test]
fn removal_only_plans_one_deletion() {
    let writes = plan_snapshot_update(vec![], vec![id(8)]);
    assert_eq!(writes.len(), 1);
    assert!(matches!(&writes[0], SnapshotWrite::Delete(a) if a.removed_commits == vec![HgChangesetId(id(8))]));
}

#[test]
fn changeset_from_node_hash() {
    assert_eq!(HgChangesetId::from_hg_id(id(9)), HgChangesetId(id(9)));
}

#[test]
fn update_steps_through_the_plan() {
    let mut update = SnapshotUpdate::new(vec![id(1)], vec![id(2)]);
    assert!(matches!(update.next(Ok(())), SnapshotStep::Write(SnapshotWrite::Delete(a)) if a.removed_commits == vec![HgChangesetId(id(2))]));
    assert!(matches!(update.next(Ok(())), SnapshotStep::Write(SnapshotWrite::Insert(s)) if s.commit == HgChangesetId(id(1))));
    assert!(matches!(update.next(Ok(())), SnapshotStep::Finished(Ok(()))));
}

#[test]
fn update_stops_at_the_first_failed_write() {
    let mut update = SnapshotUpdate::new(vec![id(1), id(3)], vec![]);
    assert!(matches!(update.next(Ok(())), SnapshotStep::Write(SnapshotWrite::Insert(s)) if s.commit == HgChangesetId(id(1))));
    match update.next(Err(anyhow::Error::msg("db down"))) {
        SnapshotStep::Finished(Err(e)) => assert_eq!(e.to_string(), "db down"),
        _ => panic!("expected the update to end with the error"),
    }
}

#[test]
fn update_with_nothing_to_do_finishes_at_once() {
    let mut update = SnapshotUpdate::new(vec![], vec![]);
    assert!(matches!(update.next(Ok(())), SnapshotStep::Finished(Ok(()))));
}

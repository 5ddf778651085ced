//! The snapshots of a commit-cloud workspace, and the order in which an update
//! of them is carried out.
use vstd::prelude::*;

verus! {

/// A Mercurial node hash.
#[derive(Clone, Copy, Debug, PartialEq, Eq, Hash)]
pub struct HgId(pub [u8; 20]);

/// The hash of a Mercurial changeset.
#[derive(Clone, Copy, Debug, PartialEq, Eq, Hash)]
pub struct HgChangesetId(pub HgId);

impl HgChangesetId {
    /// The changeset whose node hash is `id`.
    pub fn from_hg_id(id: HgId) -> (r: HgChangesetId)
        ensures
            r == HgChangesetId(id),
    {
        HgChangesetId(id)
    }
}

/// A commit saved as a snapshot of a workspace.
#[derive(Clone, Debug, PartialEq)]
pub struct WorkspaceSnapshot {
    pub commit: HgChangesetId,
}

/// The snapshots to remove from a workspace.
pub struct DeleteArgs {
    pub removed_commits: Vec<HgChangesetId>,
}

/// One write to the snapshots of a workspace.
pub enum SnapshotWrite {
    Delete(DeleteArgs),
    Insert(WorkspaceSnapshot),
}

/// The changesets of the given node hashes.
pub open spec fn changesets(ids: Seq<HgId>) -> Seq<HgChangesetId> {
    ids.map_values(|id: HgId| HgChangesetId(id))
}

/// How many deletions an update makes: one where anything is removed.
pub open spec fn deletion_count(removed: Seq<HgId>) -> int {
    if removed.len() > 0 {
        1
    } else {
        0
    }
}

/// `writes` updates the snapshots of a workspace, in order: one deletion of all
/// of `removed`, where there is any, then one insertion for each of `added`, in order.
pub open spec fn is_snapshot_plan(writes: Seq<SnapshotWrite>, added: Seq<HgId>, removed: Seq<HgId>) -> bool {
    &&& writes.len() == deletion_count(removed) + added.len()
    &&& removed.len() > 0 ==> (writes[0] matches SnapshotWrite::Delete(args) && args.removed_commits@
        == changesets(removed))
    &&& forall|i: int|
        0 <= i < added.len() ==> writes[deletion_count(removed) + i] == SnapshotWrite::Insert(
            WorkspaceSnapshot { commit: HgChangesetId(#[trigger] added[i]) },
        )
}

/// The writes that update the snapshots of a workspace, in the order in which
/// they are to be made: one deletion of all of `removed_snapshots`, where there
/// is any, then one insertion for each of `new_snapshots`, in order.
pub fn plan_snapshot_update(new_snapshots: Vec<HgId>, removed_snapshots: Vec<HgId>) -> (r: Vec<
    SnapshotWrite,
>)
    ensures
        is_snapshot_plan(r@, new_snapshots@, removed_snapshots@),
{
    let mut writes: Vec<SnapshotWrite> = Vec::new();
    if removed_snapshots.len() > 0 {
        let mut removed_commits: Vec<HgChangesetId> = Vec::new();
        for i in 0..removed_snapshots.len()
            invariant
                removed_commits@ == changesets(removed_snapshots@.take(i as int)),
        {
            removed_commits.push(HgChangesetId::from_hg_id(removed_snapshots[i]));
            proof {
                assert(changesets(removed_snapshots@.take(i + 1)) =~= changesets(
                    removed_snapshots@.take(i as int),
                ).push(HgChangesetId(removed_snapshots@[i as int])));
            }
        }
        proof {
            assert(removed_snapshots@.take(removed_snapshots@.len() as int) =~= removed_snapshots@);
        }
        writes.push(SnapshotWrite::Delete(DeleteArgs { removed_commits }));
    }
    let ghost deletes = writes@.len();
    for i in 0..new_snapshots.len()
        invariant
            deletes == deletion_count(removed_snapshots@),
            writes@.len() == deletes + i,
            removed_snapshots@.len() > 0 ==> (writes@[0] matches SnapshotWrite::Delete(args)
                && args.removed_commits@ == changesets(removed_snapshots@)),
            forall|j: int|
                0 <= j < i ==> writes@[deletes + j] == SnapshotWrite::Insert(
                    WorkspaceSnapshot { commit: HgChangesetId(#[trigger] new_snapshots@[j]) },
                ),
    {
        let commit = HgChangesetId::from_hg_id(new_snapshots[i]);
        writes.push(SnapshotWrite::Insert(WorkspaceSnapshot { commit }));
    }
    writes
}


/// What an update asks for next: a write to make, or the end of the update
/// with its outcome.
pub enum SnapshotStep {
    Write(SnapshotWrite),
    Finished(Result<(), anyhow::Error>),
}

/// An update of the snapshots of a workspace, in progress: the writes still to
/// make, next one last.
pub struct SnapshotUpdate {
    pending_rev: Vec<SnapshotWrite>,
}

impl SnapshotUpdate {
    /// The writes still to make, next one first.
    pub closed spec fn remaining(&self) -> Seq<SnapshotWrite> {
        Seq::new(self.pending_rev@.len(), |i: int| self.pending_rev@[self.pending_rev@.len() - 1 - i])
    }

    /// The update that removes `removed_snapshots` and adds `new_snapshots`,
    /// with every write of `plan_snapshot_update` still to make.
    pub fn new(new_snapshots: Vec<HgId>, removed_snapshots: Vec<HgId>) -> (r: SnapshotUpdate)
        ensures
            is_snapshot_plan(r.remaining(), new_snapshots@, removed_snapshots@),
    {
        let mut plan = plan_snapshot_update(new_snapshots, removed_snapshots);
        let ghost p0 = plan@;
        let mut pending_rev: Vec<SnapshotWrite> = Vec::new();
        while plan.len() > 0
            invariant
                plan@ == p0.take(plan@.len() as int),
                plan@.len() <= p0.len(),
                pending_rev@.len() == p0.len() - plan@.len(),
                forall|j: int|
                    0 <= j < pending_rev@.len() ==> #[trigger] pending_rev@[j] == p0[p0.len() - 1 - j],
            decreases plan@.len(),
        {
            match plan.pop() {
                Some(w) => {
                    pending_rev.push(w);
                    proof {
                        assert(plan@ =~= p0.take(plan@.len() as int));
                    }
                },
                None => {},
            }
        }
        let r = SnapshotUpdate { pending_rev };
        proof {
            assert(r.remaining() =~= p0);
        }
        r
    }

    /// The next step of the update, given how the last write went (`Ok` before
    /// the first one): after a failed write the update ends with that error;
    /// otherwise the next write is made, and when none is left the update ends
    /// with `Ok`.
    pub fn next(&mut self, last: Result<(), anyhow::Error>) -> (step: SnapshotStep)
        ensures
            match last {
                Err(e) => step == SnapshotStep::Finished(Err(e)) && final(self).remaining()
                    == old(self).remaining(),
                Ok(()) => if old(self).remaining().len() == 0 {
                    step == SnapshotStep::Finished(Ok(())) && final(self).remaining()
                        == old(self).remaining()
                } else {
                    step == SnapshotStep::Write(old(self).remaining()[0]) && final(self).remaining()
                        == old(self).remaining().drop_first()
                },
            },
    {
        match last {
            Err(e) => SnapshotStep::Finished(Err(e)),
            Ok(()) => match self.pending_rev.pop() {
                Some(w) => {
                    proof {
                        assert(self.remaining() =~= old(self).remaining().drop_first());
                    }
                    SnapshotStep::Write(w)
                },
                None => SnapshotStep::Finished(Ok(())),
            },
        }
    }
}

} // verus!

//! What applying an operation and rolling it back do to the files and the
//! index, when every action the steps ask for succeeds as the file system
//! allows it.
use crate::models::ReorgOperation;
use crate::reorganizer::executor::{spec_apply_step, ActionView, EventView, OpStage};
use crate::reorganizer::rollback::spec_rollback_step;
use vstd::prelude::*;

verus! {

/// The files on disk, by path with their sizes, and the index: the path
/// each file id is recorded at.
pub ghost struct Disk {
    pub files: Map<Seq<char>, u64>,
    pub index: Map<i64, Seq<char>>,
}

/// The file id recorded at `path`, if some file is.
pub open spec fn registered_to(index: Map<i64, Seq<char>>, path: Seq<char>) -> Option<i64> {
    if exists|id: i64| index.contains_key(id) && index[id] == path {
        Some(choose|id: i64| index.contains_key(id) && index[id] == path)
    } else {
        None
    }
}

/// The files after the file at `from` was moved to `to`.
pub open spec fn move_file(files: Map<Seq<char>, u64>, from: Seq<char>, to: Seq<char>) -> Map<
    Seq<char>,
    u64,
> {
    files.remove(from).insert(to, files[from])
}

/// Performing `action` on `d` while applying (`forward`) or rolling back
/// `op`, the run being about to wait in `next`: the disk afterwards and
/// what is observed. A move succeeds when the file is there and its target
/// is free; the other actions succeed.
pub open spec fn perform(
    d: Disk,
    op: ReorgOperation,
    forward: bool,
    next: OpStage,
    action: ActionView,
) -> (Disk, EventView) {
    let (from, to) = if forward {
        (op.source_path@, op.dest_path@)
    } else {
        (op.dest_path@, op.source_path@)
    };
    match action {
        ActionView::ReadSourceSize => (
            d,
            if d.files.contains_key(op.source_path@) {
                EventView::SourceSize(Ok(d.files[op.source_path@]))
            } else {
                EventView::SourceSize(Err(Seq::empty()))
            },
        ),
        ActionView::CheckDestination => (d, EventView::Exists(d.files.contains_key(op.dest_path@))),
        ActionView::CheckOriginal => (d, EventView::Exists(d.files.contains_key(op.source_path@))),
        ActionView::LookupRegistration => (
            d,
            EventView::Registered(registered_to(d.index, op.dest_path@)),
        ),
        ActionView::MakeDirectory => (d, EventView::DirectoryMade(Ok(()))),
        ActionView::Rename | ActionView::CopyVerifyDelete(_) => if d.files.contains_key(from)
            && !d.files.contains_key(to) {
            (
                Disk { files: move_file(d.files, from, to), index: d.index },
                if next == OpStage::Copy {
                    EventView::Copied(Ok(()))
                } else {
                    EventView::Moved(Ok(()))
                },
            )
        } else {
            (
                d,
                if next == OpStage::Copy {
                    EventView::Copied(Err(Seq::empty()))
                } else {
                    EventView::Moved(Err((false, Seq::empty())))
                },
            )
        },
        ActionView::HashFile => (d, EventView::Checksum(Ok(Seq::empty()))),
        ActionView::RecordPath => (
            Disk { files: d.files, index: d.index.insert(op.file_id, to) },
            EventView::Recorded(Ok(())),
        ),
        ActionView::RevertAndFail(_) => if d.files.contains_key(to) && !d.files.contains_key(
            from,
        ) {
            (Disk { files: move_file(d.files, to, from), index: d.index }, EventView::Started)
        } else {
            (d, EventView::Started)
        },
        _ => (d, EventView::Started),
    }
}

/// Runs the steps of applying (`forward`) or rolling back `op` from
/// `stage`, having observed `event`, for at most `fuel` more steps: the
/// disk at the end and the last action.
pub open spec fn run(
    op: ReorgOperation,
    allow_cross: bool,
    forward: bool,
    stage: OpStage,
    event: EventView,
    d: Disk,
    fuel: nat,
) -> (Disk, ActionView)
    decreases fuel,
{
    let (next, action) = if forward {
        spec_apply_step(op, allow_cross, stage, event)
    } else {
        spec_rollback_step(op, stage, event)
    };
    let (d2, e2) = perform(d, op, forward, next, action);
    if next == OpStage::Done || fuel == 0 {
        (d2, action)
    } else {
        run(op, allow_cross, forward, next, e2, d2, (fuel - 1) as nat)
    }
}

/// A disk on which `op` can be applied: its source is there with its
/// planned size, its destination is free on disk and in the index, and the
/// index records the file at its source.
pub open spec fn ready_to_apply(d: Disk, op: ReorgOperation) -> bool {
    &&& d.files.contains_key(op.source_path@)
    &&& d.files[op.source_path@] == op.size_bytes as u64
    &&& !d.files.contains_key(op.dest_path@)
    &&& registered_to(d.index, op.dest_path@) is None
    &&& d.index.contains_key(op.file_id)
    &&& d.index[op.file_id] == op.source_path@
}

/// Applying an operation on a disk ready for it completes it, leaving the
/// file at its destination and the index recording it there; rolling it
/// back then marks it rolled back and gives back the disk and the index
/// exactly as they were.
pub proof fn lemma_rollback_undoes_apply(d: Disk, op: ReorgOperation, allow_cross: bool)
    requires
        ready_to_apply(d, op),
    ensures
        ({
            let (d1, a1) = run(op, allow_cross, true, OpStage::Start, EventView::Started, d, 10);
            let (d2, a2) = run(op, allow_cross, false, OpStage::Start, EventView::Started, d1, 10);
            &&& a1 == ActionView::Complete("completed"@)
            &&& d1.files == move_file(d.files, op.source_path@, op.dest_path@)
            &&& d1.index == d.index.insert(op.file_id, op.dest_path@)
            &&& a2 == ActionView::Complete("rolled_back"@)
            &&& d2 == d
        }),
{
    reveal_with_fuel(run, 8);
    let src = op.source_path@;
    let dst = op.dest_path@;
    assert(src != dst);
    let d1 = Disk { files: move_file(d.files, src, dst), index: d.index.insert(op.file_id, dst) };
    assert(run(op, allow_cross, true, OpStage::Start, EventView::Started, d, 10) == (
        d1,
        ActionView::Complete("completed"@),
    ));
    assert(d1.files.contains_key(dst) && !d1.files.contains_key(src));
    let d2 = Disk {
        files: move_file(d1.files, dst, src),
        index: d1.index.insert(op.file_id, src),
    };
    assert(run(op, allow_cross, false, OpStage::Start, EventView::Started, d1, 10) == (
        d2,
        ActionView::Complete("rolled_back"@),
    ));
    assert(d2.files =~= d.files);
    assert(d2.index =~= d.index);
}


/// Applying an operation whose source is missing or not of its planned
/// size, or whose destination is taken on disk or recorded for another file
/// in the index, fails it and leaves the disk and the index as they were.
pub proof fn lemma_refused_apply_changes_nothing(d: Disk, op: ReorgOperation, allow_cross: bool)
    requires
        !d.files.contains_key(op.source_path@) || d.files[op.source_path@] != op.size_bytes as u64
            || d.files.contains_key(op.dest_path@) || (registered_to(d.index, op.dest_path@)
            matches Some(id) && id != op.file_id),
    ensures
        ({
            let (d1, a1) = run(op, allow_cross, true, OpStage::Start, EventView::Started, d, 10);
            &&& a1 is Fail
            &&& d1 == d
        }),
{
    reveal_with_fuel(run, 5);
}


/// Applying the operations of a job one after the other, in their order:
/// the disk at the end and the last action of each run.
pub open spec fn apply_job(ops: Seq<ReorgOperation>, allow_cross: bool, d: Disk) -> (
    Disk,
    Seq<ActionView>,
)
    decreases ops.len(),
{
    if ops.len() == 0 {
        (d, Seq::empty())
    } else {
        let (d1, acts) = apply_job(ops.drop_last(), allow_cross, d);
        let (d2, a) = run(ops.last(), allow_cross, true, OpStage::Start, EventView::Started, d1, 10);
        (d2, acts.push(a))
    }
}

/// Rolling back the operations of a job last first, the order in which a
/// rollback takes a job's completed operations: the disk at the end and the
/// last action of each run, in the order of the operations.
pub open spec fn rollback_job(ops: Seq<ReorgOperation>, d: Disk) -> (Disk, Seq<ActionView>)
    decreases ops.len(),
{
    if ops.len() == 0 {
        (d, Seq::empty())
    } else {
        let (d1, a) = run(ops.last(), false, false, OpStage::Start, EventView::Started, d, 10);
        let (d2, acts) = rollback_job(ops.drop_last(), d1);
        (d2, acts.push(a))
    }
}

/// The disk after every operation of `ops` moved its file and recorded its
/// new path.
pub open spec fn applied_disk(ops: Seq<ReorgOperation>, d: Disk) -> Disk
    decreases ops.len(),
{
    if ops.len() == 0 {
        d
    } else {
        let p = applied_disk(ops.drop_last(), d);
        let o = ops.last();
        Disk {
            files: move_file(p.files, o.source_path@, o.dest_path@),
            index: p.index.insert(o.file_id, o.dest_path@),
        }
    }
}

/// Two operations that share no path and no file.
pub open spec fn apart(a: ReorgOperation, b: ReorgOperation) -> bool {
    &&& a.source_path@ != b.source_path@
    &&& a.dest_path@ != b.dest_path@
    &&& a.source_path@ != b.dest_path@
    &&& a.dest_path@ != b.source_path@
    &&& a.file_id != b.file_id
}

/// A disk on which a job can be applied: each operation can be, and no two
/// share a path or a file.
pub open spec fn job_ready(d: Disk, ops: Seq<ReorgOperation>) -> bool {
    &&& forall|i: int| 0 <= i < ops.len() ==> ready_to_apply(d, #[trigger] ops[i])
    &&& forall|i: int, j: int|
        0 <= i < ops.len() && 0 <= j < ops.len() && i != j ==> apart(#[trigger] ops[i], #[trigger] ops[j])
}

/// Applying operations apart from `op` leaves the disk ready for `op`.
proof fn lemma_stays_ready(d: Disk, ops: Seq<ReorgOperation>, op: ReorgOperation)
    requires
        ready_to_apply(d, op),
        forall|j: int| 0 <= j < ops.len() ==> apart(op, #[trigger] ops[j]),
    ensures
        ready_to_apply(applied_disk(ops, d), op),
    decreases ops.len(),
{
    if ops.len() > 0 {
        let front = ops.drop_last();
        assert forall|j: int| 0 <= j < front.len() implies apart(op, #[trigger] front[j]) by {
            assert(front[j] == ops[j]);
        }
        lemma_stays_ready(d, front, op);
        let p = applied_disk(front, d);
        let o = ops.last();
        assert(apart(op, ops[ops.len() - 1]));
        let q = applied_disk(ops, d);
        assert(q.files.contains_key(op.source_path@));
        assert(q.files[op.source_path@] == p.files[op.source_path@]);
        assert(!q.files.contains_key(op.dest_path@));
        assert(!exists|id: i64| p.index.contains_key(id) && p.index[id] == op.dest_path@);
        assert forall|id: i64| q.index.contains_key(id) implies q.index[id] != op.dest_path@ by {
            if id != o.file_id {
                assert(q.index[id] == p.index[id]);
            }
        }
        assert(q.index[op.file_id] == p.index[op.file_id]);
    }
}

/// Applying a ready job completes every operation and gives the disk with
/// each file moved and recorded.
proof fn lemma_apply_job(d: Disk, ops: Seq<ReorgOperation>, allow_cross: bool)
    requires
        job_ready(d, ops),
    ensures
        apply_job(ops, allow_cross, d).0 == applied_disk(ops, d),
        apply_job(ops, allow_cross, d).1.len() == ops.len(),
        forall|i: int|
            0 <= i < ops.len() ==> #[trigger] apply_job(ops, allow_cross, d).1[i]
                == ActionView::Complete("completed"@),
    decreases ops.len(),
{
    if ops.len() > 0 {
        let front = ops.drop_last();
        let last = ops.last();
        assert(job_ready(d, front)) by {
            assert forall|i: int| 0 <= i < front.len() implies ready_to_apply(d, #[trigger] front[i]) by {
                assert(front[i] == ops[i]);
            }
            assert forall|i: int, j: int|
                0 <= i < front.len() && 0 <= j < front.len() && i != j implies apart(
                #[trigger] front[i],
                #[trigger] front[j],
            ) by {
                assert(front[i] == ops[i] && front[j] == ops[j]);
            }
        }
        lemma_apply_job(d, front, allow_cross);
        assert(ready_to_apply(d, ops[ops.len() - 1]));
        assert forall|j: int| 0 <= j < front.len() implies apart(last, #[trigger] front[j]) by {
            assert(front[j] == ops[j]);
            assert(apart(ops[ops.len() - 1], ops[j]));
        }
        let x = applied_disk(front, d);
        lemma_stays_ready(d, front, last);
        lemma_rollback_undoes_apply(x, last, allow_cross);
        let acts = apply_job(ops, allow_cross, d).1;
        let front_acts = apply_job(front, allow_cross, d).1;
        assert forall|i: int| 0 <= i < ops.len() implies #[trigger] acts[i]
            == ActionView::Complete("completed"@) by {
            if i < front.len() {
                assert(acts[i] == front_acts[i]);
            }
        }
    }
}

/// Rolling back, last first, the operations of a ready job after they were
/// applied marks each of them rolled back and gives back the disk it started
/// from.
proof fn lemma_rollback_job(d: Disk, ops: Seq<ReorgOperation>)
    requires
        job_ready(d, ops),
    ensures
        rollback_job(ops, applied_disk(ops, d)).0 == d,
        rollback_job(ops, applied_disk(ops, d)).1.len() == ops.len(),
        forall|i: int|
            0 <= i < ops.len() ==> #[trigger] rollback_job(ops, applied_disk(ops, d)).1[i]
                == ActionView::Complete("rolled_back"@),
    decreases ops.len(),
{
    if ops.len() > 0 {
        let front = ops.drop_last();
        let last = ops.last();
        assert(job_ready(d, front)) by {
            assert forall|i: int| 0 <= i < front.len() implies ready_to_apply(d, #[trigger] front[i]) by {
                assert(front[i] == ops[i]);
            }
            assert forall|i: int, j: int|
                0 <= i < front.len() && 0 <= j < front.len() && i != j implies apart(
                #[trigger] front[i],
                #[trigger] front[j],
            ) by {
                assert(front[i] == ops[i] && front[j] == ops[j]);
            }
        }
        lemma_rollback_job(d, front);
        assert(ready_to_apply(d, ops[ops.len() - 1]));
        assert forall|j: int| 0 <= j < front.len() implies apart(last, #[trigger] front[j]) by {
            assert(front[j] == ops[j]);
            assert(apart(ops[ops.len() - 1], ops[j]));
        }
        let x = applied_disk(front, d);
        lemma_stays_ready(d, front, last);
        lemma_rollback_undoes_apply(x, last, false);
        let y = applied_disk(ops, d);
        let fwd = run(last, false, true, OpStage::Start, EventView::Started, x, 10);
        assert(fwd.0.files == y.files && fwd.0.index == y.index);
        assert(fwd.0 == y);
        let acts = rollback_job(ops, y).1;
        let front_acts = rollback_job(front, x).1;
        assert forall|i: int| 0 <= i < ops.len() implies #[trigger] acts[i]
            == ActionView::Complete("rolled_back"@) by {
            if i < front.len() {
                assert(acts[i] == front_acts[i]);
            }
        }
    }
}

/// Applying every operation of a job, in order, on a disk ready for it, and
/// then rolling them all back, last first, completes each operation, then
/// marks each rolled back, and gives back every file and the index exactly
/// as they were.
pub proof fn lemma_rollback_undoes_job(d: Disk, ops: Seq<ReorgOperation>, allow_cross: bool)
    requires
        job_ready(d, ops),
    ensures
        ({
            let (d1, a1) = apply_job(ops, allow_cross, d);
            let (d2, a2) = rollback_job(ops, d1);
            &&& a1.len() == ops.len()
            &&& forall|i: int| 0 <= i < ops.len() ==> #[trigger] a1[i] == ActionView::Complete(
                "completed"@,
            )
            &&& d1 == applied_disk(ops, d)
            &&& a2.len() == ops.len()
            &&& forall|i: int| 0 <= i < ops.len() ==> #[trigger] a2[i] == ActionView::Complete(
                "rolled_back"@,
            )
            &&& d2 == d
        }),
{
    lemma_apply_job(d, ops, allow_cross);
    lemma_rollback_job(d, ops);
}

} // verus!

//! The decisions taken while an applied plan is rolled back: which jobs can
//! be, which operations are undone and in which order, and the steps of
//! moving one file back.
use crate::error::AlexandriaError;
use crate::models::ReorgOperation;
use crate::reorganizer::executor::{
    count_ok, count_true, message, operations_with_status, stage_rank, stopped, with_status, ActionView, EventView,
    JobCounters, OpAction, OpEvent, OpStage,
};
use crate::text::{append_i64, chars_eq, int_decimal, str_chars};
use vstd::prelude::*;

verus! {

/// The refusal of a job that is neither completed nor failed, if it is not.
pub open spec fn rollback_refusal(job_id: i64, status: Seq<char>) -> Option<Seq<char>> {
    if status == "completed"@ || status == "failed"@ {
        None
    } else {
        Some("Job "@ + int_decimal(job_id as int) + " cannot be rolled back from status "@ + status)
    }
}

/// Only a completed or failed job can be rolled back.
pub fn check_rollback_allowed(job_id: i64, status: &str) -> (r: Result<(), AlexandriaError>)
    ensures
        match r {
            Ok(()) => rollback_refusal(job_id, status@) is None,
            Err(AlexandriaError::BadRequest(m)) => rollback_refusal(job_id, status@) == Some(m@),
            Err(_) => false,
        },
{
    let sv = str_chars(status);
    let completed = str_chars("completed");
    let failed = str_chars("failed");
    if chars_eq(&sv, &completed) || chars_eq(&sv, &failed) {
        Ok(())
    } else {
        let mut msg = String::from_str("Job ");
        append_i64(&mut msg, job_id);
        msg.append(" cannot be rolled back from status ");
        msg.append(status);
        Err(AlexandriaError::BadRequest(msg))
    }
}

/// The operations a rollback undoes: the completed ones, last first.
pub fn rollback_order(ops: Vec<ReorgOperation>) -> (r: Vec<ReorgOperation>)
    ensures
        r@ == with_status(ops@, "completed"@).reverse(),
{
    let mut done = operations_with_status(ops, "completed");
    let ghost kept = done@;
    let n = done.len();
    let mut out: Vec<ReorgOperation> = Vec::new();
    let mut k: usize = 0;
    while k < n
        invariant
            n == kept.len(),
            k <= n,
            done@ == kept.take(n - k),
            out@ == kept.reverse().take(k as int),
        decreases n - k,
    {
        let op = done.pop().unwrap();
        assert(op == kept[n - 1 - k]);
        assert(done@ =~= kept.take(n - k - 1));
        out.push(op);
        k += 1;
        assert(out@ =~= kept.reverse().take(k as int));
    }
    assert(kept.reverse().take(n as int) =~= kept.reverse());
    out
}

/// The counters of a rolled back job. `results` holds, for each operation
/// undone, whether it was. The job is "rolled_back" when every one was, and
/// "partially_rolled_back" otherwise.
pub fn rollback_counters(results: &Vec<bool>) -> (r: JobCounters)
    requires
        results.len() <= i64::MAX,
    ensures
        r.rolled_back == count_true(results@),
        r.failed == results.len() - count_true(results@),
        r.total == results.len(),
        r.completed == 0,
        r.status@ == (if r.failed == 0 {
            "rolled_back"@
        } else {
            "partially_rolled_back"@
        }),
{
    let ok = count_ok(results);
    let rolled_back = ok as i64;
    let failed = (results.len() - ok) as i64;
    let status = if failed == 0 {
        String::from_str("rolled_back")
    } else {
        String::from_str("partially_rolled_back")
    };
    JobCounters { status, total: rolled_back + failed, completed: 0, failed, rolled_back }
}

/// One step of rolling back `op`, whose file sits at its destination: from
/// `stage`, having observed `event`, the run goes to the returned stage and
/// the caller performs the returned action. The file must still be at the
/// destination and nothing may be at the original path; the original's
/// directory is made (a failure stops the run without marking the
/// operation), the file is renamed back, or copied back with a check when the
/// rename would cross devices, and the original path is recorded. A failed
/// index update reverts the move. An event that does not belong to the stage
/// stops the run.
pub open spec fn spec_rollback_step(
    op: ReorgOperation,
    stage: OpStage,
    event: EventView,
) -> (OpStage, ActionView) {
    match stage {
        OpStage::Start => match event {
            EventView::Started => (OpStage::Destination, ActionView::CheckDestination),
            _ => stopped(),
        },
        OpStage::Destination => match event {
            EventView::Exists(false) => (
                OpStage::Done,
                ActionView::Fail("File no longer exists at destination: "@ + op.dest_path@),
            ),
            EventView::Exists(true) => (OpStage::Original, ActionView::CheckOriginal),
            _ => stopped(),
        },
        OpStage::Original => match event {
            EventView::Exists(true) => (
                OpStage::Done,
                ActionView::Fail(
                    "Original path already exists, cannot rollback: "@ + op.source_path@,
                ),
            ),
            EventView::Exists(false) => (OpStage::Directory, ActionView::MakeDirectory),
            _ => stopped(),
        },
        OpStage::Directory => match event {
            EventView::DirectoryMade(Ok(())) => (OpStage::Move, ActionView::Rename),
            _ => stopped(),
        },
        OpStage::Move => match event {
            EventView::Moved(Ok(())) => (OpStage::Record, ActionView::RecordPath),
            EventView::Moved(Err(f)) => if f.0 {
                (OpStage::Checksum, ActionView::HashFile)
            } else {
                (OpStage::Done, ActionView::Fail("Rollback move failed: "@ + f.1))
            },
            _ => stopped(),
        },
        OpStage::Checksum => match event {
            EventView::Checksum(Err(m)) => (
                OpStage::Done,
                ActionView::Fail("Checksum failed: "@ + m),
            ),
            EventView::Checksum(Ok(h)) => (OpStage::Copy, ActionView::CopyVerifyDelete(Some(h))),
            _ => stopped(),
        },
        OpStage::Copy => match event {
            EventView::Copied(Ok(())) => (OpStage::Record, ActionView::RecordPath),
            EventView::Copied(Err(m)) => (
                OpStage::Done,
                ActionView::Fail("Copy rollback failed: "@ + m),
            ),
            _ => stopped(),
        },
        OpStage::Record => match event {
            EventView::Recorded(Ok(())) => (OpStage::Done, ActionView::Complete("rolled_back"@)),
            EventView::Recorded(Err(m)) => (
                OpStage::Done,
                ActionView::RevertAndFail("DB update failed: "@ + m),
            ),
            _ => stopped(),
        },
        _ => stopped(),
    }
}

/// One step of rolling back `op`; see `spec_rollback_step`.
pub fn rollback_step(op: &ReorgOperation, stage: OpStage, event: &OpEvent) -> (r: (
    OpStage,
    OpAction,
))
    ensures
        (r.0, r.1@) == spec_rollback_step(*op, stage, event@),
{
    let abort = (OpStage::Done, OpAction::Abort);
    match stage {
        OpStage::Start => match event {
            OpEvent::Started => (OpStage::Destination, OpAction::CheckDestination),
            _ => abort,
        },
        OpStage::Destination => match event {
            OpEvent::Exists(false) => (
                OpStage::Done,
                OpAction::Fail(
                    message("File no longer exists at destination: ", op.dest_path.as_str()),
                ),
            ),
            OpEvent::Exists(true) => (OpStage::Original, OpAction::CheckOriginal),
            _ => abort,
        },
        OpStage::Original => match event {
            OpEvent::Exists(true) => (
                OpStage::Done,
                OpAction::Fail(
                    message(
                        "Original path already exists, cannot rollback: ",
                        op.source_path.as_str(),
                    ),
                ),
            ),
            OpEvent::Exists(false) => (OpStage::Directory, OpAction::MakeDirectory),
            _ => abort,
        },
        OpStage::Directory => match event {
            OpEvent::DirectoryMade(Ok(())) => (OpStage::Move, OpAction::Rename),
            _ => abort,
        },
        OpStage::Move => match event {
            OpEvent::Moved(Ok(())) => (OpStage::Record, OpAction::RecordPath),
            OpEvent::Moved(Err(f)) => {
                if f.cross_device {
                    (OpStage::Checksum, OpAction::HashFile)
                } else {
                    (
                        OpStage::Done,
                        OpAction::Fail(message("Rollback move failed: ", f.message.as_str())),
                    )
                }
            },
            _ => abort,
        },
        OpStage::Checksum => match event {
            OpEvent::Checksum(Err(m)) => (
                OpStage::Done,
                OpAction::Fail(message("Checksum failed: ", m.as_str())),
            ),
            OpEvent::Checksum(Ok(h)) => (
                OpStage::Copy,
                OpAction::CopyVerifyDelete(Some(h.clone())),
            ),
            _ => abort,
        },
        OpStage::Copy => match event {
            OpEvent::Copied(Ok(())) => (OpStage::Record, OpAction::RecordPath),
            OpEvent::Copied(Err(m)) => (
                OpStage::Done,
                OpAction::Fail(message("Copy rollback failed: ", m.as_str())),
            ),
            _ => abort,
        },
        OpStage::Record => match event {
            OpEvent::Recorded(Ok(())) => (
                OpStage::Done,
                OpAction::Complete(String::from_str("rolled_back")),
            ),
            OpEvent::Recorded(Err(m)) => (
                OpStage::Done,
                OpAction::RevertAndFail(message("DB update failed: ", m.as_str())),
            ),
            _ => abort,
        },
        _ => abort,
    }
}

/// A step of rolling back an operation never goes back, so a run ends after
/// a bounded number of steps; the operation is marked rolled back only once
/// the file is back and its original path recorded, and a failure to record
/// it reverts the move.
pub proof fn lemma_rollback_progress(op: ReorgOperation, stage: OpStage, event: EventView)
    ensures
        ({
            let (next, action) = spec_rollback_step(op, stage, event);
            &&& (next == OpStage::Done || stage_rank(next) > stage_rank(stage))
            &&& (action is Complete ==> stage == OpStage::Record && (event matches EventView::Recorded(Ok(_))))
            &&& (action is RevertAndFail ==> stage == OpStage::Record && (event matches EventView::Recorded(Err(_))))
        }),
{
}

} // verus!

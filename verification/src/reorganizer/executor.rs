//! The decisions taken while a plan is applied. Moving files and updating
//! the index is the caller's work: for one operation it performs the action
//! that `apply_step` returns and hands back what it observed, until the
//! operation is settled.
use crate::error::AlexandriaError;
use crate::config::push_path;
use crate::models::ReorgOperation;
use crate::paths::push_component;
use crate::text::{
    append_i64, append_u64, chars_contain, contains_seq, decimal, int_decimal, opt_view,
    str_chars, to_lowercase, unicode_lowercase,
};
use vstd::prelude::*;

verus! {

/// What the run of one operation waits for next.
#[derive(Debug, Clone, Copy, PartialEq, Eq, Structural)]
pub enum OpStage {
    /// Nothing has been done yet.
    Start,
    /// The size of the source.
    SourceSize,
    /// Whether the destination exists.
    Destination,
    /// The file the destination is registered to in the index.
    Registration,
    /// Whether the original path exists (rollback).
    Original,
    /// The parent directory of the target.
    Directory,
    /// The rename, or the copy of a copy-and-delete operation.
    Move,
    /// The checksum of the file to copy, for a fallback copy.
    Checksum,
    /// The fallback copy.
    Copy,
    /// The update of the file's path in the index.
    Record,
    /// The operation is settled.
    Done,
}

/// A failed move.
#[derive(Debug, Clone)]
pub struct MoveFailure {
    /// Whether the move failed because it would cross devices.
    pub cross_device: bool,
    /// The displayed error.
    pub message: String,
}

/// What the caller observed after performing an action.
#[derive(Debug)]
pub enum OpEvent {
    /// The run begins.
    Started,
    /// The size of the source, or the displayed error of reading it.
    SourceSize(Result<u64, String>),
    /// Whether the path that was checked exists.
    Exists(bool),
    /// The id of the file the destination is registered to, if any.
    Registered(Option<i64>),
    /// The parent directory was made, or the displayed error.
    DirectoryMade(Result<(), String>),
    /// The rename or copy succeeded, or how it failed.
    Moved(Result<(), MoveFailure>),
    /// The checksum of the file, or the displayed error.
    Checksum(Result<String, String>),
    /// The fallback copy succeeded, or the displayed error.
    Copied(Result<(), String>),
    /// The index was updated, or the displayed error.
    Recorded(Result<(), String>),
}

/// What the caller performs next. When applying, the file goes from the
/// operation's source to its destination; when rolling back, from the
/// destination back to the source.
#[derive(Debug, Clone)]
pub enum OpAction {
    /// Read the size of the source.
    ReadSourceSize,
    /// Check whether the destination exists.
    CheckDestination,
    /// Look up which file the destination is registered to.
    LookupRegistration,
    /// Check whether the source (the original path) exists.
    CheckOriginal,
    /// Create the parent directory of the target, when it has one.
    MakeDirectory,
    /// Rename the file to its target.
    Rename,
    /// Copy the file to its target, check the copy against the checksum when
    /// there is one, then delete the file that was copied.
    CopyVerifyDelete(Option<String>),
    /// Compute the checksum of the file to move.
    HashFile,
    /// Record the file's new path in the index.
    RecordPath,
    /// Give the operation this status; it succeeded.
    Complete(String),
    /// Mark the operation failed with this message; it failed.
    Fail(String),
    /// Move the file back, then mark the operation failed with this message.
    RevertAndFail(String),
    /// Stop without marking the operation; it failed.
    Abort,
}

/// The order of the stages; a run only moves forward in it.
pub open spec fn stage_rank(s: OpStage) -> int {
    match s {
        OpStage::Start => 0,
        OpStage::SourceSize => 1,
        OpStage::Destination => 2,
        OpStage::Registration => 3,
        OpStage::Original => 3,
        OpStage::Directory => 4,
        OpStage::Move => 5,
        OpStage::Checksum => 6,
        OpStage::Copy => 7,
        OpStage::Record => 8,
        OpStage::Done => 9,
    }
}

/// The view of an observation.
pub ghost enum EventView {
    Started,
    SourceSize(Result<u64, Seq<char>>),
    Exists(bool),
    Registered(Option<i64>),
    DirectoryMade(Result<(), Seq<char>>),
    /// `Err((crosses devices, message))` when the move failed.
    Moved(Result<(), (bool, Seq<char>)>),
    Checksum(Result<Seq<char>, Seq<char>>),
    Copied(Result<(), Seq<char>>),
    Recorded(Result<(), Seq<char>>),
}

/// The view of a unit result with a message.
pub open spec fn unit_result_view(r: Result<(), String>) -> Result<(), Seq<char>> {
    match r {
        Ok(()) => Ok(()),
        Err(m) => Err(m@),
    }
}

impl View for OpEvent {
    type V = EventView;

    open spec fn view(&self) -> EventView {
        match self {
            OpEvent::Started => EventView::Started,
            OpEvent::SourceSize(r) => EventView::SourceSize(
                match r {
                    Ok(n) => Ok(*n),
                    Err(m) => Err(m@),
                },
            ),
            OpEvent::Exists(b) => EventView::Exists(*b),
            OpEvent::Registered(o) => EventView::Registered(*o),
            OpEvent::DirectoryMade(r) => EventView::DirectoryMade(unit_result_view(*r)),
            OpEvent::Moved(r) => EventView::Moved(
                match r {
                    Ok(()) => Ok(()),
                    Err(f) => Err((f.cross_device, f.message@)),
                },
            ),
            OpEvent::Checksum(r) => EventView::Checksum(
                match r {
                    Ok(h) => Ok(h@),
                    Err(m) => Err(m@),
                },
            ),
            OpEvent::Copied(r) => EventView::Copied(unit_result_view(*r)),
            OpEvent::Recorded(r) => EventView::Recorded(unit_result_view(*r)),
        }
    }
}

/// The view of an action.
pub ghost enum ActionView {
    ReadSourceSize,
    CheckDestination,
    LookupRegistration,
    CheckOriginal,
    MakeDirectory,
    Rename,
    CopyVerifyDelete(Option<Seq<char>>),
    HashFile,
    RecordPath,
    Complete(Seq<char>),
    Fail(Seq<char>),
    RevertAndFail(Seq<char>),
    Abort,
}

impl View for OpAction {
    type V = ActionView;

    open spec fn view(&self) -> ActionView {
        match self {
            OpAction::ReadSourceSize => ActionView::ReadSourceSize,
            OpAction::CheckDestination => ActionView::CheckDestination,
            OpAction::LookupRegistration => ActionView::LookupRegistration,
            OpAction::CheckOriginal => ActionView::CheckOriginal,
            OpAction::MakeDirectory => ActionView::MakeDirectory,
            OpAction::Rename => ActionView::Rename,
            OpAction::CopyVerifyDelete(c) => ActionView::CopyVerifyDelete(opt_view(*c)),
            OpAction::HashFile => ActionView::HashFile,
            OpAction::RecordPath => ActionView::RecordPath,
            OpAction::Complete(s) => ActionView::Complete(s@),
            OpAction::Fail(m) => ActionView::Fail(m@),
            OpAction::RevertAndFail(m) => ActionView::RevertAndFail(m@),
            OpAction::Abort => ActionView::Abort,
        }
    }
}

/// The message of a source whose size is not the planned one.
pub open spec fn size_mismatch_message(expected: i64, got: u64) -> Seq<char> {
    "Source size mismatch: expected "@ + int_decimal(expected as int) + ", got "@ + decimal(
        got as nat,
    )
}

/// The end of a run that received an event that does not belong to its stage.
pub open spec fn stopped() -> (OpStage, ActionView) {
    (OpStage::Done, ActionView::Abort)
}

/// One step of applying `op`: from `stage`, having observed `event`, the
/// run goes to the returned stage and the caller performs the returned
/// action. The source must exist with its planned size, the destination must
/// be free on disk and in the index, then the file is renamed (or copied and
/// deleted for a copy-delete operation) and its new path recorded. A rename
/// that fails because it would cross devices falls back to a checked copy
/// when crossing volumes is allowed. A failed index update reverts the move.
/// An event that does not belong to the stage stops the run.
pub open spec fn spec_apply_step(
    op: ReorgOperation,
    allow_cross: bool,
    stage: OpStage,
    event: EventView,
) -> (OpStage, ActionView) {
    match stage {
        OpStage::Start => match event {
            EventView::Started => (OpStage::SourceSize, ActionView::ReadSourceSize),
            _ => stopped(),
        },
        OpStage::SourceSize => match event {
            EventView::SourceSize(Err(m)) => (
                OpStage::Done,
                ActionView::Fail("Source missing: "@ + m),
            ),
            EventView::SourceSize(Ok(len)) => if len != op.size_bytes as u64 {
                (OpStage::Done, ActionView::Fail(size_mismatch_message(op.size_bytes, len)))
            } else {
                (OpStage::Destination, ActionView::CheckDestination)
            },
            _ => stopped(),
        },
        OpStage::Destination => match event {
            EventView::Exists(true) => (
                OpStage::Done,
                ActionView::Fail("Destination already exists on disk: "@ + op.dest_path@),
            ),
            EventView::Exists(false) => (OpStage::Registration, ActionView::LookupRegistration),
            _ => stopped(),
        },
        OpStage::Registration => match event {
            EventView::Registered(Some(id)) => if id != op.file_id {
                (
                    OpStage::Done,
                    ActionView::Fail(
                        "Destination is already registered in database for file id "@
                            + int_decimal(id as int),
                    ),
                )
            } else {
                (OpStage::Directory, ActionView::MakeDirectory)
            },
            EventView::Registered(None) => (OpStage::Directory, ActionView::MakeDirectory),
            _ => stopped(),
        },
        OpStage::Directory => match event {
            EventView::DirectoryMade(Err(m)) => (
                OpStage::Done,
                ActionView::Fail("Cannot create destination dir: "@ + m),
            ),
            EventView::DirectoryMade(Ok(())) => if op.action@ == "copy_delete"@ {
                (OpStage::Move, ActionView::CopyVerifyDelete(opt_view(op.checksum_before)))
            } else {
                (OpStage::Move, ActionView::Rename)
            },
            _ => stopped(),
        },
        OpStage::Move => match event {
            EventView::Moved(Ok(())) => (OpStage::Record, ActionView::RecordPath),
            EventView::Moved(Err(f)) => if f.0 && allow_cross && op.action@ != "copy_delete"@ {
                (OpStage::Checksum, ActionView::HashFile)
            } else {
                (OpStage::Done, ActionView::Fail("Move failed: "@ + f.1))
            },
            _ => stopped(),
        },
        OpStage::Checksum => match event {
            EventView::Checksum(Err(m)) => (
                OpStage::Done,
                ActionView::Fail("Checksum failed: "@ + m),
            ),
            EventView::Checksum(Ok(h)) => (OpStage::Copy, ActionView::CopyVerifyDelete(Some(h))),
            _ => stopped(),
        },
        OpStage::Copy => match event {
            EventView::Copied(Ok(())) => (OpStage::Record, ActionView::RecordPath),
            EventView::Copied(Err(m)) => (
                OpStage::Done,
                ActionView::Fail("Copy fallback failed: "@ + m),
            ),
            _ => stopped(),
        },
        OpStage::Record => match event {
            EventView::Recorded(Ok(())) => (OpStage::Done, ActionView::Complete("completed"@)),
            EventView::Recorded(Err(m)) => (
                OpStage::Done,
                ActionView::RevertAndFail("DB update failed: "@ + m),
            ),
            _ => stopped(),
        },
        _ => stopped(),
    }
}

/// `prefix` followed by `m`.
pub(crate) fn message(prefix: &str, m: &str) -> (r: String)
    ensures
        r@ == prefix@ + m@,
{
    let mut s = String::from_str(prefix);
    s.append(m);
    s
}

/// One step of applying `op`; see `spec_apply_step`.
pub fn apply_step(op: &ReorgOperation, allow_cross: bool, stage: OpStage, event: &OpEvent) -> (r: (
    OpStage,
    OpAction,
))
    ensures
        (r.0, r.1@) == spec_apply_step(*op, allow_cross, stage, event@),
{
    let abort = (OpStage::Done, OpAction::Abort);
    match stage {
        OpStage::Start => match event {
            OpEvent::Started => (OpStage::SourceSize, OpAction::ReadSourceSize),
            _ => abort,
        },
        OpStage::SourceSize => match event {
            OpEvent::SourceSize(Err(m)) => (
                OpStage::Done,
                OpAction::Fail(message("Source missing: ", m.as_str())),
            ),
            OpEvent::SourceSize(Ok(len)) => {
                if *len != op.size_bytes as u64 {
                    let mut msg = String::from_str("Source size mismatch: expected ");
                    append_i64(&mut msg, op.size_bytes);
                    msg.append(", got ");
                    append_u64(&mut msg, *len);
                    (OpStage::Done, OpAction::Fail(msg))
                } else {
                    (OpStage::Destination, OpAction::CheckDestination)
                }
            },
            _ => abort,
        },
        OpStage::Destination => match event {
            OpEvent::Exists(true) => (
                OpStage::Done,
                OpAction::Fail(
                    message("Destination already exists on disk: ", op.dest_path.as_str()),
                ),
            ),
            OpEvent::Exists(false) => (OpStage::Registration, OpAction::LookupRegistration),
            _ => abort,
        },
        OpStage::Registration => match event {
            OpEvent::Registered(Some(id)) => {
                if *id != op.file_id {
                    let mut msg = String::from_str(
                        "Destination is already registered in database for file id ",
                    );
                    append_i64(&mut msg, *id);
                    (OpStage::Done, OpAction::Fail(msg))
                } else {
                    (OpStage::Directory, OpAction::MakeDirectory)
                }
            },
            OpEvent::Registered(None) => (OpStage::Directory, OpAction::MakeDirectory),
            _ => abort,
        },
        OpStage::Directory => match event {
            OpEvent::DirectoryMade(Err(m)) => (
                OpStage::Done,
                OpAction::Fail(message("Cannot create destination dir: ", m.as_str())),
            ),
            OpEvent::DirectoryMade(Ok(())) => {
                proof {
                    reveal_strlit("copy_delete");
                }
                let copy = str_chars("copy_delete");
                let act = str_chars(op.action.as_str());
                if crate::text::chars_eq(&act, &copy) {
                    let c = match &op.checksum_before {
                        Some(h) => Some(h.clone()),
                        None => None,
                    };
                    (OpStage::Move, OpAction::CopyVerifyDelete(c))
                } else {
                    (OpStage::Move, OpAction::Rename)
                }
            },
            _ => abort,
        },
        OpStage::Move => match event {
            OpEvent::Moved(Ok(())) => (OpStage::Record, OpAction::RecordPath),
            OpEvent::Moved(Err(f)) => {
                let copy = str_chars("copy_delete");
                let act = str_chars(op.action.as_str());
                if f.cross_device && allow_cross && !crate::text::chars_eq(&act, &copy) {
                    (OpStage::Checksum, OpAction::HashFile)
                } else {
                    (OpStage::Done, OpAction::Fail(message("Move failed: ", f.message.as_str())))
                }
            },
            _ => abort,
        },
        OpStage::Checksum => match event {
            OpEvent::Checksum(Err(m)) => (
                OpStage::Done,
                OpAction::Fail(message("Checksum failed: ", m.as_str())),
            ),
            OpEvent::Checksum(Ok(h)) => (
                OpStage::Copy,
                OpAction::CopyVerifyDelete(Some(h.clone())),
            ),
            _ => abort,
        },
        OpStage::Copy => match event {
            OpEvent::Copied(Ok(())) => (OpStage::Record, OpAction::RecordPath),
            OpEvent::Copied(Err(m)) => (
                OpStage::Done,
                OpAction::Fail(message("Copy fallback failed: ", m.as_str())),
            ),
            _ => abort,
        },
        OpStage::Record => match event {
            OpEvent::Recorded(Ok(())) => (
                OpStage::Done,
                OpAction::Complete(String::from_str("completed")),
            ),
            OpEvent::Recorded(Err(m)) => (
                OpStage::Done,
                OpAction::RevertAndFail(message("DB update failed: ", m.as_str())),
            ),
            _ => abort,
        },
        _ => abort,
    }
}

/// A step of applying an operation never goes back: it either settles the
/// operation or moves to a later stage, so a run ends after at most ten
/// steps.
pub proof fn lemma_apply_moves_forward(
    op: ReorgOperation,
    allow_cross: bool,
    stage: OpStage,
    event: EventView,
)
    ensures
        spec_apply_step(op, allow_cross, stage, event).0 == OpStage::Done || stage_rank(
            spec_apply_step(op, allow_cross, stage, event).0,
        ) > stage_rank(stage),
{
}

/// An applied operation is completed only once the file has been moved and
/// its new path recorded; a failure to record it reverts the move; and the
/// fallback copy is taken only when crossing volumes is allowed.
pub proof fn lemma_apply_completion(
    op: ReorgOperation,
    allow_cross: bool,
    stage: OpStage,
    event: EventView,
)
    ensures
        ({
            let action = spec_apply_step(op, allow_cross, stage, event).1;
            &&& (action is Complete ==> stage == OpStage::Record && (event matches EventView::Recorded(Ok(_))))
            &&& (action is RevertAndFail ==> stage == OpStage::Record && (event matches EventView::Recorded(Err(_))))
            &&& (action is HashFile ==> allow_cross && stage == OpStage::Move)
            &&& ((action is Rename || action is CopyVerifyDelete) ==> (stage == OpStage::Directory || stage == OpStage::Checksum))
        }),
{
}

/// Why a copy does not match the checksum it is checked against, if it
/// does not.
pub open spec fn copy_mismatch(expected: Option<Seq<char>>, actual: Seq<char>) -> Option<Seq<char>> {
    match expected {
        Some(e) => if actual != e {
            Some("Checksum mismatch after copy: expected "@ + e + ", got "@ + actual)
        } else {
            None
        },
        None => None,
    }
}

/// Check a copy against the checksum of the file copied: the file copied may
/// only be deleted when this is `Ok`.
pub fn verify_copy(expected: &Option<String>, actual: &str) -> (r: Result<(), String>)
    ensures
        match r {
            Ok(()) => copy_mismatch(opt_view(*expected), actual@) is None,
            Err(m) => copy_mismatch(opt_view(*expected), actual@) == Some(m@),
        },
{
    match expected {
        Some(e) => {
            let ev = str_chars(e.as_str());
            let av = str_chars(actual);
            if !crate::text::chars_eq(&ev, &av) {
                let mut msg = String::from_str("Checksum mismatch after copy: expected ");
                msg.append(e.as_str());
                msg.append(", got ");
                msg.append(actual);
                Err(msg)
            } else {
                Ok(())
            }
        },
        None => Ok(()),
    }
}

/// Whether an I/O error means that a rename would cross devices: its kind
/// says so, its OS code is 17, or its text mentions "cross" in any case.
pub open spec fn crosses_devices(kind_crosses: bool, os_code: Option<i32>, text: Seq<char>) -> bool {
    kind_crosses || os_code == Some(17i32) || contains_seq(unicode_lowercase(text), "cross"@)
}

/// Whether an I/O error, given by whether its kind is `CrossesDevices`, its
/// OS error code and its displayed text, means that a rename would cross
/// devices.
pub fn is_cross_device_error(kind_crosses: bool, os_code: Option<i32>, text: &str) -> (r: bool)
    ensures
        r == crosses_devices(kind_crosses, os_code, text@),
{
    let lower = to_lowercase(text);
    let lv = str_chars(lower.as_str());
    let pat = str_chars("cross");
    kind_crosses || os_code == Some(17i32) || chars_contain(&lv, &pat)
}

/// Whether a move from `from` back to `to` is to be made: only when the file
/// is at `from` and nothing is at `to`.
pub fn revert_needed(from_exists: bool, to_exists: bool) -> (r: bool)
    ensures
        r == (from_exists && !to_exists),
{
    from_exists && !to_exists
}

/// The counters and status a job is left with.
#[derive(Debug, Clone)]
pub struct JobCounters {
    pub status: String,
    pub total: i64,
    pub completed: i64,
    pub failed: i64,
    pub rolled_back: i64,
}

/// The operations with the given status, in their order.
pub open spec fn with_status(ops: Seq<ReorgOperation>, status: Seq<char>) -> Seq<ReorgOperation>
    decreases ops.len(),
{
    if ops.len() == 0 {
        Seq::empty()
    } else {
        let rest = with_status(ops.drop_last(), status);
        if ops.last().status@ == status {
            rest.push(ops.last())
        } else {
            rest
        }
    }
}

/// The number of `true` results.
pub open spec fn count_true(v: Seq<bool>) -> nat
    decreases v.len(),
{
    if v.len() == 0 {
        0
    } else {
        count_true(v.drop_last()) + if v.last() {
            1nat
        } else {
            0nat
        }
    }
}

/// The number of operations marked failed whose action is not "pending".
pub open spec fn count_marked_failed(ops: Seq<ReorgOperation>) -> nat
    decreases ops.len(),
{
    if ops.len() == 0 {
        0
    } else {
        count_marked_failed(ops.drop_last()) + if ops.last().status@ == "failed"@
            && ops.last().action@ != "pending"@ {
            1nat
        } else {
            0nat
        }
    }
}

/// The refusal of a job that is not planned, if it is not.
pub open spec fn apply_refusal(job_id: i64, status: Seq<char>) -> Option<Seq<char>> {
    if status == "planned"@ {
        None
    } else {
        Some(
            "Job "@ + int_decimal(job_id as int) + " is not in planned state (current: "@ + status
                + ")"@,
        )
    }
}

/// Only a planned job can be applied.
pub fn check_apply_allowed(job_id: i64, status: &str) -> (r: Result<(), AlexandriaError>)
    ensures
        match r {
            Ok(()) => apply_refusal(job_id, status@) is None,
            Err(AlexandriaError::BadRequest(m)) => apply_refusal(job_id, status@) == Some(m@),
            Err(_) => false,
        },
{
    let sv = str_chars(status);
    let planned = str_chars("planned");
    if crate::text::chars_eq(&sv, &planned) {
        Ok(())
    } else {
        let mut msg = String::from_str("Job ");
        append_i64(&mut msg, job_id);
        msg.append(" is not in planned state (current: ");
        msg.append(status);
        msg.append(")");
        Err(AlexandriaError::BadRequest(msg))
    }
}

/// The operations with the given status, in their order.
pub fn operations_with_status(ops: Vec<ReorgOperation>, status: &str) -> (r: Vec<ReorgOperation>)
    ensures
        r@ == with_status(ops@, status@),
{
    let ghost original = ops@;
    let sv = str_chars(status);
    let n = ops.len();
    let mut rest = ops;
    let mut out: Vec<ReorgOperation> = Vec::new();
    let mut i: usize = 0;
    while i < n
        invariant
            n == original.len(),
            sv@ == status@,
            i <= n,
            rest@ == original.skip(i as int),
            out@ == with_status(original.take(i as int), status@),
        decreases n - i,
    {
        let op = rest.remove(0);
        assert(op == original[i as int]);
        assert(rest@ =~= original.skip(i + 1));
        assert(original.take(i + 1).drop_last() =~= original.take(i as int));
        let ov = str_chars(op.status.as_str());
        if crate::text::chars_eq(&ov, &sv) {
            out.push(op);
        }
        i += 1;
    }
    assert(original.take(n as int) =~= original);
    out
}

/// The operations of a job that are still to run: those with status
/// "pending", in their order.
pub fn pending_operations(ops: Vec<ReorgOperation>) -> (r: Vec<ReorgOperation>)
    ensures
        r@ == with_status(ops@, "pending"@),
{
    operations_with_status(ops, "pending")
}

/// The number of `true` results.
pub(crate) fn count_ok(results: &Vec<bool>) -> (r: usize)
    ensures
        r == count_true(results@),
        r <= results.len(),
{
    let mut c: usize = 0;
    let mut i: usize = 0;
    while i < results.len()
        invariant
            i <= results.len(),
            c == count_true(results@.take(i as int)),
            c <= i,
        decreases results.len() - i,
    {
        assert(results@.take(i + 1).drop_last() =~= results@.take(i as int));
        if results[i] {
            c += 1;
        }
        i += 1;
    }
    assert(results@.take(results.len() as int) =~= results@);
    c
}

/// The number of operations marked failed whose action is not "pending".
fn count_failed_marks(ops: &Vec<ReorgOperation>) -> (r: usize)
    ensures
        r == count_marked_failed(ops@),
        r <= ops.len(),
{
    let failed = str_chars("failed");
    let pending = str_chars("pending");
    let mut c: usize = 0;
    let mut i: usize = 0;
    while i < ops.len()
        invariant
            failed@ == "failed"@,
            pending@ == "pending"@,
            i <= ops.len(),
            c == count_marked_failed(ops@.take(i as int)),
            c <= i,
        decreases ops.len() - i,
    {
        assert(ops@.take(i + 1).drop_last() =~= ops@.take(i as int));
        let st = str_chars(ops[i].status.as_str());
        let ac = str_chars(ops[i].action.as_str());
        if crate::text::chars_eq(&st, &failed) && !crate::text::chars_eq(&ac, &pending) {
            c += 1;
        }
        i += 1;
    }
    assert(ops@.take(ops.len() as int) =~= ops@);
    c
}

/// The counters of an applied job. `results` holds, for each operation
/// that ran, whether it succeeded; `operations` is every operation of the
/// job after the run. The failures are those of the run plus every
/// operation marked failed whose action is not "pending"; the job is
/// "completed" when there are none, and "failed" otherwise.
pub fn apply_counters(results: &Vec<bool>, operations: &Vec<ReorgOperation>) -> (r: JobCounters)
    requires
        results.len() + operations.len() <= i64::MAX,
    ensures
        r.completed == count_true(results@),
        r.failed == (results.len() - count_true(results@)) + count_marked_failed(operations@),
        r.total == r.completed + r.failed,
        r.rolled_back == 0,
        r.status@ == (if r.failed == 0 {
            "completed"@
        } else {
            "failed"@
        }),
{
    let ok = count_ok(results);
    let marked = count_failed_marks(operations);
    let completed = ok as i64;
    let failed = (results.len() - ok) as i64 + marked as i64;
    let status = if failed == 0 {
        String::from_str("completed")
    } else {
        String::from_str("failed")
    };
    JobCounters { status, total: completed + failed, completed, failed, rolled_back: 0 }
}

/// Where the database is backed up before a job runs, for a data directory
/// and a time stamp: the database file, the backup directory and the backup
/// file "alexandria-<stamp>.db" in it.
pub fn backup_paths(data_dir: &str, stamp: &str) -> (r: (String, String, String))
    ensures
        r.0@ == push_component(data_dir@, "alexandria.db"@),
        r.1@ == push_component(data_dir@, "backups"@),
        r.2@ == push_component(r.1@, "alexandria-"@ + stamp@ + ".db"@),
{
    let db_path = push_path(data_dir, "alexandria.db");
    let backups_dir = push_path(data_dir, "backups");
    let mut name = String::from_str("alexandria-");
    name.append(stamp);
    name.append(".db");
    let backup = push_path(backups_dir.as_str(), name.as_str());
    (db_path, backups_dir, backup)
}

} // verus!

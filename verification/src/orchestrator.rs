//! Decisions of the task queue: when a task's chunks are resolved, what the
//! periodic reconciliation does with a stuck task, when a batch completes,
//! and the checks made before enqueueing, forcing, continuing or re-merging a
//! task. The queue reads the store, asks these functions, and acts.

use vstd::prelude::*;
use crate::error::AppError;
use crate::task::{Task, TaskStatus, task_status_name};
use crate::chunk::ChunkStatus;
use crate::text::{signed_decimal, signed_decimal_string};
use crate::table::Table;
use crate::chunker::{SentenceInfo, ChunkSegment};

verus! {

/// Chunk counts of one task, by status.
#[derive(Debug, Clone, Copy, PartialEq, Eq, Structural)]
pub struct ChunkCounts {
    pub total: i64,
    pub done: i64,
    pub failed: i64,
    pub pending: i64,
    pub processing: i64,
}

/// Where a task stands once its chunk counts are known.
#[derive(Debug, Clone, PartialEq, Eq)]
pub enum Resolution {
    /// Some chunks are still to be resolved.
    InProgress,
    /// Every chunk is done or failed and at least one is done: merge.
    MergeReady { total_chunks: i64 },
    /// Every chunk failed: the task fails with this message.
    AllFailed(String),
}

/// Every chunk of the task is done or failed (and there is at least one).
pub open spec fn chunks_resolved(c: ChunkCounts) -> bool {
    c.total > 0 && c.done + c.failed == c.total
}

/// `All {total} chunks failed`.
pub open spec fn all_chunks_failed_message(total: int) -> Seq<char> {
    "All "@ + signed_decimal(total) + " chunks failed"@
}

/// Decides what a change in a task's chunk counts leads to.
pub fn resolve_chunks(c: &ChunkCounts) -> (r: Resolution)
    ensures
        !chunks_resolved(*c) ==> r == Resolution::InProgress,
        chunks_resolved(*c) && c.done > 0 ==> r == (Resolution::MergeReady { total_chunks: c.total }),
        chunks_resolved(*c) && c.done <= 0 ==> (r matches Resolution::AllFailed(m) && m@
            == all_chunks_failed_message(c.total as int)),
{
    let resolved = c.total > 0 && (c.done as i128) + (c.failed as i128) == (c.total as i128);
    if !resolved {
        return Resolution::InProgress;
    }
    if c.done > 0 {
        Resolution::MergeReady { total_chunks: c.total }
    } else {
        let mut m = String::from_str("All ");
        let n = signed_decimal_string(c.total);
        m.append(n.as_str());
        m.append(" chunks failed");
        Resolution::AllFailed(m)
    }
}

/// Statuses in which a task can get stuck and that reconciliation looks at.
pub open spec fn reconcilable(s: TaskStatus) -> bool {
    s == TaskStatus::Processing || s == TaskStatus::Queued || s == TaskStatus::Merging || s
        == TaskStatus::MergingFailed
}

/// Seconds a Queued task without chunks may wait before it is failed.
pub const STUCK_QUEUED_SECS: i64 = 180;

/// What reconciliation does with one task.
#[derive(Debug, Clone, PartialEq, Eq)]
pub enum ReconcileAction {
    /// Nothing to do.
    Nothing,
    /// The merge failed earlier: announce the task's failure with this message.
    AnnounceMergeFailed(String),
    /// All chunks are resolved: act on the resolution.
    Resolve(Resolution),
    /// Queued too long without chunks: fail the task with this message.
    FailStuckQueued(String),
}

/// `Stuck in Queued for {age}s, no chunks created`.
pub open spec fn stuck_queued_message(age_secs: int) -> Seq<char> {
    "Stuck in Queued for "@ + signed_decimal(age_secs) + "s, no chunks created"@
}

/// The periodic reconciliation of one task: `age_secs` is the time since it
/// was created.
pub fn reconcile_task(status: TaskStatus, c: &ChunkCounts, age_secs: i64) -> (r: ReconcileAction)
    ensures
        !reconcilable(status) ==> r == ReconcileAction::Nothing,
        status == TaskStatus::Pending || status == TaskStatus::Chunking || status == TaskStatus::Paused || status
            == TaskStatus::Done || status == TaskStatus::Failed || status == TaskStatus::Cancelled ==> r
            == ReconcileAction::Nothing,
        (status == TaskStatus::Processing || status == TaskStatus::Queued || status == TaskStatus::Merging) && c.total
            > 0 && c.done + c.failed == c.total && c.done > 0 ==> r == ReconcileAction::Resolve(
            Resolution::MergeReady { total_chunks: c.total },
        ),
        (status == TaskStatus::Processing || status == TaskStatus::Queued || status == TaskStatus::Merging) && !(
        c.total > 0 && c.done + c.failed == c.total) && !(status == TaskStatus::Queued && c.total == 0 && age_secs
            > 180) ==> r == ReconcileAction::Nothing,
        status == TaskStatus::MergingFailed ==> (r matches ReconcileAction::AnnounceMergeFailed(m) && m@
            == "Merge failed (detected by poll)"@),
        reconcilable(status) && status != TaskStatus::MergingFailed && chunks_resolved(*c) ==> (r matches ReconcileAction::Resolve(res) && (c.done > 0 ==> res == (Resolution::MergeReady {
            total_chunks: c.total,
        })) && (c.done <= 0 ==> (res matches Resolution::AllFailed(m) && m@ == all_chunks_failed_message(c.total as int)))),
        status == TaskStatus::Queued && c.total == 0 && age_secs > STUCK_QUEUED_SECS ==> (r matches ReconcileAction::FailStuckQueued(m) && m@ == stuck_queued_message(age_secs as int)),
        reconcilable(status) && status != TaskStatus::MergingFailed && !chunks_resolved(*c) && !(status
            == TaskStatus::Queued && c.total == 0 && age_secs > STUCK_QUEUED_SECS) ==> r
            == ReconcileAction::Nothing,
{
    match status {
        TaskStatus::Processing | TaskStatus::Queued | TaskStatus::Merging => {},
        TaskStatus::MergingFailed => {
            return ReconcileAction::AnnounceMergeFailed(String::from_str("Merge failed (detected by poll)"));
        },
        _ => {
            return ReconcileAction::Nothing;
        },
    }
    let res = resolve_chunks(c);
    match res {
        Resolution::InProgress => {},
        _ => {
            return ReconcileAction::Resolve(res);
        },
    }
    let queued = match status {
        TaskStatus::Queued => true,
        _ => false,
    };
    if queued && c.total == 0 && age_secs > STUCK_QUEUED_SECS {
        let mut m = String::from_str("Stuck in Queued for ");
        let n = signed_decimal_string(age_secs);
        m.append(n.as_str());
        m.append("s, no chunks created");
        return ReconcileAction::FailStuckQueued(m);
    }
    ReconcileAction::Nothing
}

/// Progress of a batch's child tasks, as counted by the store.
#[derive(Debug, Clone)]
pub struct BatchProgressAggregate {
    pub batch_id: String,
    pub total_tasks: i32,
    pub done_tasks: i32,
    pub failed_tasks: i32,
    pub processing_tasks: i32,
}

/// Whether a batch is finished after one of its tasks finished.
#[derive(Debug, Clone, PartialEq, Eq)]
pub enum BatchCompletion {
    /// Some tasks are still running.
    Open,
    /// Every task is terminal and at least one is done.
    Completed,
    /// Every task failed; the message says so.
    Failed(String),
}

/// `All {failed} tasks failed`.
pub open spec fn all_tasks_failed_message(failed: int) -> Seq<char> {
    "All "@ + signed_decimal(failed) + " tasks failed"@
}

/// Decides whether a batch is complete.
pub fn batch_completion(p: &BatchProgressAggregate) -> (r: BatchCompletion)
    ensures
        !(p.done_tasks + p.failed_tasks >= p.total_tasks && p.total_tasks > 0) ==> r == BatchCompletion::Open,
        p.done_tasks + p.failed_tasks >= p.total_tasks && p.total_tasks > 0 && p.done_tasks > 0 ==> r
            == BatchCompletion::Completed,
        p.done_tasks + p.failed_tasks >= p.total_tasks && p.total_tasks > 0 && p.done_tasks <= 0 ==> (r matches BatchCompletion::Failed(m) && m@ == all_tasks_failed_message(p.failed_tasks as int)),
{
    let terminal: i64 = (p.done_tasks as i64) + (p.failed_tasks as i64);
    if !(terminal >= p.total_tasks as i64 && p.total_tasks > 0) {
        return BatchCompletion::Open;
    }
    if p.done_tasks > 0 {
        BatchCompletion::Completed
    } else {
        let mut m = String::from_str("All ");
        let n = signed_decimal_string(p.failed_tasks as i64);
        m.append(n.as_str());
        m.append(" tasks failed");
        BatchCompletion::Failed(m)
    }
}

/// `Task {id}`: the message of a missing task.
pub open spec fn task_not_found_message(task_id: Seq<char>) -> Seq<char> {
    "Task "@ + task_id
}

fn task_not_found(task_id: &str) -> (r: AppError)
    ensures
        r matches AppError::NotFound(m) && m@ == task_not_found_message(task_id@),
{
    let mut m = String::from_str("Task ");
    m.append(task_id);
    AppError::NotFound(m)
}

/// `Task {id} status is {status:?}{tail}`.
pub open spec fn task_status_message(task_id: Seq<char>, s: TaskStatus, tail: Seq<char>) -> Seq<char> {
    "Task "@ + task_id + " status is "@ + task_status_name(s) + tail
}

fn wrong_status(task_id: &str, s: TaskStatus, tail: &str) -> (r: AppError)
    ensures
        r matches AppError::InvalidInput(m) && m@ == task_status_message(task_id@, s, tail@),
{
    let mut m = String::from_str("Task ");
    m.append(task_id);
    m.append(" status is ");
    m.append(s.name());
    m.append(tail);
    AppError::InvalidInput(m)
}

/// A task can be enqueued only if it exists and is Pending.
pub fn enqueue_check(task_id: &str, status: Option<TaskStatus>) -> (r: Result<(), AppError>)
    ensures
        status is None ==> (r matches Err(AppError::NotFound(m)) && m@ == task_not_found_message(task_id@)),
        status == Some(TaskStatus::Pending) ==> r is Ok,
        status matches Some(s) ==> (s != TaskStatus::Pending ==> (r matches Err(AppError::InvalidInput(m))
            && m@ == task_status_message(task_id@, s, ", expected Pending"@))),
{
    match status {
        None => Err(task_not_found(task_id)),
        Some(TaskStatus::Pending) => Ok(()),
        Some(s) => Err(wrong_status(task_id, s, ", expected Pending")),
    }
}

/// What the queue knows of one chunk when it plans over a task's chunks.
#[derive(Debug, Clone)]
pub struct ChunkBrief {
    pub id: String,
    pub seq: i32,
    pub status: ChunkStatus,
    pub audio_path: Option<String>,
}

/// The indices, in order, of the chunks satisfying `p`.
pub open spec fn indices_where(chunks: Seq<ChunkBrief>, p: spec_fn(ChunkBrief) -> bool) -> Seq<usize>
    decreases chunks.len(),
{
    if chunks.len() == 0 {
        Seq::empty()
    } else {
        let rest = indices_where(chunks.drop_last(), p);
        if p(chunks.last()) {
            rest.push((chunks.len() - 1) as usize)
        } else {
            rest
        }
    }
}

/// Chunks that forcing a task resets to Pending.
pub open spec fn not_pending() -> spec_fn(ChunkBrief) -> bool {
    |c: ChunkBrief| c.status != ChunkStatus::Pending
}

/// Chunks that continuing a task sends back to the queue: pending or failed
/// ones, and done ones whose audio is missing.
pub open spec fn needs_retry_spec(c: ChunkBrief) -> bool {
    match c.status {
        ChunkStatus::Failed | ChunkStatus::Pending => true,
        ChunkStatus::Done => c.audio_path is None,
        _ => false,
    }
}

/// `needs_retry_spec` as a predicate value.
pub open spec fn retry_pred() -> spec_fn(ChunkBrief) -> bool {
    |c: ChunkBrief| needs_retry_spec(c)
}

/// Whether continuing a task re-queues this chunk.
pub fn needs_retry(c: &ChunkBrief) -> (r: bool)
    ensures
        r == needs_retry_spec(*c),
{
    match c.status {
        ChunkStatus::Failed | ChunkStatus::Pending => true,
        ChunkStatus::Done => c.audio_path.is_none(),
        _ => false,
    }
}

fn select_indices(chunks: &[ChunkBrief], retry: bool) -> (r: Vec<usize>)
    ensures
        retry ==> r@ == indices_where(chunks@, retry_pred()),
        !retry ==> r@ == indices_where(chunks@, not_pending()),
{
    let ghost p = if retry { retry_pred() } else { not_pending() };
    let mut out: Vec<usize> = Vec::new();
    let mut i: usize = 0;
    while i < chunks.len()
        invariant
            i <= chunks@.len(),
            p == (if retry { retry_pred() } else { not_pending() }),
            out@ == indices_where(chunks@.take(i as int), p),
        decreases chunks@.len() - i,
    {
        assert(chunks@.take(i + 1).drop_last() =~= chunks@.take(i as int));
        let pick = if retry {
            needs_retry(&chunks[i])
        } else {
            match chunks[i].status {
                ChunkStatus::Pending => false,
                _ => true,
            }
        };
        if pick {
            out.push(i);
        }
        i = i + 1;
    }
    assert(chunks@.take(chunks@.len() as int) =~= chunks@);
    out
}

/// Forcing a Queued task: the chunks (by index) to reset to Pending before
/// all workers are woken.
pub fn force_process_plan(task_id: &str, status: Option<TaskStatus>, chunks: &[ChunkBrief]) -> (r: Result<
    Vec<usize>,
    AppError,
>)
    ensures
        status is None ==> (r matches Err(AppError::NotFound(m)) && m@ == task_not_found_message(task_id@)),
        status matches Some(s) ==> (s != TaskStatus::Queued ==> (r matches Err(AppError::InvalidInput(m))
            && m@ == task_status_message(task_id@, s, ", only Queued tasks can be force-processed"@))),
        status == Some(TaskStatus::Queued) ==> (r matches Ok(v) && v@ == indices_where(chunks@, not_pending())),
{
    match status {
        None => Err(task_not_found(task_id)),
        Some(TaskStatus::Queued) => Ok(select_indices(chunks, false)),
        Some(s) => Err(wrong_status(task_id, s, ", only Queued tasks can be force-processed")),
    }
}

/// Continuing a task: the chunks (by index) to reset to Pending and enqueue.
pub fn continue_plan(chunks: &[ChunkBrief]) -> (r: Vec<usize>)
    ensures
        r@ == indices_where(chunks@, retry_pred()),
{
    select_indices(chunks, true)
}

/// Every chunk is Done.
pub open spec fn all_done(chunks: Seq<ChunkBrief>) -> bool {
    forall|i: int| 0 <= i < chunks.len() ==> #[trigger] chunks[i].status == ChunkStatus::Done
}

/// A failed merge may be retried only for a task in MergingFailed whose
/// chunks are all done.
pub fn retry_merge_check(task_id: &str, status: Option<TaskStatus>, chunks: &[ChunkBrief]) -> (r: Result<(), AppError>)
    ensures
        status is None ==> (r matches Err(AppError::NotFound(m)) && m@ == task_not_found_message(task_id@)),
        status matches Some(s) ==> (s != TaskStatus::MergingFailed ==> (r matches Err(AppError::InvalidInput(m)) && m@ == task_status_message(task_id@, s, ", expected MergingFailed"@))),
        status == Some(TaskStatus::MergingFailed) ==> {
            &&& chunks@.len() == 0 ==> (r matches Err(AppError::InvalidInput(m)) && m@ == "Task "@ + task_id@ + " has no chunks"@)
            &&& chunks@.len() > 0 && !all_done(chunks@) ==> (r matches Err(AppError::InvalidInput(m)) && m@ == "Task "@ + task_id@ + " has incomplete chunks, cannot merge"@)
            &&& chunks@.len() > 0 && all_done(chunks@) ==> r is Ok
        },
{
    match status {
        None => {
            return Err(task_not_found(task_id));
        },
        Some(TaskStatus::MergingFailed) => {},
        Some(s) => {
            return Err(wrong_status(task_id, s, ", expected MergingFailed"));
        },
    }
    if chunks.len() == 0 {
        let mut m = String::from_str("Task ");
        m.append(task_id);
        m.append(" has no chunks");
        return Err(AppError::InvalidInput(m));
    }
    let mut i: usize = 0;
    while i < chunks.len()
        invariant
            i <= chunks@.len(),
            chunks@.len() > 0,
            status == Some(TaskStatus::MergingFailed),
            forall|j: int| 0 <= j < i ==> #[trigger] chunks@[j].status == ChunkStatus::Done,
        decreases chunks@.len() - i,
    {
        let done = match chunks[i].status {
            ChunkStatus::Done => true,
            _ => false,
        };
        if !done {
            let mut m = String::from_str("Task ");
            m.append(task_id);
            m.append(" has incomplete chunks, cannot merge");
            return Err(AppError::InvalidInput(m));
        }
        i = i + 1;
    }
    Ok(())
}

/// Chunk `x` comes before chunk `y` in merge order: by sequence number, then
/// by position.
pub open spec fn merge_before(chunks: Seq<ChunkBrief>, x: int, y: int) -> bool {
    chunks[x].seq < chunks[y].seq || (chunks[x].seq == chunks[y].seq && x < y)
}

/// `order` lists exactly the Done chunks (by index), in merge order.
pub open spec fn merge_order(chunks: Seq<ChunkBrief>, order: Seq<usize>) -> bool {
    &&& forall|k: int| 0 <= k < order.len() ==> #[trigger] order[k] < chunks.len() && chunks[order[k] as int].status
        == ChunkStatus::Done
    &&& forall|j: int| 0 <= j < chunks.len() && #[trigger] chunks[j].status == ChunkStatus::Done ==> order.contains(
        j as usize,
    )
    &&& forall|a: int, b: int| 0 <= a < b < order.len() ==> merge_before(chunks, #[trigger] order[a] as int, #[trigger] order[b] as int)
}

/// The Done chunks among the first `n`, in merge order.
fn sort_done(chunks: &[ChunkBrief]) -> (r: Vec<usize>)
    ensures
        merge_order(chunks@, r@),
{
    let mut order: Vec<usize> = Vec::new();
    let mut i: usize = 0;
    while i < chunks.len()
        invariant
            i <= chunks@.len(),
            forall|k: int| 0 <= k < order@.len() ==> #[trigger] order@[k] < i && chunks@[order@[k] as int].status
                == ChunkStatus::Done,
            forall|j: int| 0 <= j < i && #[trigger] chunks@[j].status == ChunkStatus::Done ==> order@.contains(
                j as usize,
            ),
            forall|a: int, b: int| 0 <= a < b < order@.len() ==> merge_before(chunks@, #[trigger] order@[a] as int, #[trigger] order@[b] as int),
        decreases chunks@.len() - i,
    {
        let done = match chunks[i].status {
            ChunkStatus::Done => true,
            _ => false,
        };
        if done {
            let key = chunks[i].seq;
            let mut pos: usize = 0;
            while pos < order.len() && chunks[order[pos]].seq <= key
                invariant
                    pos <= order@.len(),
                    i < chunks@.len(),
                    key == chunks@[i as int].seq,
                    forall|k: int| 0 <= k < order@.len() ==> #[trigger] order@[k] < i,
                    forall|a: int, b: int| 0 <= a < b < order@.len() ==> merge_before(chunks@, #[trigger] order@[a] as int, #[trigger] order@[b] as int),
                    forall|k: int| 0 <= k < pos ==> chunks@[#[trigger] order@[k] as int].seq <= key,
                decreases order@.len() - pos,
            {
                pos = pos + 1;
            }
            let ghost before = order@;
            proof {
                assert forall|k: int| pos <= k < before.len() implies key < chunks@[#[trigger] before[k] as int].seq by {
                    if k > pos as int {
                        assert(merge_before(chunks@, before[pos as int] as int, before[k] as int));
                    }
                }
            }
            order.insert(pos, i);
            proof {
                assert(order@ == before.insert(pos as int, i));
                assert forall|a: int, b: int| 0 <= a < b < order@.len() implies merge_before(chunks@, #[trigger] order@[a] as int, #[trigger] order@[b] as int) by {
                    if a < pos && b < pos {
                        assert(order@[a] == before[a] && order@[b] == before[b]);
                    } else if a < pos && b == pos {
                        assert(order@[a] == before[a]);
                        assert(chunks@[before[a] as int].seq <= key);
                    } else if a < pos && b > pos {
                        assert(order@[a] == before[a] && order@[b] == before[b - 1]);
                    } else if a == pos {
                        assert(order@[b] == before[b - 1]);
                        assert(key < chunks@[before[b - 1] as int].seq);
                    } else {
                        assert(order@[a] == before[a - 1] && order@[b] == before[b - 1]);
                    }
                }
                assert forall|j: int| 0 <= j < i + 1 && #[trigger] chunks@[j].status == ChunkStatus::Done implies order@.contains(
                    j as usize,
                ) by {
                    if j < i {
                        let k = choose|k: int| 0 <= k < before.len() && before[k] == j as usize;
                        if k < pos {
                            assert(order@[k] == before[k]);
                        } else {
                            assert(order@[k + 1] == before[k]);
                        }
                    } else {
                        assert(order@[pos as int] == i);
                    }
                }
                assert forall|k: int| 0 <= k < order@.len() implies #[trigger] order@[k] < i + 1 && chunks@[order@[k] as int].status
                    == ChunkStatus::Done by {
                    if k < pos {
                        assert(order@[k] == before[k]);
                    } else if k > pos {
                        assert(order@[k] == before[k - 1]);
                    }
                }
            }
        }
        i = i + 1;
    }
    order
}

/// Where a merged chunk's audio is read from.
#[derive(Debug, Clone, PartialEq, Eq)]
pub enum MergeSource {
    /// The path recorded for the chunk.
    Recorded(String),
    /// No path recorded: the fallback file named after this chunk id.
    Fallback(String),
}

/// The source of one chunk's audio.
pub open spec fn source_matches(c: ChunkBrief, s: MergeSource) -> bool {
    match c.audio_path {
        Some(p) => s matches MergeSource::Recorded(q) && q@ == p@,
        None => s matches MergeSource::Fallback(id) && id@ == c.id@,
    }
}

/// The audio sources of a task's merge: the Done chunks in merge order.
/// Refused when the task has no chunks, or no Done chunk.
pub fn merge_sources(task_id: &str, chunks: &[ChunkBrief]) -> (r: Result<Vec<MergeSource>, AppError>)
    ensures
        chunks@.len() == 0 ==> (r matches Err(AppError::InvalidInput(m)) && m@ == "Task "@ + task_id@ + " has no chunks"@),
        chunks@.len() > 0 && (forall|j: int| 0 <= j < chunks@.len() ==> #[trigger] chunks@[j].status != ChunkStatus::Done)
            ==> (r matches Err(AppError::InvalidInput(m)) && m@ == "No Done chunks for task "@ + task_id@),
        (exists|j: int| 0 <= j < chunks@.len() && #[trigger] chunks@[j].status == ChunkStatus::Done) ==> (r matches Ok(v)
            && exists|order: Seq<usize>| #[trigger] merge_order(chunks@, order) && order.len() == v@.len()
            && forall|k: int| 0 <= k < order.len() ==> source_matches(chunks@[#[trigger] order[k] as int], v@[k])),
{
    if chunks.len() == 0 {
        let mut m = String::from_str("Task ");
        m.append(task_id);
        m.append(" has no chunks");
        return Err(AppError::InvalidInput(m));
    }
    let order = sort_done(chunks);
    if order.len() == 0 {
        proof {
            assert forall|j: int| 0 <= j < chunks@.len() implies #[trigger] chunks@[j].status != ChunkStatus::Done by {
                if chunks@[j].status == ChunkStatus::Done {
                    assert(order@.contains(j as usize));
                }
            }
        }
        let mut m = String::from_str("No Done chunks for task ");
        m.append(task_id);
        return Err(AppError::InvalidInput(m));
    }
    let mut out: Vec<MergeSource> = Vec::new();
    let mut k: usize = 0;
    while k < order.len()
        invariant
            k <= order@.len(),
            merge_order(chunks@, order@),
            out@.len() == k,
            forall|q: int| 0 <= q < k ==> source_matches(chunks@[#[trigger] order@[q] as int], out@[q]),
        decreases order@.len() - k,
    {
        let c = &chunks[order[k]];
        let src = match &c.audio_path {
            Some(p) => MergeSource::Recorded(p.clone()),
            None => MergeSource::Fallback(c.id.clone()),
        };
        out.push(src);
        k = k + 1;
    }
    assert(chunks@[order@[0] as int].status == ChunkStatus::Done);
    Ok(out)
}

/// File name of a task's merged audio.
pub fn merged_file_name(task_id: &str) -> (r: String)
    ensures
        r@ == "task_"@ + task_id@ + ".wav"@,
{
    let mut m = String::from_str("task_");
    m.append(task_id);
    m.append(".wav");
    m
}

/// A task as the batch reconciliation sees it.
#[derive(Debug, Clone)]
pub struct TaskBrief {
    pub batch_id: Option<String>,
    pub status: TaskStatus,
}

/// Counts of a batch's tasks: all, done, failed (or merge-failed), and still
/// active (queued, chunking, processing or merging).
#[derive(Debug, Clone, Copy, PartialEq, Eq, Structural)]
pub struct StatusTally {
    pub total: u64,
    pub done: u64,
    pub failed: u64,
    pub active: u64,
}

/// Statuses that count as failed for a batch.
pub open spec fn counts_failed(s: TaskStatus) -> bool {
    s == TaskStatus::Failed || s == TaskStatus::MergingFailed
}

/// Statuses that count as active for a batch.
pub open spec fn counts_active(s: TaskStatus) -> bool {
    s == TaskStatus::Processing || s == TaskStatus::Merging || s == TaskStatus::Queued || s
        == TaskStatus::Chunking
}

/// The tally of a run of statuses.
pub open spec fn tally(s: Seq<TaskStatus>) -> StatusTally
    decreases s.len(),
{
    if s.len() == 0 {
        StatusTally { total: 0, done: 0, failed: 0, active: 0 }
    } else {
        let t = tally(s.drop_last());
        let x = s.last();
        StatusTally {
            total: (t.total + 1) as u64,
            done: if x == TaskStatus::Done { (t.done + 1) as u64 } else { t.done },
            failed: if counts_failed(x) { (t.failed + 1) as u64 } else { t.failed },
            active: if counts_active(x) { (t.active + 1) as u64 } else { t.active },
        }
    }
}

/// What reconciliation does to a batch's stored status.
#[derive(Debug, Clone, Copy, PartialEq, Eq, Structural)]
pub enum BatchVerdict {
    /// Every task is terminal, some done: mark the batch completed.
    Completed,
    /// Every task failed: mark the batch failed.
    Failed,
    /// Some task is active: a queued batch becomes processing.
    Processing,
    /// Leave the batch as it is.
    Unchanged,
}

/// The verdict for a batch whose tasks have the given tally.
pub open spec fn verdict_of(t: StatusTally) -> BatchVerdict {
    if t.total == 0 {
        BatchVerdict::Unchanged
    } else if t.done + t.failed >= t.total {
        if t.done > 0 {
            BatchVerdict::Completed
        } else {
            BatchVerdict::Failed
        }
    } else if t.active > 0 {
        BatchVerdict::Processing
    } else {
        BatchVerdict::Unchanged
    }
}

/// The statuses of the tasks of batch `b`, in order.
pub open spec fn statuses_in(tasks: Seq<TaskBrief>, b: Seq<char>) -> Seq<TaskStatus>
    decreases tasks.len(),
{
    if tasks.len() == 0 {
        Seq::empty()
    } else {
        let rest = statuses_in(tasks.drop_last(), b);
        if tasks.last().batch_id matches Some(x) && x@ == b {
            rest.push(tasks.last().status)
        } else {
            rest
        }
    }
}

proof fn lemma_tally_bound(s: Seq<TaskStatus>)
    requires
        s.len() <= u64::MAX,
    ensures
        tally(s).total == s.len(),
        tally(s).done <= s.len(),
        tally(s).failed <= s.len(),
        tally(s).active <= s.len(),
    decreases s.len(),
{
    if s.len() > 0 {
        lemma_tally_bound(s.drop_last());
    }
}

proof fn lemma_statuses_in_len(tasks: Seq<TaskBrief>, b: Seq<char>)
    ensures
        statuses_in(tasks, b).len() <= tasks.len(),
    decreases tasks.len(),
{
    if tasks.len() > 0 {
        lemma_statuses_in_len(tasks.drop_last(), b);
    }
}

proof fn lemma_statuses_in_present(tasks: Seq<TaskBrief>, b: Seq<char>, k: int)
    requires
        0 <= k < tasks.len(),
        tasks[k].batch_id matches Some(x) && x@ == b,
    ensures
        statuses_in(tasks, b).len() > 0,
    decreases tasks.len(),
{
    if k < tasks.len() - 1 {
        lemma_statuses_in_present(tasks.drop_last(), b, k);
    }
}

/// The verdict on a batch whose tasks have the statuses `s`, stated over the
/// statuses themselves: with every task done, failed or merge-failed, the
/// batch is completed if one is done and failed otherwise; with some task
/// not finished, it is processing when some task is queued, chunking,
/// processing or merging, and left alone otherwise.
pub proof fn lemma_batch_verdict_by_statuses(s: Seq<TaskStatus>)
    requires
        0 < s.len() < u64::MAX,
    ensures
        (forall|i: int| 0 <= i < s.len() ==> #[trigger] s[i] == TaskStatus::Done || s[i] == TaskStatus::Failed || s[i]
            == TaskStatus::MergingFailed) ==> verdict_of(tally(s)) == (if exists|i: int|
            0 <= i < s.len() && #[trigger] s[i] == TaskStatus::Done {
            BatchVerdict::Completed
        } else {
            BatchVerdict::Failed
        }),
        (exists|i: int| 0 <= i < s.len() && !(#[trigger] s[i] == TaskStatus::Done || s[i] == TaskStatus::Failed || s[i]
            == TaskStatus::MergingFailed)) ==> verdict_of(tally(s)) == (if exists|i: int|
            0 <= i < s.len() && (#[trigger] s[i] == TaskStatus::Processing || s[i] == TaskStatus::Merging || s[i]
                == TaskStatus::Queued || s[i] == TaskStatus::Chunking) {
            BatchVerdict::Processing
        } else {
            BatchVerdict::Unchanged
        }),
{
    lemma_tally_counts(s);
}

proof fn lemma_tally_counts(s: Seq<TaskStatus>)
    requires
        s.len() < u64::MAX,
    ensures
        tally(s).total == s.len(),
        tally(s).done + tally(s).failed <= tally(s).total,
        tally(s).active <= tally(s).total,
        tally(s).done + tally(s).failed == tally(s).total <==> (forall|i: int| 0 <= i < s.len() ==> #[trigger] s[i]
            == TaskStatus::Done || s[i] == TaskStatus::Failed || s[i] == TaskStatus::MergingFailed),
        tally(s).done > 0 <==> (exists|i: int| 0 <= i < s.len() && #[trigger] s[i] == TaskStatus::Done),
        tally(s).active > 0 <==> (exists|i: int| 0 <= i < s.len() && (#[trigger] s[i] == TaskStatus::Processing || s[i]
            == TaskStatus::Merging || s[i] == TaskStatus::Queued || s[i] == TaskStatus::Chunking)),
    decreases s.len(),
{
    if s.len() > 0 {
        let p = s.drop_last();
        lemma_tally_counts(p);
        let x = s.last();
        assert forall|i: int| 0 <= i < p.len() implies #[trigger] p[i] == s[i] by {}
        assert(s[s.len() - 1] == x);
        if tally(p).done + tally(p).failed == tally(p).total {
            assert forall|i: int| 0 <= i < p.len() implies #[trigger] s[i] == TaskStatus::Done || s[i]
                == TaskStatus::Failed || s[i] == TaskStatus::MergingFailed by {
                assert(p[i] == s[i]);
            }
        } else {
            let w = choose|i: int| 0 <= i < p.len() && !(#[trigger] p[i] == TaskStatus::Done || p[i] == TaskStatus::Failed
                || p[i] == TaskStatus::MergingFailed);
            assert(s[w] == p[w]);
        }
        if tally(p).done > 0 {
            let w = choose|i: int| 0 <= i < p.len() && #[trigger] p[i] == TaskStatus::Done;
            assert(s[w] == p[w]);
        }
        if tally(p).active > 0 {
            let w = choose|i: int| 0 <= i < p.len() && (#[trigger] p[i] == TaskStatus::Processing || p[i]
                == TaskStatus::Merging || p[i] == TaskStatus::Queued || p[i] == TaskStatus::Chunking);
            assert(s[w] == p[w]);
        }
        if exists|i: int| 0 <= i < s.len() && #[trigger] s[i] == TaskStatus::Done {
            let w = choose|i: int| 0 <= i < s.len() && #[trigger] s[i] == TaskStatus::Done;
            if w < p.len() {
                assert(p[w] == s[w]);
            }
        }
        if exists|i: int| 0 <= i < s.len() && (#[trigger] s[i] == TaskStatus::Processing || s[i] == TaskStatus::Merging
            || s[i] == TaskStatus::Queued || s[i] == TaskStatus::Chunking) {
            let w = choose|i: int| 0 <= i < s.len() && (#[trigger] s[i] == TaskStatus::Processing || s[i]
                == TaskStatus::Merging || s[i] == TaskStatus::Queued || s[i] == TaskStatus::Chunking);
            if w < p.len() {
                assert(p[w] == s[w]);
            }
        }
        if forall|i: int| 0 <= i < s.len() ==> #[trigger] s[i] == TaskStatus::Done || s[i] == TaskStatus::Failed || s[i]
            == TaskStatus::MergingFailed {
            assert forall|i: int| 0 <= i < p.len() implies #[trigger] p[i] == TaskStatus::Done || p[i]
                == TaskStatus::Failed || p[i] == TaskStatus::MergingFailed by {
                assert(p[i] == s[i]);
            }
        }
    }
}

/// The tally counted one task further.
fn tally_step(t: StatusTally, x: TaskStatus) -> (r: StatusTally)
    requires
        t.total < u64::MAX,
        t.done <= t.total,
        t.failed <= t.total,
        t.active <= t.total,
    ensures
        r == (StatusTally {
            total: (t.total + 1) as u64,
            done: if x == TaskStatus::Done { (t.done + 1) as u64 } else { t.done },
            failed: if counts_failed(x) { (t.failed + 1) as u64 } else { t.failed },
            active: if counts_active(x) { (t.active + 1) as u64 } else { t.active },
        }),
{
    StatusTally {
        total: t.total + 1,
        done: match x {
            TaskStatus::Done => t.done + 1,
            _ => t.done,
        },
        failed: match x {
            TaskStatus::Failed | TaskStatus::MergingFailed => t.failed + 1,
            _ => t.failed,
        },
        active: match x {
            TaskStatus::Processing | TaskStatus::Merging | TaskStatus::Queued | TaskStatus::Chunking => t.active + 1,
            _ => t.active,
        },
    }
}

/// Decides the verdict of a batch from its tally.
pub fn batch_verdict(t: &StatusTally) -> (r: BatchVerdict)
    ensures
        r == verdict_of(*t),
{
    if t.total == 0 {
        BatchVerdict::Unchanged
    } else if (t.done as u128) + (t.failed as u128) >= t.total as u128 {
        if t.done > 0 {
            BatchVerdict::Completed
        } else {
            BatchVerdict::Failed
        }
    } else if t.active > 0 {
        BatchVerdict::Processing
    } else {
        BatchVerdict::Unchanged
    }
}

/// The periodic batch reconciliation: one verdict per batch that has tasks,
/// each batch once (in order of first appearance).
pub fn reconcile_batches(tasks: &[TaskBrief]) -> (r: Vec<(String, BatchVerdict)>)
    ensures
        forall|i: int, j: int| 0 <= i < j < r@.len() ==> r@[i].0@ != r@[j].0@,
        forall|i: int| 0 <= i < r@.len() ==> statuses_in(tasks@, #[trigger] r@[i].0@).len() > 0 && r@[i].1
            == verdict_of(tally(statuses_in(tasks@, r@[i].0@))),
        forall|k: int| 0 <= k < tasks@.len() ==> (#[trigger] tasks@[k].batch_id matches Some(b) ==> exists|i: int|
            0 <= i < r@.len() && r@[i].0@ == b@),
{
    let mut table: Table<StatusTally> = Table::new();
    let mut i: usize = 0;
    while i < tasks.len()
        invariant
            i <= tasks@.len(),
            table.wf(),
            forall|b: Seq<char>| #[trigger] table@.contains_key(b) <==> statuses_in(tasks@.take(i as int), b).len() > 0,
            forall|b: Seq<char>| #[trigger] table@.contains_key(b) ==> table@[b] == tally(statuses_in(tasks@.take(i as int), b)),
        decreases tasks@.len() - i,
    {
        let ghost pre = tasks@.take(i as int);
        let ghost post = tasks@.take(i + 1);
        assert(post.drop_last() =~= pre);
        proof {
            assert forall|b: Seq<char>| #![trigger statuses_in(pre, b)] statuses_in(pre, b).len() <= i by {
                lemma_statuses_in_len(pre, b);
            }
        }
        match &tasks[i].batch_id {
            None => {
                assert forall|b: Seq<char>| #![trigger statuses_in(post, b)] statuses_in(post, b) == statuses_in(pre, b) by {}
            },
            Some(bid) => {
                let ghost key = bid@;
                let prev = match table.get(bid.as_str()) {
                    Some(t) => *t,
                    None => StatusTally { total: 0, done: 0, failed: 0, active: 0 },
                };
                proof {
                    lemma_tally_bound(statuses_in(pre, key));
                    assert(prev == tally(statuses_in(pre, key)));
                }
                let next = tally_step(prev, tasks[i].status);
                table.insert(bid.clone(), next);
                assert forall|b: Seq<char>| #![trigger statuses_in(post, b)] b != key implies statuses_in(post, b) == statuses_in(pre, b) by {}
                assert(statuses_in(post, key) == statuses_in(pre, key).push(tasks@[i as int].status));
                assert(statuses_in(post, key).drop_last() =~= statuses_in(pre, key));
            },
        }
        i = i + 1;
    }
    assert(tasks@.take(tasks@.len() as int) =~= tasks@);
    let mut out: Vec<(String, BatchVerdict)> = Vec::new();
    let n = table.len();
    let mut j: usize = 0;
    proof {
        table.lemma_seqs();
    }
    while j < n
        invariant
            j <= n,
            n == table.key_seq().len(),
            table.wf(),
            table.key_seq().len() == table.value_seq().len(),
            forall|a: int, b: int| 0 <= a < b < table.key_seq().len() ==> table.key_seq()[a] != table.key_seq()[b],
            forall|a: int| 0 <= a < table.key_seq().len() ==> table@[#[trigger] table.key_seq()[a]] == table.value_seq()[a],
            forall|k: Seq<char>| #[trigger] table@.contains_key(k) <==> table.key_seq().contains(k),
            forall|b: Seq<char>| #[trigger] table@.contains_key(b) <==> statuses_in(tasks@, b).len() > 0,
            forall|b: Seq<char>| #[trigger] table@.contains_key(b) ==> table@[b] == tally(statuses_in(tasks@, b)),
            out@.len() == j,
            forall|a: int| 0 <= a < j ==> (#[trigger] out@[a]).0@ == table.key_seq()[a],
            forall|a: int| 0 <= a < j ==> (#[trigger] out@[a]).1 == verdict_of(table.value_seq()[a]),
        decreases n - j,
    {
        let k = table.key_at(j).clone();
        let t = *table.value_at(j);
        let v = batch_verdict(&t);
        out.push((k, v));
        j = j + 1;
    }
    proof {
        assert forall|a: int| 0 <= a < out@.len() implies statuses_in(tasks@, #[trigger] out@[a].0@).len() > 0 && out@[a].1
            == verdict_of(tally(statuses_in(tasks@, out@[a].0@))) by {
            assert(table.key_seq().contains(table.key_seq()[a]));
            assert(table@.contains_key(table.key_seq()[a]));
            assert(out@[a].0@ == table.key_seq()[a]);
        }
        assert forall|k: int| 0 <= k < tasks@.len() implies (#[trigger] tasks@[k].batch_id matches Some(b) ==> exists|a: int|
            0 <= a < out@.len() && out@[a].0@ == b@) by {
            if let Some(b) = tasks@[k].batch_id {
                lemma_statuses_in_present(tasks@, b@, k);
                assert(table@.contains_key(b@));
                assert(table.key_seq().contains(b@));
                let a = choose|a: int| 0 <= a < table.key_seq().len() && table.key_seq()[a] == b@;
                assert(out@[a].0@ == b@);
            }
        }
    }
    out
}

/// The sum of the token counts of a run of sentences.
pub open spec fn token_sum(s: Seq<SentenceInfo>) -> int
    decreases s.len(),
{
    if s.len() == 0 {
        0
    } else {
        token_sum(s.drop_last()) + s.last().token_count
    }
}

/// Every running total of the token counts fits in an `i64`.
pub open spec fn token_sums_fit(s: Seq<SentenceInfo>) -> bool {
    forall|k: int| 0 <= k <= s.len() ==> i64::MIN <= #[trigger] token_sum(s.take(k)) <= i64::MAX
}

/// The total token count of a task's sentences.
pub fn total_tokens(sentences: &[SentenceInfo]) -> (r: i64)
    requires
        token_sums_fit(sentences@),
    ensures
        r == token_sum(sentences@),
{
    let mut sum: i64 = 0;
    let mut i: usize = 0;
    while i < sentences.len()
        invariant
            i <= sentences@.len(),
            token_sums_fit(sentences@),
            sum == token_sum(sentences@.take(i as int)),
        decreases sentences@.len() - i,
    {
        assert(sentences@.take(i + 1).drop_last() =~= sentences@.take(i as int));
        assert(i64::MIN <= token_sum(sentences@.take(i + 1)) <= i64::MAX);
        sum = sum + sentences[i].token_count;
        i = i + 1;
    }
    assert(sentences@.take(sentences@.len() as int) =~= sentences@);
    sum
}

/// A chunk to create: its 1-based sequence number and its text.
#[derive(Debug, Clone)]
pub struct ChunkDraft {
    pub seq: i32,
    pub text: String,
}

/// The chunks of a task, one per segment, numbered from 1 in order.
pub fn chunk_drafts(segments: &[ChunkSegment]) -> (r: Vec<ChunkDraft>)
    ensures
        r@.len() == segments@.len(),
        forall|k: int| 0 <= k < r@.len() ==> #[trigger] r@[k].seq == (k + 1) as i32 && r@[k].text@ == segments@[k].text@,
{
    let mut out: Vec<ChunkDraft> = Vec::new();
    let mut i: usize = 0;
    while i < segments.len()
        invariant
            i <= segments@.len(),
            out@.len() == i,
            forall|k: int| 0 <= k < i ==> #[trigger] out@[k].seq == (k + 1) as i32 && out@[k].text@ == segments@[k].text@,
        decreases segments@.len() - i,
    {
        let seq: i32 = (i + 1) as i32;
        out.push(ChunkDraft { seq, text: segments[i].text.clone() });
        i = i + 1;
    }
    out
}

} // verus!

verus! {

/// In a merge order every Done chunk appears exactly once: it is listed, and
/// no chunk is listed twice.
pub proof fn lemma_merge_order_once(chunks: Seq<ChunkBrief>, order: Seq<usize>, j: int)
    requires
        merge_order(chunks, order),
        chunks.len() <= usize::MAX,
        0 <= j < chunks.len(),
        chunks[j].status == ChunkStatus::Done,
    ensures
        exists|k: int| 0 <= k < order.len() && order[k] == j,
        forall|a: int, b: int| 0 <= a < order.len() && 0 <= b < order.len() && order[a] == j && order[b] == j ==> a == b,
{
    assert(order.contains(j as usize));
    let k = choose|k: int| 0 <= k < order.len() && order[k] == j as usize;
    assert(order[k] == j);
    assert forall|a: int, b: int| 0 <= a < order.len() && 0 <= b < order.len() && order[a] == j && order[b] == j implies a == b by {
        if a < b {
            assert(merge_before(chunks, order[a] as int, order[b] as int));
        } else if b < a {
            assert(merge_before(chunks, order[b] as int, order[a] as int));
        }
    }
}

} // verus!

verus! {

/// A task's row after its status is written at `now` (the store sets only
/// the status and the update time).
pub open spec fn with_status(t: Task, status: TaskStatus, now: i64) -> Task {
    Task { status, updated_at: now, ..t }
}

/// A task's row after its chunk progress is written at `now`: the chunk
/// count, no chunk done or failed, and the token total when it is positive.
pub open spec fn with_chunk_progress(t: Task, total: i32, total_tokens: i64, now: i64) -> Task {
    Task {
        total_chunks: total,
        done_chunks: 0,
        failed_chunks: 0,
        total_tokens: if total_tokens > 0 {
            total_tokens
        } else {
            t.total_tokens
        },
        updated_at: now,
        ..t
    }
}

/// Enqueueing, first step: a Pending task is moved to Queued (it stays
/// there until a worker starts its first chunk); any other task is refused
/// and left as it was.
pub fn enqueue_begin(task: &mut Task, now: i64) -> (r: Result<(), AppError>)
    ensures
        old(task).status == TaskStatus::Pending ==> r is Ok && *final(task) == with_status(
            *old(task),
            TaskStatus::Queued,
            now,
        ),
        old(task).status != TaskStatus::Pending ==> *final(task) == *old(task) && (r matches Err(
            AppError::InvalidInput(m),
        ) && m@ == task_status_message(old(task).id@, old(task).status, ", expected Pending"@)),
{
    match enqueue_check(task.id.as_str(), Some(task.status)) {
        Err(e) => Err(e),
        Ok(()) => {
            task.status = TaskStatus::Queued;
            task.updated_at = now;
            Ok(())
        },
    }
}

/// Enqueueing, last step, with the outcome of tokenizing and splitting the
/// task's text (the chunk drafts and the token total): when that failed the
/// task goes back to Pending so the caller can retry, and the error is
/// returned; otherwise its chunk count and token total are recorded, it
/// stays Queued, and the drafts are handed back to be stored and queued.
pub fn enqueue_finish(
    task: &mut Task,
    planned: Result<(Vec<ChunkDraft>, i64), AppError>,
    now: i64,
) -> (r: Result<Vec<ChunkDraft>, AppError>)
    ensures
        planned matches Err(e) ==> r == Err::<Vec<ChunkDraft>, AppError>(e) && *final(task) == with_status(
            *old(task),
            TaskStatus::Pending,
            now,
        ),
        planned matches Ok(p) ==> r == Ok::<Vec<ChunkDraft>, AppError>(p.0) && *final(task)
            == with_chunk_progress(*old(task), p.0@.len() as i32, p.1, now),
{
    match planned {
        Err(e) => {
            task.status = TaskStatus::Pending;
            task.updated_at = now;
            Err(e)
        },
        Ok((drafts, tokens)) => {
            let total: i32 = #[verifier::truncate] (drafts.len() as i32);
            task.total_chunks = total;
            task.done_chunks = 0;
            task.failed_chunks = 0;
            if tokens > 0 {
                task.total_tokens = tokens;
            }
            task.updated_at = now;
            Ok(drafts)
        },
    }
}

/// Once all chunks are done the task is set Merging; `merge_finish` records
/// the merge: on success the output path is set and the task is Done, on
/// failure it is MergingFailed and the error is returned.
pub fn merge_begin(task: &mut Task, now: i64)
    ensures
        *final(task) == with_status(*old(task), TaskStatus::Merging, now),
{
    task.status = TaskStatus::Merging;
    task.updated_at = now;
}

/// Records the outcome of merging a task's audio (see `merge_begin`).
pub fn merge_finish(task: &mut Task, merged: Result<String, AppError>, now: i64) -> (r: Result<(), AppError>)
    ensures
        merged matches Ok(path) ==> r is Ok && *final(task) == (Task {
            output_path: Some(path),
            status: TaskStatus::Done,
            updated_at: now,
            ..*old(task)
        }),
        merged matches Err(e) ==> r == Err::<(), AppError>(e) && *final(task) == with_status(
            *old(task),
            TaskStatus::MergingFailed,
            now,
        ),
{
    match merged {
        Ok(path) => {
            task.output_path = Some(path);
            task.status = TaskStatus::Done;
            task.updated_at = now;
            Ok(())
        },
        Err(e) => {
            task.status = TaskStatus::MergingFailed;
            task.updated_at = now;
            Err(e)
        },
    }
}

/// A Pending task whose enqueueing fails after it was queued is Pending
/// again, with nothing but its update time changed; one whose enqueueing
/// succeeds is Queued with its chunk count recorded.
pub proof fn lemma_enqueue_outcome(t: Task, n1: i64, n2: i64, total: i32, tokens: i64)
    requires
        t.status == TaskStatus::Pending,
    ensures
        with_status(with_status(t, TaskStatus::Queued, n1), TaskStatus::Pending, n2) == with_status(
            t,
            TaskStatus::Pending,
            n2,
        ),
        with_status(with_status(t, TaskStatus::Queued, n1), TaskStatus::Pending, n2).status == t.status,
        with_chunk_progress(with_status(t, TaskStatus::Queued, n1), total, tokens, n2).status == TaskStatus::Queued,
        with_chunk_progress(with_status(t, TaskStatus::Queued, n1), total, tokens, n2).total_chunks == total,
{
}

} // verus!

//! Submitting a batch: one child task per pending item, in item order, and
//! the batch's new totals. The store writes what the plan holds in one
//! transaction.

use vstd::prelude::*;
use crate::batch::{Batch, BatchStatus, BatchPendingItem, opt_text};
use crate::clock::now_millis;
use crate::error::AppError;
use crate::id::{Id, uuid_parses, invalid_id_message};
use crate::task::{CreateTaskRequest, Task, TaskStatus, TaskType};

verus! {

/// What a batch submission writes.
pub struct SubmitPlan {
    /// The child tasks, one per pending item, in item order.
    pub tasks: Vec<Task>,
    /// Number of child tasks (the item count as an `i32`).
    pub total_tasks: i32,
    /// Sum of the items' token estimates.
    pub total_tokens: i64,
    /// Sum of the items' character counts.
    pub total_chars: i64,
}

/// Sum of the token estimates of the items.
pub open spec fn tokens_sum(items: Seq<BatchPendingItem>) -> int
    decreases items.len(),
{
    if items.len() == 0 {
        0
    } else {
        tokens_sum(items.drop_last()) + items.last().token_estimate
    }
}

/// Sum of the character counts of the items.
pub open spec fn chars_sum(items: Seq<BatchPendingItem>) -> int
    decreases items.len(),
{
    if items.len() == 0 {
        0
    } else {
        chars_sum(items.drop_last()) + items.last().total_chars
    }
}

/// Every running total of the items fits an `i64`, so summing them does not
/// overflow.
pub open spec fn sums_fit(items: Seq<BatchPendingItem>) -> bool {
    forall|k: int|
        0 <= k <= items.len() ==> i64::MIN <= #[trigger] tokens_sum(items.take(k)) <= i64::MAX
            && i64::MIN <= chars_sum(items.take(k)) <= i64::MAX
}

/// `t` is the pending child task of `item` in batch `batch_id` (which is
/// also its group): the item's content and effective settings, no chunks,
/// no output.
pub open spec fn child_of(t: Task, item: BatchPendingItem, batch_id: Seq<char>) -> bool {
    &&& t.task_type == TaskType::BatchChild
    &&& t.status == TaskStatus::Pending
    &&& t.batch_id matches Some(b) && b@ == batch_id
    &&& t.group_id matches Some(g) && g@ == batch_id
    &&& t.content@ == item.content@
    &&& t.content_ref is None
    &&& t.title@ == item.effective_title@
    &&& t.voice@ == item.effective_voice@
    &&& t.model@ == item.effective_model@
    &&& opt_text(t.style) == opt_text(item.effective_style)
    &&& t.provider_id is None
    &&& t.total_chars == item.total_chars
    &&& t.total_tokens == item.token_estimate
    &&& t.total_chunks == 0 && t.done_chunks == 0 && t.failed_chunks == 0
    &&& t.output_path is None
    &&& t.created_at == t.updated_at
    &&& t.completed_at is None
}

/// The message when a batch has nothing to submit.
pub open spec fn nothing_to_submit() -> Seq<char> {
    "No pending items to submit"@
}

fn copy_opt(o: &Option<String>) -> (r: Option<String>)
    ensures
        opt_text(r) == opt_text(*o),
{
    match o {
        Some(s) => Some(s.clone()),
        None => None,
    }
}

/// Plans the submission of batch `batch_id` with its pending `items`, giving
/// the `i`-th child task identifier `ids[i]` and the time `now`. Refused when
/// there is no item, or when the batch identifier is not a UUID.
pub fn plan_submission_with(batch_id: &str, items: &[BatchPendingItem], ids: Vec<Id>, now: i64) -> (r: Result<
    SubmitPlan,
    AppError,
>)
    requires
        ids@.len() == items@.len(),
        sums_fit(items@),
    ensures
        items@.len() == 0 ==> (r matches Err(AppError::InvalidInput(m)) && m@ == nothing_to_submit()),
        items@.len() > 0 && !uuid_parses(batch_id@) ==> (r matches Err(AppError::Internal(m)) && m@
            == invalid_id_message(batch_id@)),
        items@.len() > 0 && uuid_parses(batch_id@) ==> (r matches Ok(p) && {
            &&& p.tasks@.len() == items@.len()
            &&& forall|i: int|
                0 <= i < items@.len() ==> child_of(#[trigger] p.tasks@[i], items@[i], batch_id@)
                    && p.tasks@[i].id@ == ids@[i]@ && p.tasks@[i].created_at == now
            &&& p.total_tasks == items@.len() as i32
            &&& p.total_tokens == tokens_sum(items@)
            &&& p.total_chars == chars_sum(items@)
        }),
{
    if items.len() == 0 {
        return Err(AppError::InvalidInput(String::from_str("No pending items to submit")));
    }
    let mut total_tokens: i64 = 0;
    let mut total_chars: i64 = 0;
    let mut k: usize = 0;
    while k < items.len()
        invariant
            k <= items@.len(),
            sums_fit(items@),
            total_tokens == tokens_sum(items@.take(k as int)),
            total_chars == chars_sum(items@.take(k as int)),
        decreases items@.len() - k,
    {
        proof {
            assert(items@.take(k + 1).drop_last() =~= items@.take(k as int));
            assert(i64::MIN <= tokens_sum(items@.take(k + 1)) <= i64::MAX);
        }
        total_tokens = total_tokens + items[k].token_estimate;
        total_chars = total_chars + items[k].total_chars;
        k = k + 1;
    }
    assert(items@.take(items@.len() as int) =~= items@);
    let mut rest = ids;
    let mut tasks: Vec<Task> = Vec::new();
    let mut i: usize = 0;
    while i < items.len()
        invariant
            i <= items@.len(),
            rest@ == ids@.skip(i as int),
            ids@.len() == items@.len(),
            tasks@.len() == i,
            i > 0 ==> uuid_parses(batch_id@),
            forall|j: int|
                0 <= j < i ==> child_of(#[trigger] tasks@[j], items@[j], batch_id@) && tasks@[j].id@ == ids@[j]@
                    && tasks@[j].created_at == now,
        decreases items@.len() - i,
    {
        let batch_ref = match Id::from_str(batch_id) {
            Ok(b) => b,
            Err(_) => {
                let mut m = String::from_str("Invalid ID: ");
                m.append(batch_id);
                return Err(AppError::Internal(m));
            },
        };
        let group_ref = match Id::from_str(batch_id) {
            Ok(g) => g,
            Err(_) => {
                let mut m = String::from_str("Invalid ID: ");
                m.append(batch_id);
                return Err(AppError::Internal(m));
            },
        };
        let item = &items[i];
        let id = rest.remove(0);
        proof {
            assert(ids@.skip(i as int)[0] == ids@[i as int]);
            assert(rest@ =~= ids@.skip(i + 1));
        }
        let req = CreateTaskRequest {
            task_type: TaskType::BatchChild,
            batch_id: Some(batch_ref),
            content: item.content.clone(),
            content_ref: None,
            title: item.effective_title.clone(),
            voice: item.effective_voice.clone(),
            model: item.effective_model.clone(),
            style: copy_opt(&item.effective_style),
            provider_id: None,
            total_chars: item.total_chars,
            total_tokens: item.token_estimate,
        };
        let mut task = Task::new_at(id, req, now);
        task.group_id = Some(group_ref);
        tasks.push(task);
        i = i + 1;
    }
    let total_tasks: i32 = #[verifier::truncate] (items.len() as i32);
    Ok(SubmitPlan { tasks, total_tasks, total_tokens, total_chars })
}

/// Plans the submission of batch `batch_id` with fresh task identifiers,
/// stamped now.
pub fn plan_submission(batch_id: &str, items: &[BatchPendingItem]) -> (r: Result<SubmitPlan, AppError>)
    requires
        sums_fit(items@),
    ensures
        items@.len() == 0 ==> (r matches Err(AppError::InvalidInput(m)) && m@ == nothing_to_submit()),
        items@.len() > 0 && !uuid_parses(batch_id@) ==> (r matches Err(AppError::Internal(m)) && m@
            == invalid_id_message(batch_id@)),
        items@.len() > 0 && uuid_parses(batch_id@) ==> (r matches Ok(p) && {
            &&& p.tasks@.len() == items@.len()
            &&& forall|i: int| 0 <= i < items@.len() ==> child_of(#[trigger] p.tasks@[i], items@[i], batch_id@)
            &&& p.total_tasks == items@.len() as i32
            &&& p.total_tokens == tokens_sum(items@)
            &&& p.total_chars == chars_sum(items@)
        }),
{
    let mut ids: Vec<Id> = Vec::new();
    let mut i: usize = 0;
    while i < items.len()
        invariant
            i <= items@.len(),
            ids@.len() == i,
        decreases items@.len() - i,
    {
        ids.push(Id::new());
        i = i + 1;
    }
    plan_submission_with(batch_id, items, ids, now_millis())
}

/// Records a planned submission at `now`: the batch is Queued with the
/// plan's totals, and its pending items are converted (none is left pending,
/// so the batch cannot be submitted twice).
pub fn record_submission(batch: &mut Batch, plan: &SubmitPlan, pending: &mut Vec<BatchPendingItem>, now: i64)
    ensures
        *final(batch) == (Batch {
            status: BatchStatus::Queued,
            total_items: plan.total_tasks,
            total_tokens: plan.total_tokens,
            total_chars: plan.total_chars,
            updated_at: now,
            ..*old(batch)
        }),
        final(pending)@.len() == 0,
{
    batch.status = BatchStatus::Queued;
    batch.total_items = plan.total_tasks;
    batch.total_tokens = plan.total_tokens;
    batch.total_chars = plan.total_chars;
    batch.updated_at = now;
    pending.clear();
}

} // verus!

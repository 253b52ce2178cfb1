//! The records and messages of the first-generation API: task records, batch
//! groups and their summaries, paginated responses and request bodies.
//! Timestamps are milliseconds since the Unix epoch; rendering them as text
//! belongs to the presentation layer.

use vstd::prelude::*;
use crate::id::{fresh_uuid_v7, fresh_uuid_v4, uuid_parses};
use crate::clock::now_millis;
use crate::text::str_equals;

verus! {

/// Status of a task record.
#[derive(Debug, Clone, Copy, PartialEq, Eq, Structural)]
pub enum TaskStatus {
    Pending,
    Queued,
    Synthesizing,
    Streaming,
    Completed,
    Failed,
    Cancelled,
}

/// The label a task record status is displayed with.
pub open spec fn task_status_label(s: TaskStatus) -> Seq<char> {
    match s {
        TaskStatus::Pending => "等待中"@,
        TaskStatus::Queued => "排队中"@,
        TaskStatus::Synthesizing => "合成中"@,
        TaskStatus::Streaming => "流式加载"@,
        TaskStatus::Completed => "已完成"@,
        TaskStatus::Failed => "失败"@,
        TaskStatus::Cancelled => "已取消"@,
    }
}

/// The name a task record status is stored and sent under.
pub open spec fn task_status_wire(s: TaskStatus) -> Seq<char> {
    match s {
        TaskStatus::Pending => "pending"@,
        TaskStatus::Queued => "queued"@,
        TaskStatus::Synthesizing => "synthesizing"@,
        TaskStatus::Streaming => "streaming"@,
        TaskStatus::Completed => "completed"@,
        TaskStatus::Failed => "failed"@,
        TaskStatus::Cancelled => "cancelled"@,
    }
}

impl TaskStatus {
    /// The display label.
    pub fn to_string(&self) -> (r: String)
        ensures
            r@ == task_status_label(*self),
    {
        String::from_str(
            match self {
                TaskStatus::Pending => "等待中",
                TaskStatus::Queued => "排队中",
                TaskStatus::Synthesizing => "合成中",
                TaskStatus::Streaming => "流式加载",
                TaskStatus::Completed => "已完成",
                TaskStatus::Failed => "失败",
                TaskStatus::Cancelled => "已取消",
            },
        )
    }

    /// The stored name.
    pub fn as_str(&self) -> (r: &'static str)
        ensures
            r@ == task_status_wire(*self),
    {
        match self {
            TaskStatus::Pending => "pending",
            TaskStatus::Queued => "queued",
            TaskStatus::Synthesizing => "synthesizing",
            TaskStatus::Streaming => "streaming",
            TaskStatus::Completed => "completed",
            TaskStatus::Failed => "failed",
            TaskStatus::Cancelled => "cancelled",
        }
    }

    /// Parses a stored name.
    pub fn from_str(s: &str) -> (r: Option<TaskStatus>)
        ensures
            r matches Some(t) ==> task_status_wire(t) == s@,
            r is None ==> forall|t: TaskStatus| task_status_wire(t) != s@,
    {
        if str_equals(s, "pending") {
            Some(TaskStatus::Pending)
        } else if str_equals(s, "queued") {
            Some(TaskStatus::Queued)
        } else if str_equals(s, "synthesizing") {
            Some(TaskStatus::Synthesizing)
        } else if str_equals(s, "streaming") {
            Some(TaskStatus::Streaming)
        } else if str_equals(s, "completed") {
            Some(TaskStatus::Completed)
        } else if str_equals(s, "failed") {
            Some(TaskStatus::Failed)
        } else if str_equals(s, "cancelled") {
            Some(TaskStatus::Cancelled)
        } else {
            None
        }
    }
}

/// Status of a batch group.
#[derive(Debug, Clone, Copy, PartialEq, Eq, Structural)]
pub enum GroupStatus {
    Pending,
    Processing,
    Paused,
    Completed,
    Failed,
}

/// The name a group status is stored and sent under.
pub open spec fn group_status_wire(s: GroupStatus) -> Seq<char> {
    match s {
        GroupStatus::Pending => "pending"@,
        GroupStatus::Processing => "processing"@,
        GroupStatus::Paused => "paused"@,
        GroupStatus::Completed => "completed"@,
        GroupStatus::Failed => "failed"@,
    }
}

/// The label a group status is displayed with.
pub open spec fn group_status_label(s: GroupStatus) -> Seq<char> {
    match s {
        GroupStatus::Pending => "待处理"@,
        GroupStatus::Processing => "处理中"@,
        GroupStatus::Paused => "已暂停"@,
        GroupStatus::Completed => "已完成"@,
        GroupStatus::Failed => "失败"@,
    }
}

impl GroupStatus {
    /// Parses a stored name.
    pub fn from_str(s: &str) -> (r: Option<GroupStatus>)
        ensures
            r matches Some(g) ==> group_status_wire(g) == s@,
            r is None ==> forall|g: GroupStatus| group_status_wire(g) != s@,
    {
        if str_equals(s, "pending") {
            Some(GroupStatus::Pending)
        } else if str_equals(s, "processing") {
            Some(GroupStatus::Processing)
        } else if str_equals(s, "paused") {
            Some(GroupStatus::Paused)
        } else if str_equals(s, "completed") {
            Some(GroupStatus::Completed)
        } else if str_equals(s, "failed") {
            Some(GroupStatus::Failed)
        } else {
            None
        }
    }

    /// The stored name.
    pub fn as_str(&self) -> (r: &'static str)
        ensures
            r@ == group_status_wire(*self),
    {
        match self {
            GroupStatus::Pending => "pending",
            GroupStatus::Processing => "processing",
            GroupStatus::Paused => "paused",
            GroupStatus::Completed => "completed",
            GroupStatus::Failed => "failed",
        }
    }

    /// The display label.
    pub fn to_string(&self) -> (r: String)
        ensures
            r@ == group_status_label(*self),
    {
        String::from_str(
            match self {
                GroupStatus::Pending => "待处理",
                GroupStatus::Processing => "处理中",
                GroupStatus::Paused => "已暂停",
                GroupStatus::Completed => "已完成",
                GroupStatus::Failed => "失败",
            },
        )
    }
}

/// Parsing a stored name gives back the status it was stored from.
pub proof fn lemma_group_status_roundtrip(g: GroupStatus, h: GroupStatus)
    ensures
        group_status_wire(g) == group_status_wire(h) ==> g == h,
{
    reveal_strlit("pending");
    reveal_strlit("processing");
    reveal_strlit("paused");
    reveal_strlit("completed");
    reveal_strlit("failed");
    if g != h && group_status_wire(g) == group_status_wire(h) {
        assert(group_status_wire(g).len() == group_status_wire(h).len());
        assert(group_status_wire(g)[0] == group_status_wire(h)[0]);
        assert(group_status_wire(g)[1] == group_status_wire(h)[1]);
    }
}

/// Parsing a stored task status name gives back the status it was stored
/// from.
pub proof fn lemma_task_status_roundtrip(s: TaskStatus, t: TaskStatus)
    ensures
        task_status_wire(s) == task_status_wire(t) ==> s == t,
{
    reveal_strlit("pending");
    reveal_strlit("queued");
    reveal_strlit("synthesizing");
    reveal_strlit("streaming");
    reveal_strlit("completed");
    reveal_strlit("failed");
    reveal_strlit("cancelled");
    if s != t && task_status_wire(s) == task_status_wire(t) {
        assert(task_status_wire(s).len() == task_status_wire(t).len());
        assert(task_status_wire(s)[0] == task_status_wire(t)[0]);
        assert(task_status_wire(s)[1] == task_status_wire(t)[1]);
    }
}

/// A batch of tasks imported together, with shared defaults.
#[derive(Debug, Clone)]
pub struct BatchGroup {
    /// A UUIDv7.
    pub id: String,
    pub name: String,
    pub status: GroupStatus,
    /// Default voice of the group's tasks.
    pub voice: Option<String>,
    /// Default model of the group's tasks.
    pub model: String,
    /// Default style/context of the group's tasks.
    pub context: Option<String>,
    pub created_at: i64,
    /// The group's tasks, in order.
    pub task_ids: Vec<String>,
    pub total_tasks: usize,
    pub completed_tasks: usize,
    pub failed_tasks: usize,
    pub total_tokens: usize,
}

/// The summary of a batch group sent in listings.
#[derive(Debug, Clone)]
pub struct GroupSummary {
    pub id: String,
    pub name: String,
    pub status: GroupStatus,
    pub voice: Option<String>,
    pub model: String,
    pub context: Option<String>,
    pub created_at: i64,
    pub total_tasks: usize,
    pub completed_tasks: usize,
    pub failed_tasks: usize,
    pub total_tokens: usize,
}

/// The view of an optional string.
pub open spec fn opt_view(o: Option<String>) -> Option<Seq<char>> {
    match o {
        Some(s) => Some(s@),
        None => None,
    }
}

fn clone_opt(o: &Option<String>) -> (r: Option<String>)
    ensures
        opt_view(r) == opt_view(*o),
{
    match o {
        Some(s) => Some(s.clone()),
        None => None,
    }
}

/// The status a group takes once all its tasks are terminal: Failed when none
/// completed, Completed otherwise (a partial success counts as completed).
pub open spec fn settled_group_status(completed: usize, failed: usize, total: usize, current: GroupStatus) -> GroupStatus {
    if completed + failed >= total {
        if failed == 0 {
            GroupStatus::Completed
        } else if completed == 0 {
            GroupStatus::Failed
        } else {
            GroupStatus::Completed
        }
    } else {
        current
    }
}

impl BatchGroup {
    /// A new, empty, pending group created at `now` with identifier `id`.
    pub fn new_at(
        id: String,
        name: String,
        voice: Option<String>,
        model: String,
        context: Option<String>,
        now: i64,
    ) -> (r: Self)
        ensures
            r.id == id && r.name == name && r.voice == voice && r.model == model && r.context == context,
            r.status == GroupStatus::Pending,
            r.created_at == now,
            r.task_ids@.len() == 0,
            r.total_tasks == 0 && r.completed_tasks == 0 && r.failed_tasks == 0 && r.total_tokens == 0,
    {
        BatchGroup {
            id,
            name,
            status: GroupStatus::Pending,
            voice,
            model,
            context,
            created_at: now,
            task_ids: Vec::new(),
            total_tasks: 0,
            completed_tasks: 0,
            failed_tasks: 0,
            total_tokens: 0,
        }
    }

    /// A new, empty, pending group with a fresh UUIDv7, created now.
    pub fn new(name: String, voice: Option<String>, model: String, context: Option<String>) -> (r: Self)
        ensures
            r.name == name && r.voice == voice && r.model == model && r.context == context,
            r.status == GroupStatus::Pending,
            r.task_ids@.len() == 0,
            r.total_tasks == 0 && r.completed_tasks == 0 && r.failed_tasks == 0 && r.total_tokens == 0,
    {
        BatchGroup::new_at(fresh_uuid_v7(), name, voice, model, context, now_millis())
    }

    /// The group's summary.
    pub fn to_summary(&self) -> (r: GroupSummary)
        ensures
            r.id@ == self.id@ && r.name@ == self.name@ && r.model@ == self.model@,
            r.status == self.status,
            opt_view(r.voice) == opt_view(self.voice) && opt_view(r.context) == opt_view(self.context),
            r.created_at == self.created_at,
            r.total_tasks == self.total_tasks && r.completed_tasks == self.completed_tasks,
            r.failed_tasks == self.failed_tasks && r.total_tokens == self.total_tokens,
    {
        GroupSummary {
            id: self.id.clone(),
            name: self.name.clone(),
            status: self.status,
            voice: clone_opt(&self.voice),
            model: self.model.clone(),
            context: clone_opt(&self.context),
            created_at: self.created_at,
            total_tasks: self.total_tasks,
            completed_tasks: self.completed_tasks,
            failed_tasks: self.failed_tasks,
            total_tokens: self.total_tokens,
        }
    }

    /// Records the group's progress; once every task is terminal the status
    /// settles (see `settled_group_status`).
    pub fn update_progress(&mut self, completed: usize, failed: usize, tokens: usize)
        requires
            completed + failed <= usize::MAX,
        ensures
            final(self).completed_tasks == completed,
            final(self).failed_tasks == failed,
            final(self).total_tokens == tokens,
            final(self).status == settled_group_status(completed, failed, old(self).total_tasks, old(self).status),
            final(self).id == old(self).id && final(self).name == old(self).name,
            final(self).total_tasks == old(self).total_tasks && final(self).created_at == old(self).created_at,
            final(self).task_ids == old(self).task_ids,
    {
        self.completed_tasks = completed;
        self.failed_tasks = failed;
        self.total_tokens = tokens;
        if self.completed_tasks + self.failed_tasks >= self.total_tasks {
            if self.failed_tasks == 0 {
                self.status = GroupStatus::Completed;
            } else if self.completed_tasks == 0 {
                self.status = GroupStatus::Failed;
            } else {
                self.status = GroupStatus::Completed;
            }
        }
    }
}

/// A settled group is Failed exactly when it has tasks, none completed and
/// some failed; a group whose tasks all completed is Completed.
pub proof fn lemma_settled_group(completed: usize, failed: usize, total: usize, current: GroupStatus)
    requires
        completed + failed >= total,
    ensures
        settled_group_status(completed, failed, total, current) == GroupStatus::Failed <==> (completed == 0
            && failed > 0),
        settled_group_status(completed, failed, total, current) != GroupStatus::Failed ==> settled_group_status(
            completed,
            failed,
            total,
            current,
        ) == GroupStatus::Completed,
{
}

/// A page of items with the paging it was cut with.
#[derive(Debug, Clone)]
pub struct PaginatedResponse<T> {
    pub items: Vec<T>,
    pub total: usize,
    pub page: usize,
    pub per_page: usize,
    pub total_pages: usize,
}

/// Pages needed for `total` items, `per_page` a page (one page when the page
/// size is zero).
pub open spec fn pages_for(total: nat, per_page: nat) -> nat {
    if per_page > 0 {
        ((total + per_page - 1) / per_page as int) as nat
    } else {
        1
    }
}

impl<T> PaginatedResponse<T> {
    /// Wraps a page of items.
    pub fn new(items: Vec<T>, total: usize, page: usize, per_page: usize) -> (r: Self)
        requires
            per_page > 0 ==> total + per_page <= usize::MAX,
        ensures
            r.items == items && r.total == total && r.page == page && r.per_page == per_page,
            r.total_pages == pages_for(total as nat, per_page as nat),
    {
        let total_pages = if per_page > 0 {
            (total + per_page - 1) / per_page
        } else {
            1
        };
        PaginatedResponse { items, total, page, per_page, total_pages }
    }
}

/// The page count is the least number of full pages that hold every item.
pub proof fn lemma_pages_cover(total: nat, per_page: nat)
    requires
        per_page > 0,
    ensures
        pages_for(total, per_page) * per_page >= total,
        total > 0 ==> (pages_for(total, per_page) - 1) * per_page < total,
{
    let p = pages_for(total, per_page);
    assert(p == (total + per_page - 1) / per_page as int);
    assert(p * per_page >= total && (total > 0 ==> (p - 1) * per_page < total)) by (nonlinear_arith)
        requires
            per_page > 0,
            p == (total + per_page - 1) / per_page as int,
    ;
}

/// Query parameters of the task listing.
#[derive(Debug, Clone)]
pub struct TaskListQuery {
    pub page: Option<usize>,
    pub per_page: Option<usize>,
    pub status: Option<String>,
    pub search: Option<String>,
    pub sort: Option<String>,
    pub group_id: Option<String>,
}

/// Counts over all task records.
#[derive(Debug, Clone, Copy, PartialEq, Eq, Structural)]
pub struct StatsSummary {
    pub total_tasks: usize,
    pub completed: usize,
    pub failed: usize,
    pub processing: usize,
    pub total_tokens: usize,
    pub total_chars: usize,
}

/// The answer to a synthesis request.
#[derive(Debug, Clone)]
pub struct SynthesizeResponse {
    pub task_id: String,
    pub status: TaskStatus,
    pub token_count: usize,
    pub char_count: usize,
    pub message: String,
}

/// A voice as listed to clients.
#[derive(Debug, Clone)]
pub struct VoiceInfo {
    pub id: String,
    pub name: String,
    pub language: String,
    pub gender: String,
    pub style: String,
    /// Where a preview of the voice can be heard.
    pub preview_url: Option<String>,
}

/// The voice listing.
#[derive(Debug, Clone)]
pub struct VoiceListResponse {
    pub voices: Vec<VoiceInfo>,
}

/// The health check answer.
#[derive(Debug, Clone)]
pub struct HealthResponse {
    pub status: String,
    pub version: String,
    pub timestamp: String,
}

/// An error as sent to clients.
#[derive(Debug, Clone)]
pub struct ErrorResponse {
    pub error: String,
    pub message: String,
    pub code: Option<String>,
}

/// The model a synthesis request uses when it names none.
pub fn default_model() -> (r: String)
    ensures
        r@ == "mimo-v2.5-tts"@,
{
    String::from_str("mimo-v2.5-tts")
}

/// A request to synthesize one text.
#[derive(Debug, Clone)]
pub struct SynthesizeRequest {
    pub text: String,
    pub voice: Option<String>,
    /// `default_model()` when absent.
    pub model: String,
    pub context: Option<String>,
    pub api_key: Option<String>,
    /// Optional custom task name.
    pub task_name: Option<String>,
}

/// A request to speak a text in a cloned voice.
#[derive(Debug, Clone)]
pub struct VoiceCloneRequest {
    pub text: String,
    pub voice_file_base64: String,
    pub context: Option<String>,
    pub api_key: Option<String>,
}

/// A request to speak a text in a described voice.
#[derive(Debug, Clone)]
pub struct VoiceDesignRequest {
    pub text: String,
    pub voice_description: String,
    pub context: Option<String>,
    pub api_key: Option<String>,
}

/// A request to import a batch of texts as a group.
#[derive(Debug, Clone)]
pub struct BatchImportRequest {
    /// Custom name; a UUIDv7 when absent.
    pub group_name: Option<String>,
    pub voice: Option<String>,
    pub model: String,
    pub context: Option<String>,
    pub api_key: Option<String>,
}

/// The answer to a batch import.
#[derive(Debug, Clone)]
pub struct BatchCreateResponse {
    pub group_id: String,
    pub group_name: String,
    pub task_count: usize,
    pub task_ids: Vec<String>,
}

/// A group with its tasks (of the presentation's task type `T`).
#[derive(Debug, Clone)]
pub struct GroupResponse<T> {
    pub id: String,
    pub name: String,
    pub status: GroupStatus,
    pub voice: Option<String>,
    pub model: String,
    pub context: Option<String>,
    pub created_at: i64,
    pub task_ids: Vec<String>,
    pub total_tasks: usize,
    pub completed_tasks: usize,
    pub failed_tasks: usize,
    pub total_tokens: usize,
    pub tasks: Vec<T>,
}

/// The group listing.
#[derive(Debug, Clone)]
pub struct GroupListResponse<T> {
    pub groups: Vec<GroupResponse<T>>,
}

/// Changes to a group's name or defaults.
#[derive(Debug, Clone)]
pub struct GroupUpdateRequest {
    pub name: Option<String>,
    pub voice: Option<String>,
    pub context: Option<String>,
}

/// The moments a task record's status changes leave behind.
#[derive(Debug, Clone, Copy, PartialEq, Eq, Structural)]
pub struct RecordTimes {
    pub status: TaskStatus,
    pub created_at: i64,
    pub started_at: Option<i64>,
    pub completed_at: Option<i64>,
}

impl RecordTimes {
    /// A new record: Pending, created at `now`.
    pub fn new_at(now: i64) -> (r: Self)
        ensures
            r == (RecordTimes { status: TaskStatus::Pending, created_at: now, started_at: None, completed_at: None }),
    {
        RecordTimes { status: TaskStatus::Pending, created_at: now, started_at: None, completed_at: None }
    }

    /// Sets the status at `now`: synthesis or streaming stamps the start once;
    /// completion, failure and cancellation stamp the end.
    pub fn update_status_at(&mut self, status: TaskStatus, now: i64)
        ensures
            final(self).status == status,
            final(self).created_at == old(self).created_at,
            final(self).started_at == if (status == TaskStatus::Synthesizing || status == TaskStatus::Streaming)
                && old(self).started_at is None {
                Some(now)
            } else {
                old(self).started_at
            },
            final(self).completed_at == if status == TaskStatus::Completed || status == TaskStatus::Failed
                || status == TaskStatus::Cancelled {
                Some(now)
            } else {
                old(self).completed_at
            },
    {
        match status {
            TaskStatus::Synthesizing | TaskStatus::Streaming => {
                if self.started_at.is_none() {
                    self.started_at = Some(now);
                }
            },
            TaskStatus::Completed | TaskStatus::Failed | TaskStatus::Cancelled => {
                self.completed_at = Some(now);
            },
            _ => {},
        }
        self.status = status;
    }

    /// Milliseconds between start and end (or `now` while running); `None`
    /// before the start.
    pub fn elapsed_millis_at(&self, now: i64) -> (r: Option<i128>)
        ensures
            self.started_at is None ==> r is None,
            self.started_at matches Some(s) ==> r == Some((match self.completed_at {
                Some(e) => e,
                None => now,
            } - s) as i128),
    {
        match self.started_at {
            None => None,
            Some(s) => {
                let end = match self.completed_at {
                    Some(e) => e,
                    None => now,
                };
                Some((end as i128) - (s as i128))
            },
        }
    }
}

/// A fresh record identifier (a random UUID).
pub fn new_record_id() -> (r: String)
    ensures
        uuid_parses(r@),
{
    fresh_uuid_v4()
}

} // verus!

//! Batch lifecycle: the states a batch import moves through.

use vstd::prelude::*;
use crate::error::{AppError, transition_error, transition_message};
use vstd::string::StringSliceAdditionalSpecFns;
use crate::id::Id;
use crate::clock::now_millis;

verus! {

/// Status of a batch import.
#[derive(Debug, Clone, Copy, PartialEq, Eq, Structural)]
pub enum BatchStatus {
    /// Files are being uploaded and items edited.
    Preparing,
    /// Submitted; child tasks created.
    Queued,
    /// At least one child task is processing.
    Processing,
    /// Paused by the user.
    Paused,
    /// All child tasks are terminal.
    Completed,
    /// All child tasks failed or were cancelled.
    Failed,
    /// Cancelled by the user.
    Cancelled,
}

/// The allowed edges of the batch lifecycle.
pub open spec fn batch_edge(from: BatchStatus, to: BatchStatus) -> bool {
    match (from, to) {
        (BatchStatus::Preparing, BatchStatus::Queued) => true,
        (BatchStatus::Preparing, BatchStatus::Cancelled) => true,
        (BatchStatus::Queued, BatchStatus::Processing) => true,
        (BatchStatus::Queued, BatchStatus::Cancelled) => true,
        (BatchStatus::Processing, BatchStatus::Completed) => true,
        (BatchStatus::Processing, BatchStatus::Failed) => true,
        (BatchStatus::Processing, BatchStatus::Paused) => true,
        (BatchStatus::Processing, BatchStatus::Cancelled) => true,
        (BatchStatus::Paused, BatchStatus::Processing) => true,
        (BatchStatus::Paused, BatchStatus::Cancelled) => true,
        (BatchStatus::Failed, BatchStatus::Queued) => true,
        _ => false,
    }
}

/// States after which `completed_at` is stamped.
pub open spec fn batch_is_terminal(s: BatchStatus) -> bool {
    s == BatchStatus::Completed || s == BatchStatus::Cancelled || s == BatchStatus::Failed
}

/// The variant's name, as `{:?}` prints it.
pub open spec fn batch_status_name(s: BatchStatus) -> Seq<char> {
    match s {
        BatchStatus::Preparing => "Preparing"@,
        BatchStatus::Queued => "Queued"@,
        BatchStatus::Processing => "Processing"@,
        BatchStatus::Paused => "Paused"@,
        BatchStatus::Completed => "Completed"@,
        BatchStatus::Failed => "Failed"@,
        BatchStatus::Cancelled => "Cancelled"@,
    }
}

impl BatchStatus {
    /// Whether the lifecycle allows moving from `self` to `next`.
    pub fn can_transition_to(&self, next: &Self) -> (r: bool)
        ensures
            r == batch_edge(*self, *next),
    {
        match (self, next) {
            (BatchStatus::Preparing, BatchStatus::Queued) => true,
            (BatchStatus::Preparing, BatchStatus::Cancelled) => true,
            (BatchStatus::Queued, BatchStatus::Processing) => true,
            (BatchStatus::Queued, BatchStatus::Cancelled) => true,
            (BatchStatus::Processing, BatchStatus::Completed) => true,
            (BatchStatus::Processing, BatchStatus::Failed) => true,
            (BatchStatus::Processing, BatchStatus::Paused) => true,
            (BatchStatus::Processing, BatchStatus::Cancelled) => true,
            (BatchStatus::Paused, BatchStatus::Processing) => true,
            (BatchStatus::Paused, BatchStatus::Cancelled) => true,
            (BatchStatus::Failed, BatchStatus::Queued) => true,
            _ => false,
        }
    }

    /// The variant's name.
    pub fn name(&self) -> (r: &'static str)
        ensures
            r@ == batch_status_name(*self),
    {
        proof {
            reveal_strlit("Preparing");
            reveal_strlit("Queued");
            reveal_strlit("Processing");
            reveal_strlit("Paused");
            reveal_strlit("Completed");
            reveal_strlit("Failed");
            reveal_strlit("Cancelled");
        }
        match self {
            BatchStatus::Preparing => "Preparing",
            BatchStatus::Queued => "Queued",
            BatchStatus::Processing => "Processing",
            BatchStatus::Paused => "Paused",
            BatchStatus::Completed => "Completed",
            BatchStatus::Failed => "Failed",
            BatchStatus::Cancelled => "Cancelled",
        }
    }
}

/// The part of a batch that its lifecycle changes: status and timestamps
/// (milliseconds since the Unix epoch).
#[derive(Debug, Clone, Copy, PartialEq, Eq, Structural)]
pub struct BatchLifecycle {
    pub status: BatchStatus,
    pub updated_at: i64,
    pub completed_at: Option<i64>,
}

impl BatchLifecycle {
    /// Moves to `status` at time `now`, stamping `completed_at` for terminal
    /// states; refused (and nothing changes) when the edge is not allowed.
    pub fn transition_to(&mut self, status: BatchStatus, now: i64) -> (r: Result<(), AppError>)
        ensures
            batch_edge(old(self).status, status) ==> r is Ok && *final(self) == (BatchLifecycle {
                status,
                updated_at: now,
                completed_at: if batch_is_terminal(status) {
                    Some(now)
                } else {
                    old(self).completed_at
                },
            }),
            !batch_edge(old(self).status, status) ==> *final(self) == *old(self) && (r matches Err(
                AppError::InvalidInput(m),
            ) && m@ == transition_message(
                batch_status_name(old(self).status),
                batch_status_name(status),
            )),
    {
        if !self.status.can_transition_to(&status) {
            return Err(transition_error(self.status.name(), status.name()));
        }
        let terminal = match status {
            BatchStatus::Completed | BatchStatus::Cancelled | BatchStatus::Failed => true,
            _ => false,
        };
        self.status = status;
        self.updated_at = now;
        if terminal {
            self.completed_at = Some(now);
        }
        Ok(())
    }
}

impl BatchLifecycle {
    /// A batch being prepared, created at `now`.
    pub fn new(now: i64) -> (r: Self)
        ensures
            r == (BatchLifecycle { status: BatchStatus::Preparing, updated_at: now, completed_at: None }),
    {
        BatchLifecycle { status: BatchStatus::Preparing, updated_at: now, completed_at: None }
    }
}

/// A batch import: its defaults, sizes and lifecycle (timestamps in
/// milliseconds since the Unix epoch).
#[derive(Debug, Clone)]
pub struct Batch {
    pub id: Id,
    pub status: BatchStatus,
    pub title: String,
    pub voice: String,
    pub model: String,
    pub style: Option<String>,
    pub total_items: i32,
    pub total_chars: i64,
    pub total_tokens: i64,
    pub created_at: i64,
    pub updated_at: i64,
    pub completed_at: Option<i64>,
}

impl Batch {
    /// The lifecycle part of the batch.
    pub open spec fn lifecycle(&self) -> BatchLifecycle {
        BatchLifecycle { status: self.status, updated_at: self.updated_at, completed_at: self.completed_at }
    }

    /// An empty batch being prepared, created at `now` with identifier `id`.
    pub fn new_at(id: Id, title: String, voice: String, model: String, style: Option<String>, now: i64) -> (r: Self)
        ensures
            r.id == id && r.title == title && r.voice == voice && r.model == model && r.style == style,
            r.total_items == 0 && r.total_chars == 0 && r.total_tokens == 0,
            r.created_at == now,
            r.lifecycle() == BatchLifecycle::new_spec(now),
    {
        Batch {
            id,
            status: BatchStatus::Preparing,
            title,
            voice,
            model,
            style,
            total_items: 0,
            total_chars: 0,
            total_tokens: 0,
            created_at: now,
            updated_at: now,
            completed_at: None,
        }
    }

    /// An empty batch being prepared, with a fresh identifier, created now.
    pub fn new(title: String, voice: String, model: String, style: Option<String>) -> (r: Self)
        ensures
            r.title == title && r.voice == voice && r.model == model && r.style == style,
            r.status == BatchStatus::Preparing && r.completed_at is None,
            r.total_items == 0 && r.total_chars == 0 && r.total_tokens == 0,
    {
        Batch::new_at(Id::new(), title, voice, model, style, now_millis())
    }

    /// The batch's defaults for its items.
    pub fn defaults(&self) -> (r: BatchDefaults)
        ensures
            r.voice@ == self.voice@ && r.model@ == self.model@ && opt_text(r.style) == opt_text(self.style),
    {
        BatchDefaults { voice: self.voice.clone(), model: self.model.clone(), style: copy_opt(&self.style) }
    }

    /// Moves to `status` at `now` as `BatchLifecycle::transition_to` does.
    pub fn transition_at(&mut self, status: BatchStatus, now: i64) -> (r: Result<(), AppError>)
        ensures
            batch_edge(old(self).status, status) ==> r is Ok && final(self).lifecycle() == (BatchLifecycle {
                status,
                updated_at: now,
                completed_at: if batch_is_terminal(status) {
                    Some(now)
                } else {
                    old(self).completed_at
                },
            }),
            !batch_edge(old(self).status, status) ==> final(self).lifecycle() == old(self).lifecycle()
                && (r matches Err(AppError::InvalidInput(m)) && m@ == transition_message(
                batch_status_name(old(self).status),
                batch_status_name(status),
            )),
            final(self).id == old(self).id && final(self).title == old(self).title,
            final(self).created_at == old(self).created_at,
    {
        let mut l = BatchLifecycle { status: self.status, updated_at: self.updated_at, completed_at: self.completed_at };
        let r = l.transition_to(status, now);
        self.status = l.status;
        self.updated_at = l.updated_at;
        self.completed_at = l.completed_at;
        r
    }

    /// Moves to `status` now.
    pub fn transition_to(&mut self, status: BatchStatus) -> (r: Result<(), AppError>)
        ensures
            batch_edge(old(self).status, status) ==> r is Ok && final(self).status == status && (batch_is_terminal(
                status,
            ) ==> final(self).completed_at is Some),
            !batch_edge(old(self).status, status) ==> final(self).lifecycle() == old(self).lifecycle() && r is Err,
    {
        self.transition_at(status, now_millis())
    }
}

impl BatchLifecycle {
    /// The fresh lifecycle `new` builds.
    pub open spec fn new_spec(now: i64) -> BatchLifecycle {
        BatchLifecycle { status: BatchStatus::Preparing, updated_at: now, completed_at: None }
    }
}

/// The text settings a batch gives its items by default.
#[derive(Debug, Clone)]
pub struct BatchDefaults {
    pub voice: String,
    pub model: String,
    pub style: Option<String>,
}

/// The preview of an item's content: its first 100 characters, followed
/// by `...` when it has more.
pub open spec fn pending_preview_of(content: Seq<char>) -> Seq<char> {
    if content.len() > 100 {
        content.take(100) + "..."@
    } else {
        content
    }
}

/// The text preview stored with a pending item.
pub fn pending_preview(content: &str) -> (r: String)
    ensures
        r@ == pending_preview_of(content@),
{
    let v = crate::text::chars_of(content);
    if v.len() <= 100 {
        return String::from_str(content);
    }
    let mut head: Vec<char> = Vec::new();
    let mut i: usize = 0;
    while i < 100
        invariant
            i <= 100,
            100 < v@.len(),
            head@ == v@.take(i as int),
        decreases 100 - i,
    {
        head.push(v[i]);
        assert(v@.take(i + 1) =~= v@.take(i as int).push(v@[i as int]));
        i = i + 1;
    }
    let mut r = crate::text::string_from_chars(head.as_slice());
    r.append("...");
    r
}

/// An uploaded file waiting in a batch: its content, the settings set on it,
/// and the settings in effect (its own where set, else the batch's; the title
/// defaults to the file name).
#[derive(Debug, Clone)]
pub struct BatchPendingItem {
    pub seq: i32,
    pub filename: String,
    pub content: String,
    /// Bytes of content.
    pub total_chars: i64,
    /// Half the bytes of content, rounded down.
    pub token_estimate: i64,
    pub custom_voice: Option<String>,
    pub custom_model: Option<String>,
    pub custom_title: Option<String>,
    pub custom_style: Option<String>,
    pub priority: i32,
    pub effective_voice: String,
    pub effective_model: String,
    pub effective_title: String,
    pub effective_style: Option<String>,
}

/// Changes to an item's settings; absent fields keep what was set.
#[derive(Debug, Clone)]
pub struct ItemOverride {
    pub voice: Option<String>,
    pub model: Option<String>,
    pub title: Option<String>,
    pub style: Option<String>,
}

/// The view of an optional string.
pub open spec fn opt_text(o: Option<String>) -> Option<Seq<char>> {
    match o {
        Some(s) => Some(s@),
        None => None,
    }
}

/// `o`, else `d`.
pub open spec fn or_else(o: Option<Seq<char>>, d: Seq<char>) -> Seq<char> {
    match o {
        Some(s) => s,
        None => d,
    }
}

/// `o`, else `d` (both optional).
pub open spec fn or_opt(o: Option<Seq<char>>, d: Option<Seq<char>>) -> Option<Seq<char>> {
    match o {
        Some(s) => Some(s),
        None => d,
    }
}

/// The settings of an item follow from what is set on it and the batch's
/// defaults.
pub open spec fn effective_ok(item: BatchPendingItem, batch: BatchDefaults) -> bool {
    &&& item.effective_voice@ == or_else(opt_text(item.custom_voice), batch.voice@)
    &&& item.effective_model@ == or_else(opt_text(item.custom_model), batch.model@)
    &&& item.effective_title@ == or_else(opt_text(item.custom_title), item.filename@)
    &&& opt_text(item.effective_style) == or_opt(opt_text(item.custom_style), opt_text(batch.style))
}

fn copy_opt(o: &Option<String>) -> (r: Option<String>)
    ensures
        opt_text(r) == opt_text(*o),
{
    match o {
        Some(s) => Some(s.clone()),
        None => None,
    }
}

fn pick(o: &Option<String>, d: &String) -> (r: String)
    ensures
        r@ == or_else(opt_text(*o), d@),
{
    match o {
        Some(s) => s.clone(),
        None => d.clone(),
    }
}

fn pick_opt(o: &Option<String>, d: &Option<String>) -> (r: Option<String>)
    ensures
        opt_text(r) == or_opt(opt_text(*o), opt_text(*d)),
{
    match o {
        Some(s) => Some(s.clone()),
        None => copy_opt(d),
    }
}

impl BatchPendingItem {
    /// An item for `filename` with the given settings set on it, the rest
    /// from the batch.
    pub fn with_settings(
        batch: &BatchDefaults,
        seq: i32,
        filename: &str,
        content: &str,
        custom_voice: Option<String>,
        custom_model: Option<String>,
        custom_title: Option<String>,
        custom_style: Option<String>,
    ) -> (r: Self)
        ensures
            effective_ok(r, *batch),
            r.seq == seq && r.filename@ == filename@ && r.content@ == content@,
            r.total_chars == content.spec_bytes().len() as i64,
            r.token_estimate == (content.spec_bytes().len() / 2) as i64,
            opt_text(r.custom_voice) == opt_text(custom_voice) && opt_text(r.custom_model) == opt_text(custom_model),
            opt_text(r.custom_title) == opt_text(custom_title) && opt_text(r.custom_style) == opt_text(custom_style),
            r.priority == 0,
    {
        let name = String::from_str(filename);
        let effective_voice = pick(&custom_voice, &batch.voice);
        let effective_model = pick(&custom_model, &batch.model);
        let effective_title = pick(&custom_title, &name);
        let effective_style = pick_opt(&custom_style, &batch.style);
        let bytes = content.as_bytes();
        let n: i64 = #[verifier::truncate] (bytes.len() as i64);
        let half: i64 = #[verifier::truncate] ((bytes.len() / 2) as i64);
        BatchPendingItem {
            seq,
            filename: name,
            content: String::from_str(content),
            total_chars: n,
            token_estimate: half,
            custom_voice,
            custom_model,
            custom_title,
            custom_style,
            priority: 0,
            effective_voice,
            effective_model,
            effective_title,
            effective_style,
        }
    }

    /// A freshly uploaded item: nothing set on it.
    pub fn from_upload(batch: &BatchDefaults, seq: i32, filename: &str, content: &str) -> (r: Self)
        ensures
            effective_ok(r, *batch),
            r.seq == seq && r.filename@ == filename@ && r.content@ == content@,
            r.total_chars == content.spec_bytes().len() as i64,
            r.token_estimate == (content.spec_bytes().len() / 2) as i64,
            r.custom_voice is None && r.custom_model is None && r.custom_title is None && r.custom_style is None,
    {
        BatchPendingItem::with_settings(batch, seq, filename, content, None, None, None, None)
    }

    /// An item with only a custom voice and title (either may be absent).
    pub fn new_for_test(
        batch: &BatchDefaults,
        filename: &str,
        content: &str,
        custom_overrides: Option<(Option<String>, Option<String>)>,
    ) -> (r: Self)
        ensures
            effective_ok(r, *batch),
            r.seq == 0 && r.filename@ == filename@ && r.content@ == content@,
            r.total_chars == content.spec_bytes().len() as i64,
            r.token_estimate == (content.spec_bytes().len() / 2) as i64,
            r.priority == 0,
            r.custom_model is None && r.custom_style is None,
            custom_overrides matches Some((v, t)) ==> opt_text(r.custom_voice) == opt_text(v) && opt_text(
                r.custom_title,
            ) == opt_text(t),
            custom_overrides is None ==> r.custom_voice is None && r.custom_title is None,
    {
        let (custom_voice, custom_title) = match custom_overrides {
            Some(p) => p,
            None => (None, None),
        };
        BatchPendingItem::with_settings(batch, 0, filename, content, custom_voice, None, custom_title, None)
    }

    /// The item with `overrides` applied: a setting given in the override
    /// replaces the item's own, the others stay; what is in effect follows.
    pub fn with_overrides(&self, batch: &BatchDefaults, overrides: &ItemOverride) -> (r: Self)
        ensures
            effective_ok(r, *batch),
            r.seq == self.seq && r.filename@ == self.filename@ && r.content@ == self.content@,
            r.total_chars == self.total_chars && r.token_estimate == self.token_estimate,
            r.priority == self.priority,
            opt_text(r.custom_voice) == or_opt(opt_text(overrides.voice), opt_text(self.custom_voice)),
            opt_text(r.custom_model) == or_opt(opt_text(overrides.model), opt_text(self.custom_model)),
            opt_text(r.custom_title) == or_opt(opt_text(overrides.title), opt_text(self.custom_title)),
            opt_text(r.custom_style) == or_opt(opt_text(overrides.style), opt_text(self.custom_style)),
    {
        let custom_voice = pick_opt(&overrides.voice, &self.custom_voice);
        let custom_model = pick_opt(&overrides.model, &self.custom_model);
        let custom_title = pick_opt(&overrides.title, &self.custom_title);
        let custom_style = pick_opt(&overrides.style, &self.custom_style);
        let effective_voice = pick(&custom_voice, &batch.voice);
        let effective_model = pick(&custom_model, &batch.model);
        let effective_title = pick(&custom_title, &self.filename);
        let effective_style = pick_opt(&custom_style, &batch.style);
        BatchPendingItem {
            seq: self.seq,
            filename: self.filename.clone(),
            content: self.content.clone(),
            total_chars: self.total_chars,
            token_estimate: self.token_estimate,
            custom_voice,
            custom_model,
            custom_title,
            custom_style,
            priority: self.priority,
            effective_voice,
            effective_model,
            effective_title,
            effective_style,
        }
    }
}

/// Completed and Cancelled batches never move again; every other status has
/// a way out, and a failed batch can only be retried (re-queued) or left alone.
pub proof fn lemma_batch_lifecycle_shape(from: BatchStatus, to: BatchStatus)
    ensures
        from == BatchStatus::Completed ==> !batch_edge(from, to),
        from == BatchStatus::Cancelled ==> !batch_edge(from, to),
        from == BatchStatus::Failed ==> (batch_edge(from, to) <==> to == BatchStatus::Queued),
        batch_edge(from, to) ==> from != to,
        (from == BatchStatus::Preparing || from == BatchStatus::Queued || from
            == BatchStatus::Processing || from == BatchStatus::Paused) ==> batch_edge(
            from,
            BatchStatus::Cancelled,
        ),
{
}

} // verus!

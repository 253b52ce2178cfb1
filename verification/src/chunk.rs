//! Chunk lifecycle: the states one synthesized text segment moves through.

use vstd::prelude::*;
use crate::error::{AppError, transition_error, transition_message};
use crate::id::Id;
use crate::clock::{now_millis, millis_reading};

verus! {

/// Status of a chunk.
#[derive(Debug, Clone, Copy, PartialEq, Eq, Structural)]
pub enum ChunkStatus {
    /// Created, waiting for the chunk queue.
    Pending,
    /// In the chunk queue.
    Queued,
    /// Dispatched to the synthesis API.
    Processing,
    /// Completed successfully.
    Done,
    /// Failed, retryable.
    Failed,
    /// Exceeded its retries; terminal.
    Dead,
}

/// The allowed edges of the chunk lifecycle.
pub open spec fn chunk_edge(from: ChunkStatus, to: ChunkStatus) -> bool {
    match (from, to) {
        (ChunkStatus::Pending, ChunkStatus::Queued) => true,
        (ChunkStatus::Queued, ChunkStatus::Processing) => true,
        (ChunkStatus::Processing, ChunkStatus::Done) => true,
        (ChunkStatus::Processing, ChunkStatus::Failed) => true,
        (ChunkStatus::Failed, ChunkStatus::Queued) => true,
        (ChunkStatus::Failed, ChunkStatus::Dead) => true,
        _ => false,
    }
}

/// The variant's name, as `{:?}` prints it.
pub open spec fn chunk_status_name(s: ChunkStatus) -> Seq<char> {
    match s {
        ChunkStatus::Pending => "Pending"@,
        ChunkStatus::Queued => "Queued"@,
        ChunkStatus::Processing => "Processing"@,
        ChunkStatus::Done => "Done"@,
        ChunkStatus::Failed => "Failed"@,
        ChunkStatus::Dead => "Dead"@,
    }
}

impl ChunkStatus {
    /// Whether the lifecycle allows moving from `self` to `next`.
    pub fn can_transition_to(&self, next: &Self) -> (r: bool)
        ensures
            r == chunk_edge(*self, *next),
    {
        match (self, next) {
            (ChunkStatus::Pending, ChunkStatus::Queued) => true,
            (ChunkStatus::Queued, ChunkStatus::Processing) => true,
            (ChunkStatus::Processing, ChunkStatus::Done) => true,
            (ChunkStatus::Processing, ChunkStatus::Failed) => true,
            (ChunkStatus::Failed, ChunkStatus::Queued) => true,
            (ChunkStatus::Failed, ChunkStatus::Dead) => true,
            _ => false,
        }
    }

    /// The variant's name.
    pub fn name(&self) -> (r: &'static str)
        ensures
            r@ == chunk_status_name(*self),
    {
        proof {
            reveal_strlit("Pending");
            reveal_strlit("Queued");
            reveal_strlit("Processing");
            reveal_strlit("Done");
            reveal_strlit("Failed");
            reveal_strlit("Dead");
        }
        match self {
            ChunkStatus::Pending => "Pending",
            ChunkStatus::Queued => "Queued",
            ChunkStatus::Processing => "Processing",
            ChunkStatus::Done => "Done",
            ChunkStatus::Failed => "Failed",
            ChunkStatus::Dead => "Dead",
        }
    }
}

/// The part of a chunk that its lifecycle changes (timestamps in milliseconds
/// since the Unix epoch).
#[derive(Debug, Clone, Copy, PartialEq, Eq, Structural)]
pub struct ChunkLifecycle {
    pub status: ChunkStatus,
    pub retry_count: i32,
    pub max_retries: i32,
    pub updated_at: i64,
    pub completed_at: Option<i64>,
}

impl ChunkLifecycle {
    /// A fresh chunk: Pending, no retries yet, three retries allowed.
    pub fn new(now: i64) -> (r: Self)
        ensures
            r == (ChunkLifecycle {
                status: ChunkStatus::Pending,
                retry_count: 0,
                max_retries: 3,
                updated_at: now,
                completed_at: None,
            }),
    {
        ChunkLifecycle {
            status: ChunkStatus::Pending,
            retry_count: 0,
            max_retries: 3,
            updated_at: now,
            completed_at: None,
        }
    }

    /// Replaces the retry limit.
    pub fn with_retry_config(self, max_retries: i32) -> (r: Self)
        ensures
            r == (ChunkLifecycle { max_retries, ..self }),
    {
        ChunkLifecycle { max_retries, ..self }
    }

    /// Moves to `status` at time `now`; a move to Failed counts a retry and a
    /// move to Done stamps `completed_at`. Refused edges change nothing.
    pub fn transition_to(&mut self, status: ChunkStatus, now: i64) -> (r: Result<(), AppError>)
        requires
            status == ChunkStatus::Failed && chunk_edge(old(self).status, status)
                ==> old(self).retry_count < i32::MAX,
        ensures
            chunk_edge(old(self).status, status) ==> r is Ok && *final(self) == (ChunkLifecycle {
                status,
                retry_count: if status == ChunkStatus::Failed {
                    (old(self).retry_count + 1) as i32
                } else {
                    old(self).retry_count
                },
                max_retries: old(self).max_retries,
                updated_at: now,
                completed_at: if status == ChunkStatus::Done {
                    Some(now)
                } else {
                    old(self).completed_at
                },
            }),
            !chunk_edge(old(self).status, status) ==> *final(self) == *old(self) && (r matches Err(
                AppError::InvalidInput(m),
            ) && m@ == transition_message(
                chunk_status_name(old(self).status),
                chunk_status_name(status),
            )),
    {
        if !self.status.can_transition_to(&status) {
            return Err(transition_error(self.status.name(), status.name()));
        }
        let is_done = status == ChunkStatus::Done;
        if status == ChunkStatus::Failed {
            self.retry_count = self.retry_count + 1;
        }
        self.status = status;
        self.updated_at = now;
        if is_done {
            self.completed_at = Some(now);
        }
        Ok(())
    }
}

/// A segment of a task's text, synthesized on its own (timestamps in
/// milliseconds since the Unix epoch).
#[derive(Debug, Clone)]
pub struct Chunk {
    pub id: Id,
    pub task_id: Id,
    /// 1-based position in the task.
    pub seq: i32,
    pub text: String,
    pub status: ChunkStatus,
    pub retry_count: i32,
    pub max_retries: i32,
    pub priority: i64,
    pub audio_path: Option<String>,
    pub created_at: i64,
    pub updated_at: i64,
    pub completed_at: Option<i64>,
}

impl Chunk {
    /// The lifecycle part of the chunk.
    pub open spec fn lifecycle(&self) -> ChunkLifecycle {
        ChunkLifecycle {
            status: self.status,
            retry_count: self.retry_count,
            max_retries: self.max_retries,
            updated_at: self.updated_at,
            completed_at: self.completed_at,
        }
    }

    /// A pending chunk of `task_id` created at `now` with identifier `id`.
    pub fn new_at(id: Id, task_id: Id, seq: i32, text: String, now: i64) -> (r: Self)
        ensures
            r.id == id && r.task_id == task_id && r.seq == seq && r.text == text,
            r.lifecycle() == ChunkLifecycle::new_spec(now),
            r.priority == 0 && r.audio_path is None && r.created_at == now,
    {
        Chunk {
            id,
            task_id,
            seq,
            text,
            status: ChunkStatus::Pending,
            retry_count: 0,
            max_retries: 3,
            priority: 0,
            audio_path: None,
            created_at: now,
            updated_at: now,
            completed_at: None,
        }
    }

    /// A pending chunk of `task_id` with a fresh identifier, created now.
    pub fn new(task_id: Id, seq: i32, text: String) -> (r: Self)
        ensures
            r.task_id == task_id && r.seq == seq && r.text == text,
            r.status == ChunkStatus::Pending && r.retry_count == 0 && r.max_retries == 3,
            r.completed_at is None && r.priority == 0 && r.audio_path is None,
    {
        Chunk::new_at(Id::new(), task_id, seq, text, now_millis())
    }

    /// Moves to `status` at `now` as `ChunkLifecycle::transition_to` does.
    pub fn transition_at(&mut self, status: ChunkStatus, now: i64) -> (r: Result<(), AppError>)
        requires
            status == ChunkStatus::Failed && chunk_edge(old(self).status, status)
                ==> old(self).retry_count < i32::MAX,
        ensures
            chunk_edge(old(self).status, status) ==> r is Ok && final(self).lifecycle() == ChunkLifecycle::transition_spec(
                old(self).lifecycle(),
                status,
                now,
            ),
            !chunk_edge(old(self).status, status) ==> final(self).lifecycle() == old(self).lifecycle()
                && (r matches Err(AppError::InvalidInput(m)) && m@ == transition_message(
                chunk_status_name(old(self).status),
                chunk_status_name(status),
            )),
            final(self).id == old(self).id && final(self).task_id == old(self).task_id,
            final(self).seq == old(self).seq && final(self).text == old(self).text,
            final(self).priority == old(self).priority && final(self).audio_path == old(self).audio_path,
            final(self).created_at == old(self).created_at,
    {
        let mut l = ChunkLifecycle {
            status: self.status,
            retry_count: self.retry_count,
            max_retries: self.max_retries,
            updated_at: self.updated_at,
            completed_at: self.completed_at,
        };
        let r = l.transition_to(status, now);
        self.status = l.status;
        self.retry_count = l.retry_count;
        self.max_retries = l.max_retries;
        self.updated_at = l.updated_at;
        self.completed_at = l.completed_at;
        r
    }

    /// Moves to `status` now.
    pub fn transition_to(&mut self, status: ChunkStatus) -> (r: Result<(), AppError>)
        requires
            status == ChunkStatus::Failed && chunk_edge(old(self).status, status)
                ==> old(self).retry_count < i32::MAX,
        ensures
            chunk_edge(old(self).status, status) ==> r is Ok && final(self).status == status
                && final(self).retry_count == if status == ChunkStatus::Failed {
                old(self).retry_count + 1
            } else {
                old(self).retry_count as int
            } && (status == ChunkStatus::Done ==> final(self).completed_at is Some),
            chunk_edge(old(self).status, status) && status != ChunkStatus::Done ==> final(self).completed_at
                == old(self).completed_at,
            exists|t: i64| millis_reading(t) && (chunk_edge(old(self).status, status) ==> final(self).lifecycle()
                == #[trigger] ChunkLifecycle::transition_spec(old(self).lifecycle(), status, t)),
            !chunk_edge(old(self).status, status) ==> final(self).lifecycle() == old(self).lifecycle()
                && (r matches Err(AppError::InvalidInput(m)) && m@ == transition_message(
                chunk_status_name(old(self).status),
                chunk_status_name(status),
            )),
            final(self).id == old(self).id && final(self).task_id == old(self).task_id,
            final(self).seq == old(self).seq && final(self).text == old(self).text,
            final(self).priority == old(self).priority && final(self).audio_path == old(self).audio_path,
            final(self).created_at == old(self).created_at,
    {
        let t = now_millis();
        let r = self.transition_at(status, t);
        assert(millis_reading(t) && (chunk_edge(old(self).status, status) ==> self.lifecycle()
            == ChunkLifecycle::transition_spec(old(self).lifecycle(), status, t)));
        r
    }

    /// The chunk with a different retry limit.
    pub fn with_retry_config(self, max_retries: i32) -> (r: Self)
        ensures
            r.max_retries == max_retries,
            r.lifecycle() == (ChunkLifecycle { max_retries, ..self.lifecycle() }),
            r.id == self.id && r.task_id == self.task_id && r.seq == self.seq && r.text == self.text,
    {
        Chunk { max_retries, ..self }
    }
}

impl ChunkLifecycle {
    /// The fresh lifecycle `new` builds.
    pub open spec fn new_spec(now: i64) -> ChunkLifecycle {
        ChunkLifecycle {
            status: ChunkStatus::Pending,
            retry_count: 0,
            max_retries: 3,
            updated_at: now,
            completed_at: None,
        }
    }

    /// The lifecycle after an allowed move to `status` at `now`.
    pub open spec fn transition_spec(l: ChunkLifecycle, status: ChunkStatus, now: i64) -> ChunkLifecycle {
        ChunkLifecycle {
            status,
            retry_count: if status == ChunkStatus::Failed {
                (l.retry_count + 1) as i32
            } else {
                l.retry_count
            },
            max_retries: l.max_retries,
            updated_at: now,
            completed_at: if status == ChunkStatus::Done {
                Some(now)
            } else {
                l.completed_at
            },
        }
    }
}

/// Dead and Done chunks never move again; a chunk reaches Done only from
/// Processing, and a failed chunk can only be re-queued or declared dead.
pub proof fn lemma_chunk_lifecycle_shape(from: ChunkStatus, to: ChunkStatus)
    ensures
        from == ChunkStatus::Dead ==> !chunk_edge(from, to),
        from == ChunkStatus::Done ==> !chunk_edge(from, to),
        chunk_edge(from, ChunkStatus::Done) <==> from == ChunkStatus::Processing,
        from == ChunkStatus::Failed ==> (chunk_edge(from, to) <==> (to == ChunkStatus::Queued || to
            == ChunkStatus::Dead)),
        chunk_edge(from, to) ==> from != to,
{
}

} // verus!

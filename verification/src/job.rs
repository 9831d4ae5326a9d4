use vstd::prelude::*;

use crate::backoff;

verus! {

/// Identifier of a job, generated when the job is created and stable for
/// its whole lifetime.
pub type JobId = String;

/// Advisory status stored inside a job record. The queue's list membership,
/// not this field, is the source of truth for scheduling.
#[derive(Clone, Copy, Debug, PartialEq, Eq, Structural)]
pub enum JobStatus {
    Waiting,
    Processing,
    Completed,
    Failed,
    Retrying,
}

/// The mathematical value of a job record: every field of [`QueueJob`],
/// with strings and byte vectors abstracted to sequences.
pub struct JobModel {
    pub id: Seq<char>,
    pub payload: Seq<u8>,
    pub status: JobStatus,
    pub attempts: int,
    pub max_retries: int,
    pub timeout_ms: int,
    pub backoff_ms: int,
    pub created_at: int,
    pub updated_at: int,
    pub error: Option<Seq<char>>,
}

impl JobModel {
    /// Field ranges that any record held in executable code satisfies.
    pub open spec fn wf(self) -> bool {
        &&& 0 <= self.attempts <= u32::MAX
        &&& 0 <= self.max_retries <= u32::MAX
        &&& 0 <= self.timeout_ms <= u64::MAX
        &&& 0 <= self.backoff_ms <= u64::MAX
        &&& i64::MIN <= self.created_at <= i64::MAX
        &&& i64::MIN <= self.updated_at <= i64::MAX
    }

    pub open spec fn can_retry(self) -> bool {
        self.attempts < self.max_retries
    }
}

/// The transition applied when a worker claims a job: one more attempt is
/// recorded and the record is marked as being processed.
pub open spec fn claimed(m: JobModel, now: int) -> JobModel {
    JobModel { attempts: m.attempts + 1, status: JobStatus::Processing, updated_at: now, ..m }
}

pub open spec fn marked_processing(m: JobModel, now: int) -> JobModel {
    JobModel { status: JobStatus::Processing, updated_at: now, ..m }
}

pub open spec fn marked_completed(m: JobModel, now: int) -> JobModel {
    JobModel { status: JobStatus::Completed, updated_at: now, ..m }
}

pub open spec fn marked_failed(m: JobModel, err: Seq<char>, now: int) -> JobModel {
    JobModel { status: JobStatus::Failed, error: Some(err), updated_at: now, ..m }
}

/// The transition applied when a failed job is sent back to the waiting
/// list: the attempt already counted stays, the failure message is kept for
/// introspection.
pub open spec fn marked_retrying(m: JobModel, err: Seq<char>, now: int) -> JobModel {
    JobModel { status: JobStatus::Retrying, error: Some(err), updated_at: now, ..m }
}

/// The retry transition of the record itself: one more attempt, status
/// `Retrying`, timestamp refreshed.
pub open spec fn retried(m: JobModel, now: int) -> JobModel {
    JobModel { attempts: m.attempts + 1, status: JobStatus::Retrying, updated_at: now, ..m }
}

/// Base backoff delay given to new jobs, in milliseconds.
pub const DEFAULT_BACKOFF_MS: u64 = 2000;

/// Handler deadline given to new jobs, in milliseconds.
pub const DEFAULT_TIMEOUT_MS: u64 = 60000;

/// Relies on `uuid::Uuid::new_v4` and its `Display` implementation: a fresh
/// random version-4 identifier, rendered in the hyphenated form, which is
/// exactly 36 ASCII characters. Nothing is assumed about which identifier
/// comes back.
#[verifier::external_body]
pub(crate) fn fresh_job_id() -> (r: String)
    ensures
        r@.len() == 36,
        r.is_ascii(),
{
    uuid::Uuid::new_v4().to_string()
}

/// Relies on `chrono::Utc::now` / `DateTime::timestamp`: the current wall
/// clock as whole seconds since the unix epoch. Nothing is assumed about the
/// value, so everything proved here holds whatever time it is.
#[verifier::external_body]
pub(crate) fn now_timestamp() -> (r: i64)
{
    chrono::Utc::now().timestamp()
}

/// A unit of work plus its retry and timing metadata. The payload is opaque
/// serialized application data; the queue never looks inside it.
#[derive(Clone, Debug)]
pub struct QueueJob {
    pub id: JobId,
    pub payload: Vec<u8>,
    pub status: JobStatus,
    pub attempts: u32,
    pub max_retries: u32,
    pub timeout_ms: u64,
    pub backoff_ms: u64,
    pub created_at: i64,
    pub updated_at: i64,
    pub error: Option<String>,
}

impl View for QueueJob {
    type V = JobModel;

    open spec fn view(&self) -> JobModel {
        JobModel {
            id: self.id@,
            payload: self.payload@,
            status: self.status,
            attempts: self.attempts as int,
            max_retries: self.max_retries as int,
            timeout_ms: self.timeout_ms as int,
            backoff_ms: self.backoff_ms as int,
            created_at: self.created_at as int,
            updated_at: self.updated_at as int,
            error: match self.error {
                Some(ref e) => Some(e@),
                None => None,
            },
        }
    }
}

impl QueueJob {
    /// Create a record for a fresh payload: no attempts yet, waiting,
    /// created and updated right now, with a fresh identifier.
    pub fn new(payload: Vec<u8>, max_retries: u32, timeout_ms: u64) -> (j: QueueJob)
        ensures
            j@.payload == payload@,
            j@.status == JobStatus::Waiting,
            j@.attempts == 0,
            j@.max_retries == max_retries,
            j@.timeout_ms == timeout_ms,
            j@.backoff_ms == DEFAULT_BACKOFF_MS,
            j@.error is None,
            j@.created_at == j@.updated_at,
            j@.id.len() == 36,
    {
        let now = now_timestamp();
        QueueJob {
            id: fresh_job_id(),
            payload,
            status: JobStatus::Waiting,
            attempts: 0,
            max_retries,
            timeout_ms,
            backoff_ms: DEFAULT_BACKOFF_MS,
            created_at: now,
            updated_at: now,
            error: None,
        }
    }

    /// Replace the generated identifier, e.g. to re-create a record read
    /// back from the store.
    pub fn with_id(self, id: JobId) -> (j: QueueJob)
        ensures
            j@ == (JobModel { id: id@, ..self@ }),
    {
        QueueJob { id, ..self }
    }

    pub fn with_timeout(self, timeout_ms: u64) -> (j: QueueJob)
        ensures
            j@ == (JobModel { timeout_ms: timeout_ms as int, ..self@ }),
    {
        QueueJob { timeout_ms, ..self }
    }

    pub fn with_backoff_delay(self, backoff_ms: u64) -> (j: QueueJob)
        ensures
            j@ == (JobModel { backoff_ms: backoff_ms as int, ..self@ }),
    {
        QueueJob { backoff_ms, ..self }
    }

    /// Record the start of one processing attempt: count it, mark the
    /// record as being processed, refresh the timestamp. This is the
    /// transition a worker applies right after claiming the record.
    pub fn begin_attempt(&mut self, now: i64)
        requires
            old(self).attempts < u32::MAX,
        ensures
            final(self)@ == claimed(old(self)@, now as int),
    {
        self.attempts = self.attempts + 1;
        self.status = JobStatus::Processing;
        self.updated_at = now;
    }

    /// Whether another retry is allowed: strictly fewer attempts so far than
    /// the retry ceiling.
    pub fn can_retry(&self) -> (r: bool)
        ensures
            r == self@.can_retry(),
    {
        self.attempts < self.max_retries
    }

    /// Count one more attempt and mark the record as retrying.
    pub fn increment_retry(&mut self, now: i64)
        requires
            old(self).attempts < u32::MAX,
        ensures
            final(self)@ == retried(old(self)@, now as int),
    {
        self.attempts = self.attempts + 1;
        self.status = JobStatus::Retrying;
        self.updated_at = now;
    }

    pub fn mark_processing(&mut self, now: i64)
        ensures
            final(self)@ == marked_processing(old(self)@, now as int),
    {
        self.status = JobStatus::Processing;
        self.updated_at = now;
    }

    pub fn mark_completed(&mut self, now: i64)
        ensures
            final(self)@ == marked_completed(old(self)@, now as int),
    {
        self.status = JobStatus::Completed;
        self.updated_at = now;
    }

    pub fn mark_failed(&mut self, error: String, now: i64)
        ensures
            final(self)@ == marked_failed(old(self)@, error@, now as int),
    {
        self.status = JobStatus::Failed;
        self.error = Some(error);
        self.updated_at = now;
    }

    /// The backoff delay before this record's next retry:
    /// `backoff_ms * 2^attempts` milliseconds.
    pub fn calculate_backoff(&self) -> (r: u64)
        requires
            backoff::spec_delay(self.backoff_ms, self.attempts as nat) <= u64::MAX,
        ensures
            r == backoff::spec_delay(self.backoff_ms, self.attempts as nat),
    {
        backoff::delay(self.backoff_ms, self.attempts)
    }
}

/// Terminal outcome of a job, as reported to a caller polling for it.
#[derive(Clone, Debug)]
pub struct JobResult<T> {
    pub job_id: JobId,
    pub status: JobStatus,
    pub result: Option<T>,
    pub error: Option<String>,
}

impl<T> JobResult<T> {
    pub fn success(job_id: JobId, result: T) -> (r: JobResult<T>)
        ensures
            r.job_id == job_id,
            r.status == JobStatus::Completed,
            r.result == Some(result),
            r.error is None,
    {
        JobResult { job_id, status: JobStatus::Completed, result: Some(result), error: None }
    }

    pub fn failed(job_id: JobId, error: String) -> (r: JobResult<T>)
        ensures
            r.job_id == job_id,
            r.status == JobStatus::Failed,
            r.result is None,
            r.error == Some(error),
    {
        JobResult { job_id, status: JobStatus::Failed, result: None, error: Some(error) }
    }
}

} // verus!

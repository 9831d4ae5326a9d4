use vstd::prelude::*;

use vstd::string::StringExecFns;

use crate::codec::{decode_job, decode_model, encode_job, encode_model};
use crate::errors::QueueError;
use crate::job::{
    claimed, marked_completed, marked_failed, marked_retrying, JobId, JobModel, JobResult,
    JobStatus, QueueJob, DEFAULT_TIMEOUT_MS,
};
use crate::store::{
    first_index_of, lemma_first_index_of_present, ListKind, MemStore, StoreModel,
};

verus! {

/// How long a persisted job record is kept for out-of-band lookup, in
/// seconds: one day.
pub const RECORD_TTL_SECS: u64 = 86400;

/// How long a worker pauses when the health probe reports the store down,
/// before probing again instead of busy-polling it.
pub const UNHEALTHY_PAUSE_MS: u64 = 10000;

/// How long a worker pauses after a store operation failed.
pub const STORE_ERROR_PAUSE_MS: u64 = 5000;

/// How long a worker pauses when the waiting list was empty.
pub const IDLE_PAUSE_MS: u64 = 100;

/// How long a worker's blocking claim against a networked store waits for
/// an entry to appear, in seconds.
pub const CLAIM_BLOCK_SECS: u64 = 5;

/// How often a result poll re-reads a record that is not yet terminal.
pub const RESULT_POLL_INTERVAL_MS: u64 = 500;

/// Configuration of the queue layer: where the store lives, which
/// deployment environment namespaces the queues, and whether finished
/// records are dropped or archived.
#[derive(Clone, Debug)]
pub struct QueueConfig {
    pub redis_url: String,
    pub environment: String,
    pub remove_on_success: bool,
    pub remove_on_failure: bool,
}

impl QueueConfig {
    /// The default configuration drops a record when its job succeeds and
    /// archives it when its job permanently fails.
    pub fn new(redis_url: String, environment: String) -> (c: QueueConfig)
        ensures
            c.redis_url == redis_url,
            c.environment == environment,
            c.remove_on_success == true,
            c.remove_on_failure == false,
    {
        QueueConfig { redis_url, environment, remove_on_success: true, remove_on_failure: false }
    }
}

/// Lengths of the four sequences of a queue.
#[derive(Clone, Copy, Debug, PartialEq, Eq, Structural)]
pub struct QueueStats {
    pub waiting: usize,
    pub processing: usize,
    pub succeeded: usize,
    pub failed: usize,
}

/// The key under which a queue's job record is stored.
pub open spec fn spec_job_key(queue_name: Seq<char>, id: Seq<char>) -> Seq<char> {
    queue_name + ":job:"@ + id
}

/// `<environment>_<name>_queue`, the namespaced name of a queue.
pub fn derive_queue_name(environment: &str, name: &str) -> (r: String)
    ensures
        r@ == environment@ + "_"@ + name@ + "_queue"@,
{
    let mut s = String::new();
    s.append(environment);
    s.append("_");
    s.append(name);
    s.append("_queue");
    proof {
        assert(s@ =~= environment@ + "_"@ + name@ + "_queue"@);
    }
    s
}

/// The store key of the waiting list of a queue.
pub fn waiting_key(queue_name: &str) -> (r: String)
    ensures
        r@ == queue_name@ + ":waiting"@,
{
    let mut s = String::new();
    s.append(queue_name);
    s.append(":waiting");
    proof {
        assert(s@ =~= queue_name@ + ":waiting"@);
    }
    s
}

/// The store key of the processing list of a queue.
pub fn processing_key(queue_name: &str) -> (r: String)
    ensures
        r@ == queue_name@ + ":processing"@,
{
    let mut s = String::new();
    s.append(queue_name);
    s.append(":processing");
    proof {
        assert(s@ =~= queue_name@ + ":processing"@);
    }
    s
}

/// The store key of the succeeded list of a queue.
pub fn succeeded_key(queue_name: &str) -> (r: String)
    ensures
        r@ == queue_name@ + ":succeeded"@,
{
    let mut s = String::new();
    s.append(queue_name);
    s.append(":succeeded");
    proof {
        assert(s@ =~= queue_name@ + ":succeeded"@);
    }
    s
}

/// The store key of the failed list of a queue.
pub fn failed_key(queue_name: &str) -> (r: String)
    ensures
        r@ == queue_name@ + ":failed"@,
{
    let mut s = String::new();
    s.append(queue_name);
    s.append(":failed");
    proof {
        assert(s@ =~= queue_name@ + ":failed"@);
    }
    s
}

/// The store key of one job record of a queue.
pub fn job_key(queue_name: &str, id: &str) -> (r: String)
    ensures
        r@ == spec_job_key(queue_name@, id@),
{
    let mut s = String::new();
    s.append(queue_name);
    s.append(":job:");
    s.append(id);
    proof {
        assert(s@ =~= spec_job_key(queue_name@, id@));
    }
    s
}

/// Construction point for queue services. It is handed around explicitly:
/// every queue built from one manager shares its configuration, and queue
/// names are namespaced by the configured environment so that deployments
/// sharing a store do not collide.
#[derive(Clone, Debug)]
pub struct QueueManager {
    pub config: QueueConfig,
}

impl QueueManager {
    /// Bind a manager to its configuration.
    pub fn init(config: QueueConfig) -> (m: QueueManager)
        ensures
            m.config == config,
    {
        QueueManager { config }
    }

    /// A queue service for the queue called `name` in this manager's
    /// environment.
    pub fn create_queue(&self, name: &str, max_retries: u32) -> (q: QueueService)
        ensures
            q.queue_name@ == self.config.environment@ + "_"@ + name@ + "_queue"@,
            q.max_retries == max_retries,
            q.remove_on_success == self.config.remove_on_success,
            q.remove_on_failure == self.config.remove_on_failure,
    {
        let queue_name = derive_queue_name(self.config.environment.as_str(), name);
        QueueService {
            queue_name,
            max_retries,
            remove_on_success: self.config.remove_on_success,
            remove_on_failure: self.config.remove_on_failure,
        }
    }

    /// The fast liveness probe consulted before any slower operation.
    pub fn health_check(&self, store: &MemStore) -> (r: bool)
        ensures
            r == store@.available,
    {
        store.ping()
    }
}

/// The per-queue API: enqueue, claim, settle, introspect. Every operation
/// takes the store it acts on; the service itself holds only the queue's
/// name and policy.
///
/// A claimed record is owned by the worker that claimed it until that
/// worker settles it. If a worker dies in between, its record stays in the
/// processing list indefinitely: nothing here sweeps orphaned entries back
/// to the waiting list, which is a known gap of this engine.
#[derive(Clone, Debug)]
pub struct QueueService {
    pub queue_name: String,
    pub max_retries: u32,
    pub remove_on_success: bool,
    pub remove_on_failure: bool,
}

/// What a record fresh from `add_to_queue` looks like: no attempts, not yet
/// failed, waiting, timestamps equal, and a 36-character generated id.
pub open spec fn valid_new_job(m: JobModel, payload: Seq<u8>, max_retries: int) -> bool {
    &&& m.payload == payload
    &&& m.status == JobStatus::Waiting
    &&& m.attempts == 0
    &&& m.max_retries == max_retries
    &&& m.timeout_ms == DEFAULT_TIMEOUT_MS
    &&& m.backoff_ms == crate::job::DEFAULT_BACKOFF_MS
    &&& m.error is None
    &&& m.created_at == m.updated_at
    &&& m.id.len() == 36
    &&& crate::codec::encodable(m)
}

/// Enqueueing persists the record under its key and appends it to the tail
/// of the waiting list.
pub open spec fn spec_enqueue(s: StoreModel, m: JobModel, key: Seq<char>) -> StoreModel {
    StoreModel {
        waiting: s.waiting.push(encode_model(m)),
        records: s.records.insert(key, encode_model(m)),
        ..s
    }
}

impl QueueService {
    /// The namespaced name of this queue.
    pub fn get_name(&self) -> (r: &str)
        ensures
            r@ == self.queue_name@,
    {
        self.queue_name.as_str()
    }

    /// Add a payload to the queue. Fails fast with `StoreUnavailable` when
    /// the health probe reports the store down, leaving it untouched.
    /// Otherwise a fresh record is persisted under its key and appended to
    /// the waiting list, and its generated id is returned, immediately
    /// usable for lookup.
    pub fn add_to_queue(&self, store: &mut MemStore, payload: Vec<u8>) -> (r: Result<
        JobId,
        QueueError,
    >)
        requires
            old(store).wf(),
        ensures
            final(store).wf(),
            !old(store)@.available ==> r == Err::<JobId, QueueError>(QueueError::StoreUnavailable)
                && final(store)@ == old(store)@,
            old(store)@.available ==> (r matches Ok(id) && exists|m: JobModel|
                {
                    &&& #[trigger] valid_new_job(m, payload@, self.max_retries as int)
                    &&& m.id == id@
                    &&& final(store)@ == spec_enqueue(
                        old(store)@,
                        m,
                        spec_job_key(self.queue_name@, m.id),
                    )
                }),
    {
        if !store.ping() {
            return Err(QueueError::StoreUnavailable);
        }
        let job = QueueJob::new(payload, self.max_retries, DEFAULT_TIMEOUT_MS);
        let bytes = encode_job(&job);
        let list_bytes = vstd::slice::slice_to_vec(bytes.as_slice());
        let key = job_key(self.queue_name.as_str(), job.id.as_str());
        let ghost pre = store@;
        match store.set_with_expiry(&key, bytes, RECORD_TTL_SECS) {
            Ok(_) => (),
            Err(e) => {
                return Err(e);
            },
        }
        match store.append_right(ListKind::Waiting, list_bytes) {
            Ok(_) => (),
            Err(e) => {
                return Err(e);
            },
        }
        proof {
            assert(valid_new_job(job@, payload@, self.max_retries as int));
            assert(store@ =~= spec_enqueue(pre, job@, spec_job_key(self.queue_name@, job@.id)));
        }
        Ok(job.id)
    }

    /// The four list lengths. Fails fast when the store is down; with the
    /// store up, each count is exactly the length of its sequence.
    pub fn get_stats(&self, store: &MemStore) -> (r: Result<QueueStats, QueueError>)
        ensures
            !store@.available ==> r == Err::<QueueStats, QueueError>(QueueError::StoreUnavailable),
            store@.available ==> (r matches Ok(st) && st.waiting == store@.waiting.len()
                && st.processing == store@.processing.len() && st.succeeded
                == store@.succeeded.len() && st.failed == store@.failed.len()),
    {
        if !store.ping() {
            return Err(QueueError::StoreUnavailable);
        }
        let waiting = match store.llen(ListKind::Waiting) {
            Ok(n) => n,
            Err(e) => {
                return Err(e);
            },
        };
        let processing = match store.llen(ListKind::Processing) {
            Ok(n) => n,
            Err(e) => {
                return Err(e);
            },
        };
        let succeeded = match store.llen(ListKind::Succeeded) {
            Ok(n) => n,
            Err(e) => {
                return Err(e);
            },
        };
        let failed = match store.llen(ListKind::Failed) {
            Ok(n) => n,
            Err(e) => {
                return Err(e);
            },
        };
        Ok(QueueStats { waiting, processing, succeeded, failed })
    }
}

/// What the worker should do after a handler failure: put the record back
/// after waiting out the backoff delay, or give up on it for good.
#[derive(Debug)]
pub enum RetryDecision {
    Retry { job: QueueJob, delay_ms: u64 },
    Exhausted,
}

/// Start-once guard for a queue's worker: the worker loop runs for the
/// queue's whole lifetime, so starting it twice is a programming error.
/// The first `try_start` succeeds; every later one is refused.
pub struct WorkerGuard {
    pub started: bool,
}

impl WorkerGuard {
    pub fn new() -> (g: WorkerGuard)
        ensures
            !g.started,
    {
        WorkerGuard { started: false }
    }

    /// Claim the right to run the worker. True exactly once.
    pub fn try_start(&mut self) -> (r: bool)
        ensures
            r == !old(self).started,
            final(self).started,
    {
        let was = self.started;
        self.started = true;
        !was
    }
}

/// The store after a worker claims the head of the waiting list at time
/// `now`: the entry moves from the waiting list to the processing list,
/// rewritten with one more attempt counted and status `Processing`.
/// Meaningful when the head decodes.
pub open spec fn spec_claim(s: StoreModel, now: int) -> StoreModel {
    let h = s.waiting[0];
    let m = decode_model(h).unwrap();
    let nb = encode_model(claimed(m, now));
    let p1 = s.processing.push(h);
    let i = first_index_of(p1, h);
    StoreModel { waiting: s.waiting.drop_first(), processing: p1.remove(i).push(nb), ..s }
}

/// The store after claiming a waiting head that does not decode: the bytes
/// sit in the processing list, claimed by nobody.
pub open spec fn spec_claim_stuck(s: StoreModel) -> StoreModel {
    StoreModel {
        waiting: s.waiting.drop_first(),
        processing: s.processing.push(s.waiting[0]),
        ..s
    }
}

/// A claim is within machine limits: if the head of the waiting list is a
/// record, its attempt counter has room for one more attempt. Every record
/// this queue puts into the waiting list satisfies this.
pub open spec fn head_claimable(s: StoreModel) -> bool {
    s.waiting.len() > 0 && decode_model(s.waiting[0]) is Some ==> decode_model(
        s.waiting[0],
    ).unwrap().attempts < u32::MAX
}

/// The store after a claimed job is settled as succeeded: its entry leaves
/// the processing list; its record is deleted outright, or marked
/// `Completed` and archived at the head of the succeeded list.
pub open spec fn spec_success(
    s: StoreModel,
    m: JobModel,
    remove_on_success: bool,
    qn: Seq<char>,
    now: int,
) -> StoreModel {
    let jb = encode_model(m);
    let i = first_index_of(s.processing, jb);
    let s1 = if i == -1 {
        s
    } else {
        StoreModel { processing: s.processing.remove(i), ..s }
    };
    let done = encode_model(marked_completed(m, now));
    let key = spec_job_key(qn, m.id);
    if remove_on_success {
        StoreModel { records: s1.records.remove(key), ..s1 }
    } else {
        StoreModel {
            succeeded: seq![done] + s1.succeeded,
            records: s1.records.insert(key, done),
            ..s1
        }
    }
}

/// The store after a claimed job fails with retries left: its entry leaves
/// the processing list and its record is refreshed as `Retrying`. It is not
/// yet visible in the waiting list: that is the separate re-enqueue step,
/// taken after the backoff delay.
pub open spec fn spec_fail_retry(
    s: StoreModel,
    m: JobModel,
    err: Seq<char>,
    qn: Seq<char>,
    now: int,
) -> StoreModel {
    let jb = encode_model(m);
    let i = first_index_of(s.processing, jb);
    let s1 = if i == -1 {
        s
    } else {
        StoreModel { processing: s.processing.remove(i), ..s }
    };
    let rb = encode_model(marked_retrying(m, err, now));
    StoreModel { records: s1.records.insert(spec_job_key(qn, m.id), rb), ..s1 }
}

/// The store after a claimed job fails with no retries left: its entry
/// leaves the processing list; its record is deleted outright, or marked
/// `Failed` and archived at the head of the failed list.
pub open spec fn spec_fail_exhausted(
    s: StoreModel,
    m: JobModel,
    err: Seq<char>,
    remove_on_failure: bool,
    qn: Seq<char>,
    now: int,
) -> StoreModel {
    let jb = encode_model(m);
    let i = first_index_of(s.processing, jb);
    let s1 = if i == -1 {
        s
    } else {
        StoreModel { processing: s.processing.remove(i), ..s }
    };
    let fb = encode_model(marked_failed(m, err, now));
    let key = spec_job_key(qn, m.id);
    if remove_on_failure {
        StoreModel { records: s1.records.remove(key), ..s1 }
    } else {
        StoreModel { failed: seq![fb] + s1.failed, records: s1.records.insert(key, fb), ..s1 }
    }
}

/// The store after a retrying record becomes visible again at the tail of
/// the waiting list.
pub open spec fn spec_requeue(s: StoreModel, m: JobModel) -> StoreModel {
    StoreModel { waiting: s.waiting.push(encode_model(m)), ..s }
}

/// The message a polled result carries for a failed record.
pub open spec fn spec_error_text(m: JobModel) -> Seq<char> {
    match m.error {
        Some(e) => e,
        None => Seq::empty(),
    }
}

/// The decision behind a result poll: a `Completed` or `Failed` record is
/// a terminal outcome; any other status means the caller has to keep
/// waiting.
pub fn result_of_record(job: QueueJob) -> (r: Result<JobResult<()>, QueueError>)
    ensures
        job@.status == JobStatus::Completed ==> (r matches Ok(jr) && jr.status
            == JobStatus::Completed && jr.job_id@ == job@.id && jr.result == Some(()) && jr.error
            is None),
        job@.status == JobStatus::Failed ==> (r matches Ok(jr) && jr.status == JobStatus::Failed
            && jr.job_id@ == job@.id && jr.result is None && (jr.error matches Some(e) && e@
            == spec_error_text(job@))),
        job@.status != JobStatus::Completed && job@.status != JobStatus::Failed ==> r == Err::<
            JobResult<()>,
            QueueError,
        >(QueueError::Timeout),
{
    match job.status {
        JobStatus::Completed => Ok(JobResult::success(job.id, ())),
        JobStatus::Failed => {
            let msg = match job.error {
                Some(e) => e,
                None => String::new(),
            };
            Ok(JobResult::failed(job.id, msg))
        },
        _ => Err(QueueError::Timeout),
    }
}

impl QueueService {
    /// Claim the next waiting job, if any: atomically move the head of the
    /// waiting list to the processing list, then rewrite the moved entry
    /// with one more attempt counted, status `Processing` and a fresh
    /// timestamp. The rewritten record is returned for the handler.
    ///
    /// An entry that no record encodes is left in the processing list and
    /// reported as a `SerializationError`; the queue itself never writes
    /// such an entry.
    pub fn claim_next(&self, store: &mut MemStore, now: i64) -> (r: Result<
        Option<QueueJob>,
        QueueError,
    >)
        requires
            old(store).wf(),
            head_claimable(old(store)@),
        ensures
            final(store).wf(),
            !old(store)@.available ==> r == Err::<Option<QueueJob>, QueueError>(
                QueueError::StoreUnavailable,
            ) && final(store)@ == old(store)@,
            old(store)@.available && old(store)@.waiting.len() == 0 ==> r == Ok::<
                Option<QueueJob>,
                QueueError,
            >(None) && final(store)@ == old(store)@,
            old(store)@.available && old(store)@.waiting.len() > 0 && decode_model(
                old(store)@.waiting[0],
            ) is None ==> r == Err::<Option<QueueJob>, QueueError>(QueueError::SerializationError)
                && final(store)@ == spec_claim_stuck(old(store)@),
            old(store)@.available && old(store)@.waiting.len() > 0 && decode_model(
                old(store)@.waiting[0],
            ) is Some ==> (r matches Ok(Some(j)) && j@ == claimed(
                decode_model(old(store)@.waiting[0]).unwrap(),
                now as int,
            ) && final(store)@ == spec_claim(old(store)@, now as int)),
    {
        let ghost pre = store@;
        let moved = match store.atomic_move(ListKind::Waiting, ListKind::Processing) {
            Ok(x) => x,
            Err(e) => {
                return Err(e);
            },
        };
        let h = match moved {
            None => {
                return Ok(None);
            },
            Some(h) => h,
        };
        let ghost mid = store@;
        let mut job = match decode_job(h.as_slice()) {
            None => {
                proof {
                    assert(store@ =~= spec_claim_stuck(pre));
                }
                return Err(QueueError::SerializationError);
            },
            Some(j) => j,
        };
        job.begin_attempt(now);
        let nb = encode_job(&job);
        proof {
            assert(mid.processing[mid.processing.len() - 1] == h@);
            lemma_first_index_of_present(mid.processing, h@);
        }
        match store.remove_one(ListKind::Processing, &h) {
            Ok(_) => (),
            Err(e) => {
                return Err(e);
            },
        }
        match store.append_right(ListKind::Processing, nb) {
            Ok(_) => (),
            Err(e) => {
                return Err(e);
            },
        }
        proof {
            assert(store@ =~= spec_claim(pre, now as int));
        }
        Ok(Some(job))
    }

    /// Settle a claimed job whose handler succeeded: drop its entry from
    /// the processing list, then delete its record, or mark the record
    /// `Completed` and archive it, as configured.
    pub fn handle_success(&self, store: &mut MemStore, job: QueueJob, now: i64) -> (r: Result<
        (),
        QueueError,
    >)
        requires
            old(store).wf(),
        ensures
            final(store).wf(),
            !old(store)@.available ==> r == Err::<(), QueueError>(QueueError::StoreUnavailable)
                && final(store)@ == old(store)@,
            old(store)@.available ==> r == Ok::<(), QueueError>(()) && final(store)@
                == spec_success(
                old(store)@,
                job@,
                self.remove_on_success,
                self.queue_name@,
                now as int,
            ),
    {
        let ghost pre = store@;
        let ghost m = job@;
        let jb = encode_job(&job);
        match store.remove_one(ListKind::Processing, &jb) {
            Ok(_) => (),
            Err(e) => {
                return Err(e);
            },
        }
        let key = job_key(self.queue_name.as_str(), job.id.as_str());
        if self.remove_on_success {
            match store.delete(&key) {
                Ok(_) => (),
                Err(e) => {
                    return Err(e);
                },
            }
            proof {
                assert(store@ =~= spec_success(
                    pre,
                    m,
                    self.remove_on_success,
                    self.queue_name@,
                    now as int,
                ));
            }
            Ok(())
        } else {
            let mut job = job;
            job.mark_completed(now);
            let done = encode_job(&job);
            let done2 = vstd::slice::slice_to_vec(done.as_slice());
            match store.set_with_expiry(&key, done, RECORD_TTL_SECS) {
                Ok(_) => (),
                Err(e) => {
                    return Err(e);
                },
            }
            match store.append_left(ListKind::Succeeded, done2) {
                Ok(_) => (),
                Err(e) => {
                    return Err(e);
                },
            }
            proof {
                assert(store@ =~= spec_success(
                    pre,
                    m,
                    self.remove_on_success,
                    self.queue_name@,
                    now as int,
                ));
            }
            Ok(())
        }
    }

    /// Settle a claimed job whose handler failed or timed out: drop its
    /// entry from the processing list, and either prepare it for another
    /// attempt or archive it as permanently failed.
    ///
    /// With retries left, the record is refreshed as `Retrying` with the
    /// failure message, persisted, and returned along with the backoff
    /// delay `backoff_ms * 2^(attempts - 1)` milliseconds (saturating);
    /// the caller waits that long and then calls [`Self::requeue`], so a
    /// backed-off job is not visible to any worker before its delay is
    /// over. With no retries left, the record is marked `Failed` and
    /// deleted or archived, as configured, and is never re-enqueued.
    pub fn handle_failure(
        &self,
        store: &mut MemStore,
        job: QueueJob,
        error: String,
        now: i64,
    ) -> (r: Result<RetryDecision, QueueError>)
        requires
            old(store).wf(),
            job@.attempts >= 1,
        ensures
            final(store).wf(),
            !old(store)@.available ==> r == Err::<RetryDecision, QueueError>(
                QueueError::StoreUnavailable,
            ) && final(store)@ == old(store)@,
            old(store)@.available && job@.can_retry() ==> (r matches Ok(
                RetryDecision::Retry { job: j2, delay_ms },
            ) && j2@ == marked_retrying(job@, error@, now as int) && {
                let d = crate::backoff::spec_delay(
                    job.backoff_ms,
                    (job@.attempts - 1) as nat,
                );
                delay_ms == if d <= u64::MAX {
                    d as int
                } else {
                    u64::MAX as int
                }
            } && final(store)@ == spec_fail_retry(
                old(store)@,
                job@,
                error@,
                self.queue_name@,
                now as int,
            )),
            old(store)@.available && !job@.can_retry() ==> (r matches Ok(RetryDecision::Exhausted)
                && final(store)@ == spec_fail_exhausted(
                old(store)@,
                job@,
                error@,
                self.remove_on_failure,
                self.queue_name@,
                now as int,
            )),
    {
        let ghost pre = store@;
        let ghost m = job@;
        let jb = encode_job(&job);
        match store.remove_one(ListKind::Processing, &jb) {
            Ok(_) => (),
            Err(e) => {
                return Err(e);
            },
        }
        let key = job_key(self.queue_name.as_str(), job.id.as_str());
        if job.can_retry() {
            let delay_ms = crate::backoff::delay_saturating(job.backoff_ms, job.attempts - 1);
            let mut job = job;
            job.status = JobStatus::Retrying;
            job.error = Some(error);
            job.updated_at = now;
            let rb = encode_job(&job);
            match store.set_with_expiry(&key, rb, RECORD_TTL_SECS) {
                Ok(_) => (),
                Err(e) => {
                    return Err(e);
                },
            }
            proof {
                assert(job@ == marked_retrying(m, error@, now as int));
                assert(store@ =~= spec_fail_retry(pre, m, error@, self.queue_name@, now as int));
            }
            Ok(RetryDecision::Retry { job, delay_ms })
        } else {
            let mut job = job;
            job.mark_failed(error, now);
            let fb = encode_job(&job);
            if self.remove_on_failure {
                match store.delete(&key) {
                    Ok(_) => (),
                    Err(e) => {
                        return Err(e);
                    },
                }
            } else {
                let fb2 = vstd::slice::slice_to_vec(fb.as_slice());
                match store.set_with_expiry(&key, fb2, RECORD_TTL_SECS) {
                    Ok(_) => (),
                    Err(e) => {
                        return Err(e);
                    },
                }
                match store.append_left(ListKind::Failed, fb) {
                    Ok(_) => (),
                    Err(e) => {
                        return Err(e);
                    },
                }
            }
            proof {
                assert(store@ =~= spec_fail_exhausted(
                    pre,
                    m,
                    error@,
                    self.remove_on_failure,
                    self.queue_name@,
                    now as int,
                ));
            }
            Ok(RetryDecision::Exhausted)
        }
    }

    /// Make a retrying record visible again at the tail of the waiting
    /// list. Called after the backoff delay returned by
    /// [`Self::handle_failure`] has been waited out.
    pub fn requeue(&self, store: &mut MemStore, job: &QueueJob) -> (r: Result<(), QueueError>)
        requires
            old(store).wf(),
        ensures
            final(store).wf(),
            !old(store)@.available ==> r == Err::<(), QueueError>(QueueError::StoreUnavailable)
                && final(store)@ == old(store)@,
            old(store)@.available ==> r == Ok::<(), QueueError>(()) && final(store)@
                == spec_requeue(old(store)@, job@),
    {
        let bytes = encode_job(job);
        match store.append_right(ListKind::Waiting, bytes) {
            Ok(_) => (),
            Err(e) => {
                return Err(e);
            },
        }
        proof {
            assert(store@ =~= spec_requeue(old(store)@, job@));
        }
        Ok(())
    }

    /// Look up a job record by id.
    pub fn get_job(&self, store: &MemStore, id: &str) -> (r: Result<Option<QueueJob>, QueueError>)
        requires
            store.wf(),
        ensures
            !store@.available ==> r == Err::<Option<QueueJob>, QueueError>(
                QueueError::StoreUnavailable,
            ),
            store@.available && !store@.records.contains_key(
                spec_job_key(self.queue_name@, id@),
            ) ==> r == Ok::<Option<QueueJob>, QueueError>(None),
            store@.available && store@.records.contains_key(spec_job_key(self.queue_name@, id@))
                ==> {
                let b = store@.records[spec_job_key(self.queue_name@, id@)];
                match decode_model(b) {
                    Some(m) => r matches Ok(Some(j)) && j@ == m,
                    None => r == Err::<Option<QueueJob>, QueueError>(
                        QueueError::SerializationError,
                    ),
                }
            },
    {
        let key = job_key(self.queue_name.as_str(), id);
        let bytes = match store.get(&key) {
            Ok(b) => b,
            Err(e) => {
                return Err(e);
            },
        };
        match bytes {
            None => Ok(None),
            Some(b) => match decode_job(b.as_slice()) {
                None => Err(QueueError::SerializationError),
                Some(j) => Ok(Some(j)),
            },
        }
    }

    /// One status check of a job record: its terminal outcome if it has
    /// one, `Timeout` if it is still on its way, `NotFound` if the id is
    /// unknown or the record has expired. A caller that wants to wait
    /// polls this until the deadline it is prepared to spend.
    pub fn get_job_result(&self, store: &MemStore, id: &str) -> (r: Result<
        JobResult<()>,
        QueueError,
    >)
        requires
            store.wf(),
        ensures
            !store@.available ==> r == Err::<JobResult<()>, QueueError>(
                QueueError::StoreUnavailable,
            ),
            store@.available && !store@.records.contains_key(
                spec_job_key(self.queue_name@, id@),
            ) ==> r == Err::<JobResult<()>, QueueError>(QueueError::NotFound),
            store@.available && store@.records.contains_key(spec_job_key(self.queue_name@, id@))
                ==> {
                let b = store@.records[spec_job_key(self.queue_name@, id@)];
                match decode_model(b) {
                    Some(m) => {
                        &&& m.status == JobStatus::Completed ==> (r matches Ok(jr)
                            && jr.status == JobStatus::Completed && jr.job_id@ == m.id
                            && jr.result == Some(()) && jr.error is None)
                        &&& m.status == JobStatus::Failed ==> (r matches Ok(jr) && jr.status
                            == JobStatus::Failed && jr.job_id@ == m.id && jr.result is None && (
                        jr.error matches Some(e) && e@ == spec_error_text(m)))
                        &&& m.status != JobStatus::Completed && m.status != JobStatus::Failed
                            ==> r == Err::<JobResult<()>, QueueError>(QueueError::Timeout)
                    },
                    None => r == Err::<JobResult<()>, QueueError>(QueueError::SerializationError),
                }
            },
    {
        let job = match self.get_job(store, id) {
            Ok(j) => j,
            Err(e) => {
                return Err(e);
            },
        };
        let job = match job {
            None => {
                return Err(QueueError::NotFound);
            },
            Some(j) => j,
        };
        result_of_record(job)
    }
}

} // verus!

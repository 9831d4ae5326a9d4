use vstd::prelude::*;

use crate::codec::{decode_model, encodable, encode_model, lemma_decode_encode};
use crate::job::{claimed, marked_completed, marked_failed, marked_retrying, JobModel, JobStatus};
use crate::service::{
    spec_claim, spec_enqueue, spec_fail_exhausted, spec_fail_retry, spec_job_key, spec_requeue,
    spec_success,
};
use crate::store::{first_index_of, lemma_first_index_of_present, StoreModel};

verus! {

/// Whether this list entry is a record of the job with this id.
pub open spec fn has_id(b: Seq<u8>, id: Seq<char>) -> bool {
    decode_model(b) matches Some(m) && m.id == id
}

/// How many entries of a list are records of the job with this id.
pub open spec fn id_count(s: Seq<Seq<u8>>, id: Seq<char>) -> nat
    decreases s.len(),
{
    if s.len() == 0 {
        0
    } else {
        (if has_id(s[0], id) {
            1nat
        } else {
            0nat
        }) + id_count(s.drop_first(), id)
    }
}

/// A store in which every job is scheduled at most once: over the waiting
/// and processing lists together, no job id occurs twice.
pub open spec fn scheduled_once(s: StoreModel) -> bool {
    forall|id: Seq<char>| #[trigger] id_count(s.waiting, id) + id_count(s.processing, id) <= 1
}

/// No job is in the waiting and the processing list at the same time.
pub open spec fn no_overlap(s: StoreModel) -> bool {
    forall|id: Seq<char>|
        !(#[trigger] id_count(s.waiting, id) >= 1 && id_count(s.processing, id) >= 1)
}

proof fn lemma_id_count_push(s: Seq<Seq<u8>>, b: Seq<u8>, id: Seq<char>)
    ensures
        id_count(s.push(b), id) == id_count(s, id) + (if has_id(b, id) {
            1nat
        } else {
            0nat
        }),
    decreases s.len(),
{
    if s.len() == 0 {
        assert(s.push(b).drop_first() =~= s);
    } else {
        assert(s.push(b).drop_first() =~= s.drop_first().push(b));
        lemma_id_count_push(s.drop_first(), b, id);
    }
}

proof fn lemma_id_count_remove(s: Seq<Seq<u8>>, i: int, id: Seq<char>)
    requires
        0 <= i < s.len(),
    ensures
        id_count(s.remove(i), id) + (if has_id(s[i], id) {
            1nat
        } else {
            0nat
        }) == id_count(s, id),
    decreases s.len(),
{
    if i == 0 {
        assert(s.remove(0) =~= s.drop_first());
    } else {
        assert(s.remove(i).drop_first() =~= s.drop_first().remove(i - 1));
        lemma_id_count_remove(s.drop_first(), i - 1, id);
    }
}

proof fn lemma_id_count_at_least_one(s: Seq<Seq<u8>>, j: int, id: Seq<char>)
    requires
        0 <= j < s.len(),
        has_id(s[j], id),
    ensures
        id_count(s, id) >= 1,
    decreases s.len(),
{
    if j > 0 {
        lemma_id_count_at_least_one(s.drop_first(), j - 1, id);
    }
}

/// Enqueueing a job whose id is not yet scheduled keeps every job
/// scheduled at most once: the fresh record lands in the waiting list
/// exactly once, everything else is untouched.
pub proof fn lemma_enqueue_scheduled_once(
    s: StoreModel,
    m: JobModel,
    key: Seq<char>,
)
    requires
        scheduled_once(s),
        encodable(m),
        id_count(s.waiting, m.id) + id_count(s.processing, m.id) == 0,
    ensures
        scheduled_once(spec_enqueue(s, m, key)),
        id_count(spec_enqueue(s, m, key).waiting, m.id) == 1,
{
    lemma_decode_encode(m);
    let t = spec_enqueue(s, m, key);
    assert forall|id: Seq<char>|
        #[trigger] id_count(t.waiting, id) + id_count(t.processing, id) <= 1 by {
        lemma_id_count_push(s.waiting, encode_model(m), id);
    }
    lemma_id_count_push(s.waiting, encode_model(m), m.id);
}

/// Claiming the head of the waiting list moves exactly that job: its id
/// leaves the waiting list and turns up in the processing list, no id is
/// ever scheduled twice, and in particular the claimed job is not in both
/// lists at once.
pub proof fn lemma_claim_scheduled_once(s: StoreModel, now: int)
    requires
        scheduled_once(s),
        s.waiting.len() > 0,
        decode_model(s.waiting[0]) is Some,
        encodable(claimed(decode_model(s.waiting[0]).unwrap(), now)),
    ensures
        scheduled_once(spec_claim(s, now)),
        id_count(spec_claim(s, now).waiting, decode_model(s.waiting[0]).unwrap().id) == 0,
        id_count(spec_claim(s, now).processing, decode_model(s.waiting[0]).unwrap().id) == 1,
{
    let h = s.waiting[0];
    let m = decode_model(h).unwrap();
    let mc = claimed(m, now);
    let nb = encode_model(mc);
    lemma_decode_encode(mc);
    let p1 = s.processing.push(h);
    let i = first_index_of(p1, h);
    assert(p1[p1.len() - 1] == h);
    lemma_first_index_of_present(p1, h);
    let p2 = p1.remove(i);
    let p3 = p2.push(nb);
    let t = spec_claim(s, now);
    assert(t.waiting == s.waiting.drop_first());
    assert(t.processing == p3);

    assert forall|id: Seq<char>|
        #[trigger] id_count(t.waiting, id) + id_count(t.processing, id) <= 1 by {
        lemma_id_count_push(s.processing, h, id);
        lemma_id_count_remove(p1, i, id);
        lemma_id_count_push(p2, nb, id);
        assert(has_id(p1[i], id) == has_id(h, id));
        assert(has_id(nb, id) == has_id(h, id));
        assert(id_count(s.waiting, id) == (if has_id(h, id) {
            1nat
        } else {
            0nat
        }) + id_count(t.waiting, id));
    }
    lemma_id_count_push(s.processing, h, m.id);
    lemma_id_count_remove(p1, i, m.id);
    lemma_id_count_push(p2, nb, m.id);
    assert(has_id(p1[i], m.id) == has_id(h, m.id));
    assert(id_count(s.waiting, m.id) == (if has_id(h, m.id) {
        1nat
    } else {
        0nat
    }) + id_count(t.waiting, m.id));
    lemma_id_count_at_least_one(s.waiting, 0, m.id);
}

/// Settling a succeeded job never adds to the waiting or processing list,
/// so no job becomes scheduled twice.
pub proof fn lemma_success_scheduled_once(
    s: StoreModel,
    m: JobModel,
    remove_on_success: bool,
    qn: Seq<char>,
    now: int,
)
    requires
        scheduled_once(s),
    ensures
        scheduled_once(spec_success(s, m, remove_on_success, qn, now)),
        id_count(spec_success(s, m, remove_on_success, qn, now).processing, m.id) <= id_count(
            s.processing,
            m.id,
        ),
{
    let jb = encode_model(m);
    let i = first_index_of(s.processing, jb);
    let t = spec_success(s, m, remove_on_success, qn, now);
    if i == -1 {
        assert(t.processing == s.processing);
        assert(t.waiting == s.waiting);
    } else {
        crate::store::lemma_first_index_of_in_range(s.processing, jb);
        assert forall|id: Seq<char>|
            #[trigger] id_count(t.waiting, id) + id_count(t.processing, id) <= 1 by {
            lemma_id_count_remove(s.processing, i, id);
        }
        lemma_id_count_remove(s.processing, i, m.id);
    }
}

/// Settling a failed job (with or without retries left) never adds to the
/// waiting or processing list either; the retrying record only becomes
/// visible again through the separate re-enqueue step.
pub proof fn lemma_failure_scheduled_once(
    s: StoreModel,
    m: JobModel,
    err: Seq<char>,
    remove_on_failure: bool,
    qn: Seq<char>,
    now: int,
)
    requires
        scheduled_once(s),
    ensures
        scheduled_once(spec_fail_retry(s, m, err, qn, now)),
        scheduled_once(spec_fail_exhausted(s, m, err, remove_on_failure, qn, now)),
        id_count(spec_fail_retry(s, m, err, qn, now).processing, m.id) <= id_count(
            s.processing,
            m.id,
        ),
{
    let jb = encode_model(m);
    let i = first_index_of(s.processing, jb);
    if i != -1 {
        crate::store::lemma_first_index_of_in_range(s.processing, jb);
        let t = spec_fail_retry(s, m, err, qn, now);
        assert forall|id: Seq<char>|
            #[trigger] id_count(t.waiting, id) + id_count(t.processing, id) <= 1 by {
            lemma_id_count_remove(s.processing, i, id);
        }
        let t2 = spec_fail_exhausted(s, m, err, remove_on_failure, qn, now);
        assert forall|id: Seq<char>|
            #[trigger] id_count(t2.waiting, id) + id_count(t2.processing, id) <= 1 by {
            lemma_id_count_remove(s.processing, i, id);
        }
        lemma_id_count_remove(s.processing, i, m.id);
    }
}

/// Re-enqueueing a record whose id is no longer scheduled anywhere keeps
/// every job scheduled at most once.
pub proof fn lemma_requeue_scheduled_once(s: StoreModel, m: JobModel)
    requires
        scheduled_once(s),
        encodable(m),
        id_count(s.waiting, m.id) + id_count(s.processing, m.id) == 0,
    ensures
        scheduled_once(spec_requeue(s, m)),
{
    lemma_decode_encode(m);
    let t = spec_requeue(s, m);
    assert forall|id: Seq<char>|
        #[trigger] id_count(t.waiting, id) + id_count(t.processing, id) <= 1 by {
        lemma_id_count_push(s.waiting, encode_model(m), id);
    }
}

/// A store in which every job is scheduled at most once never shows a job
/// in the waiting and the processing list at the same time. Together with
/// the preservation lemmas above this is the atomicity of the move between
/// the two lists: no transition ever lets a job be seen in both.
pub proof fn lemma_scheduled_once_no_overlap(s: StoreModel)
    requires
        scheduled_once(s),
    ensures
        no_overlap(s),
{
}

/// What holds of every record in the waiting list: it is either brand new
/// or it came back with retries left, so its attempt count never exceeds
/// its retry ceiling and there is always room to count one more attempt.
pub open spec fn waiting_entry_ok(b: Seq<u8>) -> bool {
    decode_model(b) matches Some(m) ==> m.attempts == 0 || m.attempts < m.max_retries
}

/// The scheduling invariant on the store: every waiting record satisfies
/// [`waiting_entry_ok`]. The lemmas below show each queue transition keeps
/// it, and it is what entitles a worker to claim the head of the list.
pub open spec fn waiting_ok(s: StoreModel) -> bool {
    forall|i: int| 0 <= i < s.waiting.len() ==> #[trigger] waiting_entry_ok(s.waiting[i])
}

/// A store whose waiting records are within their ceilings always admits a
/// claim: counting one more attempt on the head cannot overflow.
pub proof fn lemma_waiting_ok_head_claimable(s: StoreModel)
    requires
        waiting_ok(s),
    ensures
        crate::service::head_claimable(s),
{
    if s.waiting.len() > 0 {
        assert(waiting_entry_ok(s.waiting[0]));
    }
}

/// Enqueueing a fresh record keeps the waiting invariant.
pub proof fn lemma_enqueue_waiting_ok(s: StoreModel, m: JobModel, key: Seq<char>)
    requires
        waiting_ok(s),
        encodable(m),
        m.attempts == 0,
    ensures
        waiting_ok(spec_enqueue(s, m, key)),
{
    lemma_decode_encode(m);
    let t = spec_enqueue(s, m, key);
    assert forall|i: int| 0 <= i < t.waiting.len() implies #[trigger] waiting_entry_ok(
        t.waiting[i],
    ) by {
        if i < s.waiting.len() {
            assert(waiting_entry_ok(s.waiting[i]));
        }
    }
}

/// Claiming the head keeps the waiting invariant: what stays waiting is a
/// suffix of what was waiting, whether or not the head decoded.
pub proof fn lemma_claim_waiting_ok(s: StoreModel, now: int)
    requires
        waiting_ok(s),
        s.waiting.len() > 0,
    ensures
        waiting_ok(spec_claim(s, now)),
        waiting_ok(crate::service::spec_claim_stuck(s)),
{
    assert forall|i: int| 0 <= i < s.waiting.drop_first().len() implies #[trigger] waiting_entry_ok(
        s.waiting.drop_first()[i],
    ) by {
        assert(waiting_entry_ok(s.waiting[i + 1]));
    }
}

/// Settling a job, whichever way it goes, never touches the waiting list,
/// so the waiting invariant stands.
pub proof fn lemma_settle_waiting_ok(
    s: StoreModel,
    m: JobModel,
    err: Seq<char>,
    remove_flag: bool,
    qn: Seq<char>,
    now: int,
)
    requires
        waiting_ok(s),
    ensures
        waiting_ok(spec_success(s, m, remove_flag, qn, now)),
        waiting_ok(spec_fail_retry(s, m, err, qn, now)),
        waiting_ok(spec_fail_exhausted(s, m, err, remove_flag, qn, now)),
{
}

/// Re-enqueueing a record that still has retries left keeps the waiting
/// invariant; a record whose retries are exhausted is never re-enqueued.
pub proof fn lemma_requeue_waiting_ok(s: StoreModel, m: JobModel)
    requires
        waiting_ok(s),
        encodable(m),
        m.attempts < m.max_retries,
    ensures
        waiting_ok(spec_requeue(s, m)),
{
    lemma_decode_encode(m);
    let t = spec_requeue(s, m);
    assert forall|i: int| 0 <= i < t.waiting.len() implies #[trigger] waiting_entry_ok(
        t.waiting[i],
    ) by {
        if i < s.waiting.len() {
            assert(waiting_entry_ok(s.waiting[i]));
        }
    }
}

/// A single-worker queue with exactly one job in flight: its record is the
/// whole waiting list and nothing is being processed.
pub open spec fn solo(s: StoreModel, m: JobModel) -> bool {
    &&& s.waiting == seq![encode_model(m)]
    &&& s.processing == Seq::<Seq<u8>>::empty()
}

/// One worker pass over such a queue when the handler fails with retries
/// left: claim, settle as retrying, wait out the backoff, re-enqueue.
pub open spec fn spec_fail_cycle(
    s: StoreModel,
    err: Seq<char>,
    qn: Seq<char>,
    now: int,
) -> StoreModel {
    let m1 = claimed(decode_model(s.waiting[0]).unwrap(), now);
    spec_requeue(
        spec_fail_retry(spec_claim(s, now), m1, err, qn, now),
        marked_retrying(m1, err, now),
    )
}

/// One worker pass when the handler succeeds: claim, settle as completed.
pub open spec fn spec_success_cycle(
    s: StoreModel,
    remove_on_success: bool,
    qn: Seq<char>,
    now: int,
) -> StoreModel {
    let m1 = claimed(decode_model(s.waiting[0]).unwrap(), now);
    spec_success(spec_claim(s, now), m1, remove_on_success, qn, now)
}

/// One worker pass when the handler fails and no retries are left: claim,
/// settle as permanently failed.
pub open spec fn spec_exhaust_cycle(
    s: StoreModel,
    err: Seq<char>,
    remove_on_failure: bool,
    qn: Seq<char>,
    now: int,
) -> StoreModel {
    let m1 = claimed(decode_model(s.waiting[0]).unwrap(), now);
    spec_fail_exhausted(spec_claim(s, now), m1, err, remove_on_failure, qn, now)
}

/// `k` failing passes in a row.
pub open spec fn spec_fail_cycles(
    s: StoreModel,
    k: nat,
    err: Seq<char>,
    qn: Seq<char>,
    now: int,
) -> StoreModel
    decreases k,
{
    if k == 0 {
        s
    } else {
        spec_fail_cycle(spec_fail_cycles(s, (k - 1) as nat, err, qn, now), err, qn, now)
    }
}

/// The record of a job after `k` failing passes: `k` attempts counted,
/// retrying, carrying the failure message.
pub open spec fn after_fails(m: JobModel, err: Seq<char>, now: int, k: nat) -> JobModel
    decreases k,
{
    if k == 0 {
        m
    } else {
        marked_retrying(claimed(after_fails(m, err, now, (k - 1) as nat), now), err, now)
    }
}

proof fn lemma_after_fails_facts(m: JobModel, err: Seq<char>, now: int, k: nat)
    requires
        encodable(m),
        vstd::utf8::encode_utf8(err).len() <= u64::MAX,
        i64::MIN <= now <= i64::MAX,
        m.attempts + k <= u32::MAX,
    ensures
        ({
            let mk = after_fails(m, err, now, k);
            &&& mk.attempts == m.attempts + k
            &&& mk.id == m.id
            &&& mk.payload == m.payload
            &&& mk.max_retries == m.max_retries
            &&& mk.timeout_ms == m.timeout_ms
            &&& mk.backoff_ms == m.backoff_ms
            &&& mk.created_at == m.created_at
            &&& k > 0 ==> mk.status == JobStatus::Retrying && mk.error == Some(err)
                && mk.updated_at == now
            &&& encodable(mk)
        }),
    decreases k,
{
    if k > 0 {
        lemma_after_fails_facts(m, err, now, (k - 1) as nat);
    }
}

/// One failing pass over a single-job queue, exactly: the job comes back
/// at the tail of the waiting list with one more attempt counted, marked
/// retrying, and its persisted record refreshed to match. Nothing else in
/// the store moves.
pub proof fn lemma_fail_cycle_solo(
    s: StoreModel,
    m: JobModel,
    err: Seq<char>,
    qn: Seq<char>,
    now: int,
)
    requires
        solo(s, m),
        encodable(m),
        vstd::utf8::encode_utf8(err).len() <= u64::MAX,
        i64::MIN <= now <= i64::MAX,
        m.attempts < u32::MAX,
    ensures
        ({
            let m2 = marked_retrying(claimed(m, now), err, now);
            let t = spec_fail_cycle(s, err, qn, now);
            &&& solo(t, m2)
            &&& t.records == s.records.insert(spec_job_key(qn, m.id), encode_model(m2))
            &&& t.succeeded == s.succeeded
            &&& t.failed == s.failed
            &&& t.available == s.available
        }),
{
    lemma_decode_encode(m);
    let h = encode_model(m);
    assert(s.waiting[0] == h);
    let m1 = claimed(m, now);
    let nb = encode_model(m1);
    let t1 = spec_claim(s, now);
    assert(first_index_of(s.processing.push(h), h) == 0);
    assert(s.processing.push(h).remove(0) =~= s.processing);
    assert(t1.processing =~= seq![nb]);
    assert(t1.waiting =~= Seq::<Seq<u8>>::empty());
    let m2 = marked_retrying(m1, err, now);
    let t2 = spec_fail_retry(t1, m1, err, qn, now);
    assert(first_index_of(t1.processing, nb) == 0);
    assert(t2.processing =~= Seq::<Seq<u8>>::empty());
    let t = spec_requeue(t2, m2);
    assert(t.waiting =~= seq![encode_model(m2)]);
}

/// One succeeding pass over a single-job queue with archival switched on:
/// both lists drain, the record is archived at the head of the succeeded
/// list, and the persisted record is refreshed as `Completed` with one
/// more attempt counted.
pub proof fn lemma_success_cycle_solo(s: StoreModel, m: JobModel, qn: Seq<char>, now: int)
    requires
        solo(s, m),
        encodable(m),
        i64::MIN <= now <= i64::MAX,
        m.attempts < u32::MAX,
    ensures
        ({
            let md = marked_completed(claimed(m, now), now);
            let t = spec_success_cycle(s, false, qn, now);
            &&& t.waiting == Seq::<Seq<u8>>::empty()
            &&& t.processing == Seq::<Seq<u8>>::empty()
            &&& t.succeeded == seq![encode_model(md)] + s.succeeded
            &&& t.failed == s.failed
            &&& t.available == s.available
            &&& t.records == s.records.insert(spec_job_key(qn, m.id), encode_model(md))
            &&& md.attempts == m.attempts + 1
            &&& md.status == JobStatus::Completed
        }),
{
    lemma_decode_encode(m);
    let h = encode_model(m);
    assert(s.waiting[0] == h);
    let m1 = claimed(m, now);
    let nb = encode_model(m1);
    let t1 = spec_claim(s, now);
    assert(first_index_of(s.processing.push(h), h) == 0);
    assert(s.processing.push(h).remove(0) =~= s.processing);
    assert(t1.processing =~= seq![nb]);
    assert(t1.waiting =~= Seq::<Seq<u8>>::empty());
    let t = spec_success(t1, m1, false, qn, now);
    assert(first_index_of(t1.processing, nb) == 0);
    assert(t.processing =~= Seq::<Seq<u8>>::empty());
}

/// One exhausting pass over a single-job queue: both lists drain, and the
/// record is dropped or archived as permanently failed, as configured.
pub proof fn lemma_exhaust_cycle_solo(
    s: StoreModel,
    m: JobModel,
    err: Seq<char>,
    remove_on_failure: bool,
    qn: Seq<char>,
    now: int,
)
    requires
        solo(s, m),
        encodable(m),
        vstd::utf8::encode_utf8(err).len() <= u64::MAX,
        i64::MIN <= now <= i64::MAX,
        m.attempts < u32::MAX,
    ensures
        ({
            let mf = marked_failed(claimed(m, now), err, now);
            let t = spec_exhaust_cycle(s, err, remove_on_failure, qn, now);
            &&& t.waiting == Seq::<Seq<u8>>::empty()
            &&& t.processing == Seq::<Seq<u8>>::empty()
            &&& t.succeeded == s.succeeded
            &&& t.available == s.available
            &&& remove_on_failure ==> t.failed == s.failed && t.records == s.records.remove(
                spec_job_key(qn, m.id),
            )
            &&& !remove_on_failure ==> t.failed == seq![encode_model(mf)] + s.failed && t.records
                == s.records.insert(spec_job_key(qn, m.id), encode_model(mf))
            &&& mf.attempts == m.attempts + 1
            &&& mf.status == JobStatus::Failed
            &&& mf.error == Some(err)
        }),
{
    lemma_decode_encode(m);
    let h = encode_model(m);
    assert(s.waiting[0] == h);
    let m1 = claimed(m, now);
    let nb = encode_model(m1);
    let t1 = spec_claim(s, now);
    assert(first_index_of(s.processing.push(h), h) == 0);
    assert(s.processing.push(h).remove(0) =~= s.processing);
    assert(t1.processing =~= seq![nb]);
    assert(t1.waiting =~= Seq::<Seq<u8>>::empty());
    let t = spec_exhaust_cycle(s, err, remove_on_failure, qn, now);
    assert(first_index_of(t1.processing, nb) == 0);
    assert(t.processing =~= Seq::<Seq<u8>>::empty());
}

proof fn lemma_fail_cycles_solo(
    s: StoreModel,
    m: JobModel,
    err: Seq<char>,
    qn: Seq<char>,
    now: int,
    k: nat,
)
    requires
        solo(s, m),
        encodable(m),
        vstd::utf8::encode_utf8(err).len() <= u64::MAX,
        i64::MIN <= now <= i64::MAX,
        m.attempts + k <= u32::MAX,
    ensures
        ({
            let mk = after_fails(m, err, now, k);
            let t = spec_fail_cycles(s, k, err, qn, now);
            &&& solo(t, mk)
            &&& t.succeeded == s.succeeded
            &&& t.failed == s.failed
            &&& t.available == s.available
            &&& k == 0 ==> t.records == s.records
            &&& k > 0 ==> t.records == s.records.insert(
                spec_job_key(qn, m.id),
                encode_model(mk),
            )
        }),
    decreases k,
{
    if k > 0 {
        lemma_fail_cycles_solo(s, m, err, qn, now, (k - 1) as nat);
        lemma_after_fails_facts(m, err, now, (k - 1) as nat);
        let mk1 = after_fails(m, err, now, (k - 1) as nat);
        let t1 = spec_fail_cycles(s, (k - 1) as nat, err, qn, now);
        lemma_fail_cycle_solo(t1, mk1, err, qn, now);
        if k > 1 {
            assert(t1.records == s.records.insert(spec_job_key(qn, m.id), encode_model(mk1)));
            assert(s.records.insert(spec_job_key(qn, m.id), encode_model(mk1)).insert(
                spec_job_key(qn, m.id),
                encode_model(after_fails(m, err, now, k)),
            ) =~= s.records.insert(spec_job_key(qn, m.id), encode_model(after_fails(m, err, now, k))));
        }
    }
}

/// A job whose handler fails `k` times with retries remaining and then
/// succeeds ends with `attempts == k + 1` and a record marked `Completed`,
/// archived in the succeeded list, with both scheduling lists drained.
/// (The failing passes only take the retry branch because `k` stays below
/// the retry ceiling.)
pub proof fn lemma_fail_k_then_success(
    s: StoreModel,
    m: JobModel,
    err: Seq<char>,
    qn: Seq<char>,
    now: int,
    k: nat,
)
    requires
        solo(s, m),
        encodable(m),
        vstd::utf8::encode_utf8(err).len() <= u64::MAX,
        i64::MIN <= now <= i64::MAX,
        m.attempts == 0,
        k < m.max_retries,
    ensures
        ({
            let md = marked_completed(claimed(after_fails(m, err, now, k), now), now);
            let t = spec_success_cycle(spec_fail_cycles(s, k, err, qn, now), false, qn, now);
            &&& md.attempts == k + 1
            &&& md.status == JobStatus::Completed
            &&& t.waiting == Seq::<Seq<u8>>::empty()
            &&& t.processing == Seq::<Seq<u8>>::empty()
            &&& t.records[spec_job_key(qn, m.id)] == encode_model(md)
            &&& decode_model(t.records[spec_job_key(qn, m.id)]) == Some(md)
        }),
{
    lemma_fail_cycles_solo(s, m, err, qn, now, k);
    lemma_after_fails_facts(m, err, now, k);
    let mk = after_fails(m, err, now, k);
    let tk = spec_fail_cycles(s, k, err, qn, now);
    lemma_success_cycle_solo(tk, mk, qn, now);
    let md = marked_completed(claimed(mk, now), now);
    assert(encodable(md));
    lemma_decode_encode(md);
}

/// A job enqueued into an idle queue whose handler succeeds on the first
/// attempt ends with its record marked `Completed` (when archival keeps
/// it), so a caller polling for the result sees the completed outcome.
pub proof fn lemma_enqueue_then_success(
    s0: StoreModel,
    m: JobModel,
    qn: Seq<char>,
    now: int,
)
    requires
        s0.waiting == Seq::<Seq<u8>>::empty(),
        s0.processing == Seq::<Seq<u8>>::empty(),
        encodable(m),
        i64::MIN <= now <= i64::MAX,
        m.attempts == 0,
    ensures
        ({
            let md = marked_completed(claimed(m, now), now);
            let t = spec_success_cycle(
                spec_enqueue(s0, m, spec_job_key(qn, m.id)),
                false,
                qn,
                now,
            );
            &&& md.status == JobStatus::Completed
            &&& md.attempts == 1
            &&& md.payload == m.payload
            &&& t.waiting == Seq::<Seq<u8>>::empty()
            &&& t.processing == Seq::<Seq<u8>>::empty()
            &&& t.records.contains_key(spec_job_key(qn, m.id))
            &&& decode_model(t.records[spec_job_key(qn, m.id)]) == Some(md)
        }),
{
    let s1 = spec_enqueue(s0, m, spec_job_key(qn, m.id));
    assert(s1.waiting =~= seq![encode_model(m)]);
    lemma_success_cycle_solo(s1, m, qn, now);
    let md = marked_completed(claimed(m, now), now);
    assert(encodable(md));
    lemma_decode_encode(md);
}

/// A job whose handler fails on every attempt is permanently failed after
/// `max_retries` attempts: it is absent from the waiting and processing
/// lists, its record shows `Failed` with `attempts == max_retries` and the
/// failure message, and it sits in the failed archive when archival is
/// configured, or its record is gone when it is not. It is never
/// re-enqueued after that.
pub proof fn lemma_fail_until_exhausted(
    s: StoreModel,
    m: JobModel,
    err: Seq<char>,
    remove_on_failure: bool,
    qn: Seq<char>,
    now: int,
)
    requires
        solo(s, m),
        encodable(m),
        vstd::utf8::encode_utf8(err).len() <= u64::MAX,
        i64::MIN <= now <= i64::MAX,
        m.attempts == 0,
        m.max_retries >= 1,
    ensures
        ({
            let k = (m.max_retries - 1) as nat;
            let mf = marked_failed(claimed(after_fails(m, err, now, k), now), err, now);
            let t = spec_exhaust_cycle(
                spec_fail_cycles(s, k, err, qn, now),
                err,
                remove_on_failure,
                qn,
                now,
            );
            &&& mf.attempts == m.max_retries
            &&& mf.status == JobStatus::Failed
            &&& mf.error == Some(err)
            &&& t.waiting == Seq::<Seq<u8>>::empty()
            &&& t.processing == Seq::<Seq<u8>>::empty()
            &&& !remove_on_failure ==> t.failed == seq![encode_model(mf)] + s.failed
                && decode_model(t.records[spec_job_key(qn, m.id)]) == Some(mf)
            &&& remove_on_failure ==> !t.records.contains_key(spec_job_key(qn, m.id))
        }),
{
    let k = (m.max_retries - 1) as nat;
    lemma_fail_cycles_solo(s, m, err, qn, now, k);
    lemma_after_fails_facts(m, err, now, k);
    let mk = after_fails(m, err, now, k);
    let tk = spec_fail_cycles(s, k, err, qn, now);
    lemma_exhaust_cycle_solo(tk, mk, err, remove_on_failure, qn, now);
    let mf = marked_failed(claimed(mk, now), err, now);
    assert(encodable(mf));
    lemma_decode_encode(mf);
    if remove_on_failure {
        let t = spec_exhaust_cycle(tk, err, remove_on_failure, qn, now);
        assert(!t.records.contains_key(spec_job_key(qn, m.id)));
    }
}

} // verus!

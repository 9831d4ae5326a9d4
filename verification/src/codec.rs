use vstd::prelude::*;

use vstd::bytes::*;
use vstd::slice::slice_to_vec;
use vstd::string::StrSliceExecFns;
use vstd::utf8::{decode_utf8, encode_utf8, valid_utf8};

use crate::job::{JobModel, JobStatus, QueueJob};

verus! {

// A job record is persisted as one byte string: a fixed 66-byte header
// holding the status, the counters and the lengths of the variable parts,
// followed by the identifier (UTF-8), the payload, and the failure message
// (UTF-8), in that order. Integers are little-endian; timestamps are stored
// as the two's-complement image of their signed value.
//
// header layout:
//   [0]      status tag
//   [1..5]   attempts (u32)
//   [5..9]   max_retries (u32)
//   [9..17]  timeout_ms (u64)
//   [17..25] backoff_ms (u64)
//   [25..33] created_at (i64 as u64)
//   [33..41] updated_at (i64 as u64)
//   [41..49] byte length of the identifier
//   [49..57] byte length of the payload
//   [57]     0 when no failure message is recorded, 1 otherwise
//   [58..66] byte length of the failure message (0 when absent)

pub const HEADER_LEN: usize = 66;

pub open spec fn status_byte(s: JobStatus) -> u8 {
    match s {
        JobStatus::Waiting => 0,
        JobStatus::Processing => 1,
        JobStatus::Completed => 2,
        JobStatus::Failed => 3,
        JobStatus::Retrying => 4,
    }
}

pub open spec fn status_of_byte(b: u8) -> Option<JobStatus> {
    if b == 0 {
        Some(JobStatus::Waiting)
    } else if b == 1 {
        Some(JobStatus::Processing)
    } else if b == 2 {
        Some(JobStatus::Completed)
    } else if b == 3 {
        Some(JobStatus::Failed)
    } else if b == 4 {
        Some(JobStatus::Retrying)
    } else {
        None
    }
}

pub open spec fn error_tag(e: Option<Seq<char>>) -> u8 {
    match e {
        Some(_) => 1,
        None => 0,
    }
}

pub open spec fn error_bytes(e: Option<Seq<char>>) -> Seq<u8> {
    match e {
        Some(s) => encode_utf8(s),
        None => Seq::empty(),
    }
}

/// A model can be written down faithfully when its fields are in machine
/// range and the variable parts are short enough for their length fields.
/// Every record built by executable code satisfies this.
pub open spec fn encodable(m: JobModel) -> bool {
    &&& m.wf()
    &&& encode_utf8(m.id).len() <= u64::MAX
    &&& m.payload.len() <= u64::MAX
    &&& error_bytes(m.error).len() <= u64::MAX
}

/// The byte string that stands for a job record in the store.
pub open spec fn encode_model(m: JobModel) -> Seq<u8> {
    seq![status_byte(m.status)] + spec_u32_to_le_bytes(m.attempts as u32) + spec_u32_to_le_bytes(
        m.max_retries as u32,
    ) + spec_u64_to_le_bytes(m.timeout_ms as u64) + spec_u64_to_le_bytes(m.backoff_ms as u64)
        + spec_u64_to_le_bytes((m.created_at as i64) as u64) + spec_u64_to_le_bytes(
        (m.updated_at as i64) as u64,
    ) + spec_u64_to_le_bytes(encode_utf8(m.id).len() as u64) + spec_u64_to_le_bytes(
        m.payload.len() as u64,
    ) + seq![error_tag(m.error)] + spec_u64_to_le_bytes(error_bytes(m.error).len() as u64)
        + encode_utf8(m.id) + m.payload + error_bytes(m.error)
}

/// The record denoted by a byte string, if it is well formed.
pub open spec fn decode_model(b: Seq<u8>) -> Option<JobModel> {
    if b.len() < HEADER_LEN {
        None
    } else {
        let status_opt = status_of_byte(b[0]);
        let attempts = spec_u32_from_le_bytes(b.subrange(1, 5));
        let max_retries = spec_u32_from_le_bytes(b.subrange(5, 9));
        let timeout_ms = spec_u64_from_le_bytes(b.subrange(9, 17));
        let backoff_ms = spec_u64_from_le_bytes(b.subrange(17, 25));
        let created_u = spec_u64_from_le_bytes(b.subrange(25, 33));
        let updated_u = spec_u64_from_le_bytes(b.subrange(33, 41));
        let id_len = spec_u64_from_le_bytes(b.subrange(41, 49)) as int;
        let payload_len = spec_u64_from_le_bytes(b.subrange(49, 57)) as int;
        let etag = b[57];
        let err_len = spec_u64_from_le_bytes(b.subrange(58, 66)) as int;
        if status_opt is None {
            None
        } else if etag != 0 && etag != 1 {
            None
        } else if etag == 0 && err_len != 0 {
            None
        } else if b.len() != HEADER_LEN + id_len + payload_len + err_len {
            None
        } else {
            let id_bytes = b.subrange(HEADER_LEN as int, HEADER_LEN + id_len);
            let payload = b.subrange(HEADER_LEN + id_len, HEADER_LEN + id_len + payload_len);
            let errb = b.subrange(
                HEADER_LEN + id_len + payload_len,
                HEADER_LEN + id_len + payload_len + err_len,
            );
            if !valid_utf8(id_bytes) {
                None
            } else if etag == 1 && !valid_utf8(errb) {
                None
            } else {
                Some(
                    JobModel {
                        id: decode_utf8(id_bytes),
                        payload,
                        status: status_opt.unwrap(),
                        attempts: attempts as int,
                        max_retries: max_retries as int,
                        timeout_ms: timeout_ms as int,
                        backoff_ms: backoff_ms as int,
                        created_at: (created_u as i64) as int,
                        updated_at: (updated_u as i64) as int,
                        error: if etag == 1 {
                            Some(decode_utf8(errb))
                        } else {
                            None
                        },
                    },
                )
            }
        }
    }
}

proof fn lemma_i64_u64_roundtrip(x: i64)
    ensures
        ((x as u64) as i64) == x,
{
    assert(((x as u64) as i64) == x) by (bit_vector);
}

/// Decoding inverts encoding: any record that executable code can hold is
/// written down and read back unchanged.
pub proof fn lemma_decode_encode(m: JobModel)
    requires
        encodable(m),
    ensures
        decode_model(encode_model(m)) == Some(m),
{
    broadcast use vstd::utf8::encode_utf8_valid_utf8;
    broadcast use vstd::utf8::encode_utf8_decode_utf8;

    lemma_auto_spec_u32_to_from_le_bytes();
    lemma_auto_spec_u64_to_from_le_bytes();
    let b = encode_model(m);
    let idb = encode_utf8(m.id);
    let errb = error_bytes(m.error);
    let id_len = idb.len() as int;
    let payload_len = m.payload.len() as int;
    let err_len = errb.len() as int;
    assert(b.len() == HEADER_LEN + id_len + payload_len + err_len);
    assert(b.subrange(1, 5) =~= spec_u32_to_le_bytes(m.attempts as u32));
    assert(b.subrange(5, 9) =~= spec_u32_to_le_bytes(m.max_retries as u32));
    assert(b.subrange(9, 17) =~= spec_u64_to_le_bytes(m.timeout_ms as u64));
    assert(b.subrange(17, 25) =~= spec_u64_to_le_bytes(m.backoff_ms as u64));
    assert(b.subrange(25, 33) =~= spec_u64_to_le_bytes((m.created_at as i64) as u64));
    assert(b.subrange(33, 41) =~= spec_u64_to_le_bytes((m.updated_at as i64) as u64));
    assert(b.subrange(41, 49) =~= spec_u64_to_le_bytes(idb.len() as u64));
    assert(b.subrange(49, 57) =~= spec_u64_to_le_bytes(m.payload.len() as u64));
    assert(b.subrange(58, 66) =~= spec_u64_to_le_bytes(errb.len() as u64));
    assert(b[0] == status_byte(m.status));
    assert(b[57] == error_tag(m.error));
    assert(b.subrange(HEADER_LEN as int, HEADER_LEN + id_len) =~= idb);
    assert(b.subrange(HEADER_LEN + id_len, HEADER_LEN + id_len + payload_len) =~= m.payload);
    assert(b.subrange(
        HEADER_LEN + id_len + payload_len,
        HEADER_LEN + id_len + payload_len + err_len,
    ) =~= errb);
    lemma_i64_u64_roundtrip(m.created_at as i64);
    lemma_i64_u64_roundtrip(m.updated_at as i64);
    assert(status_of_byte(status_byte(m.status)) == Some(m.status));
    if m.error is Some {
        assert(valid_utf8(errb));
    }
    let d = decode_model(b);
    assert(d is Some);
    assert(d.unwrap() == m);
}

fn status_to_byte(s: JobStatus) -> (r: u8)
    ensures
        r == status_byte(s),
{
    match s {
        JobStatus::Waiting => 0,
        JobStatus::Processing => 1,
        JobStatus::Completed => 2,
        JobStatus::Failed => 3,
        JobStatus::Retrying => 4,
    }
}

fn status_from_byte(b: u8) -> (r: Option<JobStatus>)
    ensures
        r == status_of_byte(b),
{
    if b == 0 {
        Some(JobStatus::Waiting)
    } else if b == 1 {
        Some(JobStatus::Processing)
    } else if b == 2 {
        Some(JobStatus::Completed)
    } else if b == 3 {
        Some(JobStatus::Failed)
    } else if b == 4 {
        Some(JobStatus::Retrying)
    } else {
        None
    }
}

/// Relies on `String::from_utf8`: it succeeds exactly on valid UTF-8 input
/// and returns the string whose characters are the decoded scalar values.
#[verifier::external_body]
fn bytes_to_string(v: Vec<u8>) -> (r: Option<String>)
    ensures
        r is Some <==> valid_utf8(v@),
        r matches Some(s) ==> s@ == decode_utf8(v@),
{
    String::from_utf8(v).ok()
}

/// Serialize a job record into the byte string stored by the queue. Every
/// record executable code holds is encodable, so the byte string can
/// always be read back; see [`lemma_decode_encode`].
pub fn encode_job(job: &QueueJob) -> (out: Vec<u8>)
    ensures
        out@ == encode_model(job@),
        encodable(job@),
{
    let mut out: Vec<u8> = Vec::new();
    out.push(status_to_byte(job.status));
    let mut t32 = u32_to_le_bytes(job.attempts);
    out.append(&mut t32);
    let mut t32 = u32_to_le_bytes(job.max_retries);
    out.append(&mut t32);
    let mut t64 = u64_to_le_bytes(job.timeout_ms);
    out.append(&mut t64);
    let mut t64 = u64_to_le_bytes(job.backoff_ms);
    out.append(&mut t64);
    let mut t64 = u64_to_le_bytes(job.created_at as u64);
    out.append(&mut t64);
    let mut t64 = u64_to_le_bytes(job.updated_at as u64);
    out.append(&mut t64);
    let mut idb = job.id.as_str().as_bytes_vec();
    let mut t64 = u64_to_le_bytes(idb.len() as u64);
    out.append(&mut t64);
    let mut t64 = u64_to_le_bytes(job.payload.len() as u64);
    out.append(&mut t64);
    match &job.error {
        Some(e) => {
            let mut errb = e.as_str().as_bytes_vec();
            out.push(1);
            let mut t64 = u64_to_le_bytes(errb.len() as u64);
            out.append(&mut t64);
            out.append(&mut idb);
            let mut payload = slice_to_vec(job.payload.as_slice());
            out.append(&mut payload);
            out.append(&mut errb);
        },
        None => {
            out.push(0);
            let mut t64 = u64_to_le_bytes(0u64);
            out.append(&mut t64);
            out.append(&mut idb);
            let mut payload = slice_to_vec(job.payload.as_slice());
            out.append(&mut payload);
        },
    }
    proof {
        assert(out@ =~= encode_model(job@));
        assert(encodable(job@));
    }
    out
}

/// Read a job record back from its stored byte string. Returns `None` on
/// any byte string that no record encodes to.
pub fn decode_job(b: &[u8]) -> (r: Option<QueueJob>)
    ensures
        match r {
            Some(j) => decode_model(b@) == Some(j@),
            None => decode_model(b@) is None,
        },
{
    let n = b.len();
    if n < HEADER_LEN {
        return None;
    }
    let status_opt = status_from_byte(b[0]);
    let attempts = u32_from_le_bytes(&b[1..5]);
    let max_retries = u32_from_le_bytes(&b[5..9]);
    let timeout_ms = u64_from_le_bytes(&b[9..17]);
    let backoff_ms = u64_from_le_bytes(&b[17..25]);
    let created_u = u64_from_le_bytes(&b[25..33]);
    let updated_u = u64_from_le_bytes(&b[33..41]);
    let id_len = u64_from_le_bytes(&b[41..49]);
    let payload_len = u64_from_le_bytes(&b[49..57]);
    let etag = b[57];
    let err_len = u64_from_le_bytes(&b[58..66]);

    let status = match status_opt {
        Some(s) => s,
        None => {
            return None;
        },
    };
    if etag != 0 && etag != 1 {
        return None;
    }
    if etag == 0 && err_len != 0 {
        return None;
    }
    let rest = (n - HEADER_LEN) as u64;
    if id_len > rest {
        return None;
    }
    let rest2 = rest - id_len;
    if payload_len > rest2 {
        return None;
    }
    let rest3 = rest2 - payload_len;
    if err_len != rest3 {
        return None;
    }
    let id_start = HEADER_LEN;
    let id_end = HEADER_LEN + (id_len as usize);
    let payload_end = id_end + (payload_len as usize);
    let err_end = payload_end + (err_len as usize);
    let id_vec = slice_to_vec(&b[id_start..id_end]);
    let payload = slice_to_vec(&b[id_end..payload_end]);
    let err_vec = slice_to_vec(&b[payload_end..err_end]);
    let id = match bytes_to_string(id_vec) {
        Some(s) => s,
        None => {
            return None;
        },
    };
    let error: Option<String> = if etag == 1 {
        match bytes_to_string(err_vec) {
            Some(s) => Some(s),
            None => {
                return None;
            },
        }
    } else {
        None
    };
    proof {
        lemma_i64_u64_roundtrip_helper(created_u);
        lemma_i64_u64_roundtrip_helper(updated_u);
    }
    let job = QueueJob {
        id,
        payload,
        status,
        attempts,
        max_retries,
        timeout_ms,
        backoff_ms,
        created_at: created_u as i64,
        updated_at: updated_u as i64,
        error,
    };
    proof {
        assert(decode_model(b@) == Some(job@));
    }
    Some(job)
}

proof fn lemma_i64_u64_roundtrip_helper(x: u64)
    ensures
        ((x as i64) as u64) == x,
{
    assert(((x as i64) as u64) == x) by (bit_vector);
}

} // verus!

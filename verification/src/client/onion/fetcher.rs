//! Planning of pipelined inbox fetches: real and dummy jobs, shuffled and
//! spread over parallel transports.

use vstd::prelude::*;
use vstd::bytes::spec_u64_from_le_bytes;
use crate::common::error::Result;
use crate::crypto::primitives::{random_bytes, shuffle, spec_ed25519_verify};
use crate::client::onion::bootstrap::{InboxMessages, SignedInboxResponse, spec_signed_inbox_bytes, TRAILER_LEN};

verus! {

/// One unit of work: fetch a single inbox id, real or dummy.
pub struct FetchJob {
    pub inbox_id: Vec<u8>,
    pub is_dummy: bool,
}

/// Dummy fetches added to a round: as many as real ones, at most two.
pub open spec fn spec_dummy_count(count: nat) -> nat {
    if count < 2 { count } else { 2 }
}

/// The jobs before shuffling: the real ids in order, then dummies.
pub open spec fn spec_planned(ids: Seq<Vec<u8>>, jobs: Seq<FetchJob>) -> bool {
    &&& jobs.len() == ids.len() + spec_dummy_count(ids.len())
    &&& forall|i: int| 0 <= i < ids.len() ==> (#[trigger] jobs[i]).inbox_id@ == ids[i]@ && !jobs[i].is_dummy
    &&& forall|i: int| ids.len() <= i < jobs.len() ==> (#[trigger] jobs[i]).inbox_id@.len() == 32 && jobs[i].is_dummy
}

/// The jobs of a fetch round: one per real inbox id, plus up to two dummy
/// fetches of random 32-byte ids, in random order.
pub fn plan_fetch_jobs(inbox_ids: &Vec<Vec<u8>>) -> (jobs: Vec<FetchJob>)
    ensures
        exists|planned: Seq<FetchJob>|
            spec_planned(inbox_ids@, planned) && #[trigger] jobs@.to_multiset() == planned.to_multiset(),
{
    let mut jobs: Vec<FetchJob> = Vec::new();
    let mut i: usize = 0;
    while i < inbox_ids.len()
        invariant
            0 <= i <= inbox_ids@.len(),
            jobs@.len() == i,
            forall|j: int| 0 <= j < i ==> (#[trigger] jobs@[j]).inbox_id@ == inbox_ids@[j]@ && !jobs@[j].is_dummy,
        decreases inbox_ids@.len() - i,
    {
        jobs.push(FetchJob { inbox_id: vstd::slice::slice_to_vec(inbox_ids[i].as_slice()), is_dummy: false });
        i = i + 1;
    }
    let dummy_count: usize = if inbox_ids.len() < 2 { inbox_ids.len() } else { 2 };
    let mut d: usize = 0;
    while d < dummy_count
        invariant
            dummy_count == spec_dummy_count(inbox_ids@.len()),
            0 <= d <= dummy_count,
            jobs@.len() == inbox_ids@.len() + d,
            forall|j: int| 0 <= j < inbox_ids@.len() ==> (#[trigger] jobs@[j]).inbox_id@ == inbox_ids@[j]@ && !jobs@[j].is_dummy,
            forall|j: int| inbox_ids@.len() <= j < jobs@.len() ==> (#[trigger] jobs@[j]).inbox_id@.len() == 32 && jobs@[j].is_dummy,
        decreases dummy_count - d,
    {
        let id: [u8; 32] = random_bytes();
        jobs.push(FetchJob { inbox_id: vstd::slice::slice_to_vec(id.as_slice()), is_dummy: true });
        d = d + 1;
    }
    let ghost planned = jobs@;
    shuffle(&mut jobs);
    assert(spec_planned(inbox_ids@, planned));
    jobs
}

/// How many transports a round is spread over: the ready relay circuits,
/// clamped to 1..=3.
pub fn transport_count(relay_ready_count: usize) -> (n: usize)
    ensures
        n == (if relay_ready_count < 1 { 1 } else if relay_ready_count > 3 { 3 } else { relay_ready_count }),
{
    if relay_ready_count < 1 {
        1
    } else if relay_ready_count > 3 {
        3
    } else {
        relay_ready_count
    }
}

/// Number of positions below `len` that are congruent to `c` modulo `n`.
pub open spec fn spec_chunk_len(len: int, n: int, c: int) -> int {
    len / n + (if c < len % n { 1int } else { 0int })
}

proof fn lemma_chunk_step(i: int, n: int, c: int)
    requires
        0 <= i,
        0 < n,
        0 <= c < n,
    ensures
        spec_chunk_len(i + 1, n, c) == spec_chunk_len(i, n, c) + (if c == i % n { 1int } else { 0int }),
        c == i % n ==> spec_chunk_len(i, n, c) == i / n,
        i == (i / n) * n + i % n,
        0 <= i % n < n,
{
    vstd::arithmetic::div_mod::lemma_fundamental_div_mod(i, n);
    vstd::arithmetic::div_mod::lemma_mod_bound(i, n);
    let q = i / n;
    let r = i % n;
    assert(n * q == q * n) by (nonlinear_arith);
    assert((q + 1) * n == q * n + n) by (nonlinear_arith);
    if r + 1 < n {
        vstd::arithmetic::div_mod::lemma_fundamental_div_mod_converse(i + 1, n, q, r + 1);
    } else {
        vstd::arithmetic::div_mod::lemma_fundamental_div_mod_converse(i + 1, n, q + 1, 0);
    }
}

/// Spreads jobs over `n` pipelines round-robin: job `i` goes to pipeline
/// `i % n`, so pipeline `c` gets jobs `c, c + n, c + 2n, ...` in order.
pub fn distribute_jobs(jobs: Vec<FetchJob>, n: usize) -> (chunks: Vec<Vec<FetchJob>>)
    requires
        n > 0,
    ensures
        chunks@.len() == n,
        forall|c: int| 0 <= c < n ==> (#[trigger] chunks@[c])@.len() == spec_chunk_len(jobs@.len() as int, n as int, c),
        forall|c: int, k: int|
            0 <= c < n && 0 <= k < chunks@[c]@.len() ==> #[trigger] chunks@[c]@[k] == jobs@[c + k * n],
{
    let ghost orig = jobs@;
    let len = jobs.len();
    let mut jobs = jobs;
    let mut chunks: Vec<Vec<FetchJob>> = Vec::new();
    let mut c: usize = 0;
    while c < n
        invariant
            c <= n,
            chunks@.len() == c,
            forall|j: int| 0 <= j < c ==> (#[trigger] chunks@[j])@.len() == 0,
        decreases n - c,
    {
        chunks.push(Vec::new());
        c = c + 1;
    }
    let mut i: usize = 0;
    while i < len
        invariant
            n > 0,
            len == orig.len(),
            i <= len,
            jobs@ == orig.subrange(i as int, len as int),
            chunks@.len() == n,
            forall|c: int| 0 <= c < n ==> (#[trigger] chunks@[c])@.len() == spec_chunk_len(i as int, n as int, c),
            forall|c: int, k: int|
                0 <= c < n && 0 <= k < chunks@[c]@.len() ==> #[trigger] chunks@[c]@[k] == orig[c + k * n],
        decreases len - i,
    {
        let job = jobs.remove(0);
        let idx = i % n;
        proof {
            lemma_chunk_step(i as int, n as int, idx as int);
        }
        let mut chunk = chunks.remove(idx);
        let ghost k = chunk@.len();
        chunk.push(job);
        chunks.insert(idx, chunk);
        proof {
            assert(k == i as int / n as int);
            assert(idx as int + k * n == i) by (nonlinear_arith)
                requires
                    idx as int == i as int % n as int,
                    k == i as int / n as int,
                    i as int == (i as int / n as int) * n as int + i as int % n as int;
            assert forall|c: int| 0 <= c < n implies (#[trigger] chunks@[c])@.len() == spec_chunk_len(i + 1, n as int, c) by {
                lemma_chunk_step(i as int, n as int, c);
            }
        }
        i = i + 1;
    }
    chunks
}


/// What a fetched and verified inbox response leads to.
pub struct Settled {
    /// The claim token to acknowledge, for a signed response.
    pub ack_token: Option<Vec<u8>>,
    /// The inbox id and protocol payload handed on, for a real job.
    pub delivered: Option<(Vec<u8>, Vec<u8>)>,
}

/// Whether a response is a signed one: an inbox listing followed by the
/// claim token and signature trailer.
pub open spec fn spec_signed_response(raw: Seq<u8>, payload_is_inbox: bool) -> bool {
    raw.len() > TRAILER_LEN && payload_is_inbox
}

/// Whether the server's signature in a signed response's trailer verifies
/// over the listing, the inbox id and the claim token's timestamp.
pub open spec fn spec_signature_holds(verifying_key: Seq<u8>, inbox_id: Seq<u8>, raw: Seq<u8>, listing: InboxMessages) -> bool {
    let p = raw.len() - TRAILER_LEN;
    spec_ed25519_verify(
        verifying_key,
        spec_signed_inbox_bytes(listing.messages@, listing.count, inbox_id, spec_u64_from_le_bytes(raw.subrange(p, p + 8))),
        raw.subrange(p + 40, raw.len() as int),
    )
}

/// Settles a job's fetched response. `payload_inbox` is the decoding, as an
/// inbox listing, of the bytes before a 104-byte trailer (when the response
/// is longer than that), `raw_inbox` that of the whole response. A signed
/// response must carry a valid server signature for the job's inbox id; an
/// unsigned one must be a listing; anything else is a protocol error, and
/// nothing is acknowledged. A signed response's claim token is acknowledged
/// only once its signature has verified; a real job's payload is handed on
/// and a dummy's dropped.
pub fn settle_fetched(
    job: &FetchJob,
    raw: &[u8],
    payload_inbox: Option<&InboxMessages>,
    raw_inbox: Option<&InboxMessages>,
    verifying_key: &[u8; 32],
) -> (r: Result<Settled>)
    ensures
        spec_signed_response(raw@, payload_inbox is Some) ==> (r is Ok <==> spec_signature_holds(
            verifying_key@,
            job.inbox_id@,
            raw@,
            *payload_inbox.unwrap(),
        )),
        !spec_signed_response(raw@, payload_inbox is Some) ==> (r is Ok <==> raw_inbox is Some),
        r is Err ==> r->Err_0 is Protocol,
        r matches Ok(s) ==> ({
            let signed = spec_signed_response(raw@, payload_inbox is Some);
            let p = raw@.len() - TRAILER_LEN;
            &&& s.ack_token is Some <==> signed
            &&& s.ack_token is Some ==> s.ack_token.unwrap()@ == raw@.subrange(p, p + 40)
                && spec_signature_holds(verifying_key@, job.inbox_id@, raw@, *payload_inbox.unwrap())
            &&& s.delivered is Some <==> !job.is_dummy
            &&& s.delivered is Some ==> s.delivered.unwrap().0@ == job.inbox_id@ && s.delivered.unwrap().1@ == (if signed {
                raw@.subrange(0, p)
            } else {
                raw@
            })
        }),
{
    let signed = SignedInboxResponse::parse(raw, payload_inbox.is_some(), raw_inbox.is_some())?;
    let listing = if signed.claim_token.is_some() { payload_inbox } else { raw_inbox };
    proof {
        if spec_signed_response(raw@, payload_inbox is Some) {
            let p = raw@.len() - TRAILER_LEN;
            assert(signed.claim_token.unwrap()@.subrange(0, 8) =~= raw@.subrange(p, p + 8));
        }
    }
    signed.verify(verifying_key, job.inbox_id.as_slice(), listing)?;
    let ack_token: Option<Vec<u8>> = match &signed.claim_token {
        Some(t) => Some(vstd::slice::slice_to_vec(t.as_slice())),
        None => None,
    };
    let delivered: Option<(Vec<u8>, Vec<u8>)> = if job.is_dummy {
        None
    } else {
        Some((vstd::slice::slice_to_vec(job.inbox_id.as_slice()), signed.proto_payload))
    };
    Ok(Settled { ack_token, delivered })
}


/// What the pipelines of a fetch round delivered, in pipeline order.
pub open spec fn spec_collected(chunks: Seq<Vec<(Vec<u8>, Vec<u8>)>>) -> Seq<(Vec<u8>, Vec<u8>)>
    decreases chunks.len(),
{
    if chunks.len() == 0 {
        Seq::empty()
    } else {
        spec_collected(chunks.drop_last()) + chunks.last()@
    }
}

/// Gathers a fetch round's results: each pipeline's verified `(inbox id,
/// payload)` pairs, in pipeline order. A pipeline that stopped on a bad
/// response still hands over what it verified before, so every real inbox id
/// whose response verified gets its result.
pub fn collect_fetch_results(chunks: Vec<Vec<(Vec<u8>, Vec<u8>)>>) -> (out: Vec<(Vec<u8>, Vec<u8>)>)
    ensures
        out@ == spec_collected(chunks@),
{
    let ghost all = chunks@;
    let mut chunks = chunks;
    let mut out: Vec<(Vec<u8>, Vec<u8>)> = Vec::new();
    let n: usize = chunks.len();
    let mut i: usize = 0;
    while chunks.len() > 0
        invariant
            i + chunks@.len() == all.len(),
            all.len() == n,
            chunks@ == all.subrange(i as int, all.len() as int),
            out@ == spec_collected(all.subrange(0, i as int)),
        decreases chunks@.len(),
    {
        let mut c = chunks.remove(0);
        assert(all.subrange(0, i + 1).drop_last() =~= all.subrange(0, i as int));
        out.append(&mut c);
        i = i + 1;
        assert(chunks@ =~= all.subrange(i as int, all.len() as int));
    }
    assert(all.subrange(0, all.len() as int) =~= all);
    out
}

} // verus!

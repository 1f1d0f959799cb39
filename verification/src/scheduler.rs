//! Continuous-batching scheduler.
//!
//! Requests are queued by `add_request()`.  `schedule_batch()` fills a
//! batch within a token budget and a limit on running sequences: running
//! requests first (a one-token decode step for each that is decoding, the
//! next prompt chunk for each still prefilling), then waiting requests
//! promoted from the front of the queue with the first chunk of their
//! prompt.  `commit_step()` appends the sampled tokens and retires finished
//! requests.

use vstd::prelude::*;
use std::collections::VecDeque;
use rustc_hash::FxHashMap;
use crate::fx::{fx_new_u64, fx_get_u64, fx_insert_u64, fx_remove_u64, fx_len_u64, fx_keys_u64};
use crate::util::{copy_all, copy_range};

verus! {

pub type RequestId = u64;

/// The largest prompt chunk prefilled in one step.
pub const MAX_PREFILL_CHUNK: usize = 2048;

#[derive(Debug, Clone, Copy, PartialEq, Eq, Structural)]
pub enum RequestStatus {
    Waiting,
    Prefilling,
    Decoding,
    Finished,
}

/// Sampling parameters of a request.  The scheduler reads only
/// `max_new_tokens` and `stop_tokens`; the floating-point parameters travel
/// with the request as their IEEE-754 bit patterns (`f32::to_bits`).
#[derive(Debug, Clone)]
pub struct SamplingParams {
    pub temperature_bits: u32,
    pub top_p_bits: u32,
    pub top_k: u32,
    pub max_new_tokens: u32,
    pub repetition_penalty_bits: u32,
    pub stop_tokens: Vec<u32>,
}

/// The value of `SamplingParams` that contracts speak of.
pub struct SamplingParamsView {
    pub temperature_bits: u32,
    pub top_p_bits: u32,
    pub top_k: u32,
    pub max_new_tokens: u32,
    pub repetition_penalty_bits: u32,
    pub stop_tokens: Seq<u32>,
}

impl View for SamplingParams {
    type V = SamplingParamsView;

    open spec fn view(&self) -> SamplingParamsView {
        SamplingParamsView {
            temperature_bits: self.temperature_bits,
            top_p_bits: self.top_p_bits,
            top_k: self.top_k,
            max_new_tokens: self.max_new_tokens,
            repetition_penalty_bits: self.repetition_penalty_bits,
            stop_tokens: self.stop_tokens@,
        }
    }
}

impl Default for SamplingParams {
    /// temperature 0.7, top-p 0.95, top-k 50, 2048 new tokens at most,
    /// repetition penalty 1.1, no stop tokens.
    fn default() -> (p: Self)
        ensures
            p.temperature_bits == 0x3f33_3333,
            p.top_p_bits == 0x3f73_3333,
            p.top_k == 50,
            p.max_new_tokens == 2048,
            p.repetition_penalty_bits == 0x3f8c_cccd,
            p.stop_tokens@.len() == 0,
    {
        SamplingParams {
            temperature_bits: 0x3f33_3333,
            top_p_bits: 0x3f73_3333,
            top_k: 50,
            max_new_tokens: 2048,
            repetition_penalty_bits: 0x3f8c_cccd,
            stop_tokens: Vec::new(),
        }
    }
}

impl SamplingParams {
    /// A copy of these parameters.
    pub fn duplicate(&self) -> (p: Self)
        ensures
            p@ == self@,
    {
        SamplingParams {
            temperature_bits: self.temperature_bits,
            top_p_bits: self.top_p_bits,
            top_k: self.top_k,
            max_new_tokens: self.max_new_tokens,
            repetition_penalty_bits: self.repetition_penalty_bits,
            stop_tokens: copy_all(&self.stop_tokens),
        }
    }
}

/// A single inference request.
pub struct Request {
    pub id: RequestId,
    pub prompt_tokens: Vec<u32>,
    pub output_tokens: Vec<u32>,
    pub params: SamplingParams,
    pub status: RequestStatus,
    /// Physical KV block ids.
    pub block_table: Vec<u32>,
    /// How many prompt tokens are already prefilled.
    pub prefill_cursor: usize,
}

/// The value of a `Request` that contracts speak of.
pub struct RequestView {
    pub id: RequestId,
    pub prompt_tokens: Seq<u32>,
    pub output_tokens: Seq<u32>,
    pub params: SamplingParamsView,
    pub status: RequestStatus,
    pub block_table: Seq<u32>,
    pub prefill_cursor: usize,
}

impl View for Request {
    type V = RequestView;

    open spec fn view(&self) -> RequestView {
        RequestView {
            id: self.id,
            prompt_tokens: self.prompt_tokens@,
            output_tokens: self.output_tokens@,
            params: self.params@,
            status: self.status,
            block_table: self.block_table@,
            prefill_cursor: self.prefill_cursor,
        }
    }
}

/// A request has hit its stop condition: it produced `max_new_tokens`
/// tokens, or its last token is a stop token.
pub open spec fn spec_is_done(r: RequestView) -> bool {
    ||| r.output_tokens.len() >= r.params.max_new_tokens
    ||| (r.output_tokens.len() > 0 && r.params.stop_tokens.contains(r.output_tokens.last()))
}

impl Request {
    /// A waiting request with nothing generated, no blocks and nothing prefilled.
    pub fn new(id: RequestId, prompt_tokens: Vec<u32>, params: SamplingParams) -> (r: Self)
        ensures
            r@ == (RequestView {
                id,
                prompt_tokens: prompt_tokens@,
                output_tokens: Seq::empty(),
                params: params@,
                status: RequestStatus::Waiting,
                block_table: Seq::empty(),
                prefill_cursor: 0,
            }),
    {
        Request {
            id,
            prompt_tokens,
            output_tokens: Vec::new(),
            params,
            status: RequestStatus::Waiting,
            block_table: Vec::new(),
            prefill_cursor: 0,
        }
    }

    /// Total tokens (prompt + generated so far).
    pub fn total_len(&self) -> (n: usize)
        requires
            self.prompt_tokens@.len() + self.output_tokens@.len() <= usize::MAX,
        ensures
            n == self.prompt_tokens@.len() + self.output_tokens@.len(),
    {
        self.prompt_tokens.len() + self.output_tokens.len()
    }

    /// Whether this request has hit its stop condition.
    pub fn is_done(&self) -> (b: bool)
        ensures
            b == spec_is_done(self@),
    {
        if self.output_tokens.len() >= self.params.max_new_tokens as usize {
            return true;
        }
        if self.output_tokens.len() > 0 {
            let last = self.output_tokens[self.output_tokens.len() - 1];
            let mut i: usize = 0;
            while i < self.params.stop_tokens.len()
                invariant
                    i <= self.params.stop_tokens@.len(),
                    self.output_tokens@.len() > 0,
                    last == self.output_tokens@.last(),
                    forall|j: int| 0 <= j < i ==> self.params.stop_tokens@[j] != last,
                decreases self.params.stop_tokens@.len() - i,
            {
                if self.params.stop_tokens[i] == last {
                    proof {
                        assert(self.params.stop_tokens@[i as int] == last);
                    }
                    return true;
                }
                i = i + 1;
            }
        }
        false
    }
}

// ── BatchView ────────────────────────────────────────────────────────────────

/// Snapshot of the current batch handed to the engine for one forward step.
pub struct BatchView {
    pub prefill_seqs: Vec<PrefillSeq>,
    pub decode_seqs: Vec<DecodeSeq>,
}

pub struct PrefillSeq {
    pub req_id: RequestId,
    /// The chunk of prompt tokens to prefill.
    pub tokens: Vec<u32>,
    pub block_table: Vec<u32>,
}

pub struct DecodeSeq {
    pub req_id: RequestId,
    pub last_token: u32,
    pub block_table: Vec<u32>,
}

/// Flat descriptor of one sequence for the forward pass: the two pointer
/// fields hold the addresses of the token and block buffers that
/// `build_seq_descriptors` returns alongside.
pub struct SeqDescriptorStub {
    pub seq_id: u64,
    pub token_ptr: usize,
    pub num_tokens: u32,
    pub block_ptr: usize,
    pub num_blocks: u32,
    pub is_prefill: u8,
}

/// Sum of the prompt-chunk lengths of the first `i` prefill sequences.
pub open spec fn prefill_tokens(s: Seq<PrefillSeq>, i: int) -> int
    decreases i,
{
    if i <= 0 || i > s.len() {
        0
    } else {
        prefill_tokens(s, i - 1) + s[i - 1].tokens@.len()
    }
}

/// Descriptor `k` and its buffers describe prefill sequence `k`.
pub open spec fn prefill_desc_ok(descs: Seq<SeqDescriptorStub>, toks: Seq<Vec<u32>>, blks: Seq<Vec<u32>>, seqs: Seq<PrefillSeq>, k: int) -> bool {
    let d = descs[k];
    let p = seqs[k];
    &&& d.seq_id == p.req_id
    &&& toks[k]@ == p.tokens@
    &&& blks[k]@ == p.block_table@
    &&& d.num_tokens == #[verifier::truncate] (p.tokens@.len() as u32)
    &&& d.num_blocks == #[verifier::truncate] (p.block_table@.len() as u32)
    &&& d.is_prefill == 1
}

/// `Vec::as_ptr`, as an integer: the address of a vector's buffer, handed
/// to the forward pass. The address comes from the allocator, so nothing
/// is stated of it.
#[verifier::external_body]
fn buffer_address(v: &Vec<u32>) -> usize {
    v.as_ptr() as usize
}

/// The width of each row when `logits_len` values are split into
/// `num_seqs` rows of equal width; none when they do not split evenly.
pub fn logit_row_width(logits_len: usize, num_seqs: usize) -> (r: Option<usize>)
    requires
        num_seqs > 0,
    ensures
        match r {
            Some(w) => w * num_seqs == logits_len,
            None => logits_len % num_seqs != 0,
        },
{
    let w = logits_len / num_seqs;
    if logits_len % num_seqs != 0 {
        return None;
    }
    proof {
        assert(w * num_seqs == logits_len) by (nonlinear_arith)
            requires
                w == logits_len / num_seqs,
                logits_len % num_seqs == 0,
                num_seqs > 0,
        ;
    }
    Some(w)
}

impl BatchView {
    pub fn is_empty(&self) -> (b: bool)
        ensures
            b == (self.prefill_seqs@.len() == 0 && self.decode_seqs@.len() == 0),
    {
        self.prefill_seqs.len() == 0 && self.decode_seqs.len() == 0
    }

    pub fn num_seqs(&self) -> (n: usize)
        requires
            self.prefill_seqs@.len() + self.decode_seqs@.len() <= usize::MAX,
        ensures
            n == self.prefill_seqs@.len() + self.decode_seqs@.len(),
    {
        self.prefill_seqs.len() + self.decode_seqs.len()
    }

    /// What the sampler reads for each sequence, in the order of the rows
    /// of the forward pass: prefill sequences with their chunk, then decode
    /// sequences with their last token.
    pub fn sampling_inputs(&self) -> (r: Vec<(RequestId, Vec<u32>)>)
        ensures
            r@.len() == self.prefill_seqs@.len() + self.decode_seqs@.len(),
            forall|i: int| 0 <= i < self.prefill_seqs@.len() ==> (#[trigger] r@[i]).0 == self.prefill_seqs@[i].req_id
                && r@[i].1@ == self.prefill_seqs@[i].tokens@,
            forall|j: int| 0 <= j < self.decode_seqs@.len() ==> (#[trigger] r@[self.prefill_seqs@.len() + j]).0 == self.decode_seqs@[j].req_id
                && r@[self.prefill_seqs@.len() + j].1@ == seq![self.decode_seqs@[j].last_token],
    {
        let mut r: Vec<(RequestId, Vec<u32>)> = Vec::new();
        let np = self.prefill_seqs.len();
        let mut i: usize = 0;
        while i < np
            invariant
                np == self.prefill_seqs@.len(),
                i <= np,
                r@.len() == i,
                forall|a: int| 0 <= a < i ==> (#[trigger] r@[a]).0 == self.prefill_seqs@[a].req_id
                    && r@[a].1@ == self.prefill_seqs@[a].tokens@,
            decreases np - i,
        {
            let p = &self.prefill_seqs[i];
            r.push((p.req_id, copy_all(&p.tokens)));
            i = i + 1;
        }
        let mut j: usize = 0;
        while j < self.decode_seqs.len()
            invariant
                np == self.prefill_seqs@.len(),
                j <= self.decode_seqs@.len(),
                r@.len() == np + j,
                forall|a: int| 0 <= a < np ==> (#[trigger] r@[a]).0 == self.prefill_seqs@[a].req_id
                    && r@[a].1@ == self.prefill_seqs@[a].tokens@,
                forall|c: int| 0 <= c < j ==> (#[trigger] r@[np + c]).0 == self.decode_seqs@[c].req_id
                    && r@[np + c].1@ == seq![self.decode_seqs@[c].last_token],
            decreases self.decode_seqs@.len() - j,
        {
            let d = &self.decode_seqs[j];
            let v = vec![d.last_token];
            let ghost old_r = r@;
            r.push((d.req_id, v));
            proof {
                assert forall|c: int| 0 <= c < j + 1 implies (#[trigger] r@[np + c]).0 == self.decode_seqs@[c].req_id
                    && r@[np + c].1@ == seq![self.decode_seqs@[c].last_token] by {
                    if c < j {
                        assert(r@[np + c] == old_r[np + c]);
                    }
                }
            }
            j = j + 1;
        }
        r
    }

    /// Prompt-chunk tokens of the prefill sequences plus one token per
    /// decode sequence.
    pub fn total_tokens(&self) -> (n: usize)
        requires
            prefill_tokens(self.prefill_seqs@, self.prefill_seqs@.len() as int) + self.decode_seqs@.len() <= usize::MAX,
        ensures
            n == prefill_tokens(self.prefill_seqs@, self.prefill_seqs@.len() as int) + self.decode_seqs@.len(),
    {
        let mut pf: usize = 0;
        let mut i: usize = 0;
        while i < self.prefill_seqs.len()
            invariant
                i <= self.prefill_seqs@.len(),
                pf == prefill_tokens(self.prefill_seqs@, i as int),
                prefill_tokens(self.prefill_seqs@, self.prefill_seqs@.len() as int) + self.decode_seqs@.len() <= usize::MAX,
            decreases self.prefill_seqs@.len() - i,
        {
            proof {
                lemma_prefill_tokens_mono(self.prefill_seqs@, i + 1, self.prefill_seqs@.len() as int);
            }
            pf = pf + self.prefill_seqs[i].tokens.len();
            i = i + 1;
        }
        pf + self.decode_seqs.len()
    }

    /// Flat descriptors for the forward pass, prefill sequences first, with
    /// the token and block buffers they point into (which must outlive the
    /// kernel call).  Decode sequences pass their last token as a one-token
    /// buffer.
    pub fn build_seq_descriptors(&self) -> (r: (Vec<SeqDescriptorStub>, Vec<Vec<u32>>, Vec<Vec<u32>>))
        ensures
            r.0@.len() == self.prefill_seqs@.len() + self.decode_seqs@.len(),
            r.1@.len() == r.0@.len(),
            r.2@.len() == r.0@.len(),
            forall|i: int| 0 <= i < self.prefill_seqs@.len() ==> #[trigger] prefill_desc_ok(r.0@, r.1@, r.2@, self.prefill_seqs@, i),
            forall|i: int| 0 <= i < self.decode_seqs@.len() ==> {
                let k = self.prefill_seqs@.len() + i;
                let d = r.0@[k];
                let s = #[trigger] self.decode_seqs@[i];
                &&& d.seq_id == s.req_id
                &&& r.1@[k]@ == seq![s.last_token]
                &&& r.2@[k]@ == s.block_table@
                &&& d.num_tokens == 1
                &&& d.num_blocks == s.block_table@.len() as u32
                &&& d.is_prefill == 0
            },
    {
        let mut descs: Vec<SeqDescriptorStub> = Vec::new();
        let mut tok_storage: Vec<Vec<u32>> = Vec::new();
        let mut blk_storage: Vec<Vec<u32>> = Vec::new();
        let np = self.prefill_seqs.len();
        let mut i: usize = 0;
        while i < np
            invariant
                np == self.prefill_seqs@.len(),
                i <= np,
                descs@.len() == i,
                tok_storage@.len() == i,
                blk_storage@.len() == i,
                forall|j: int| 0 <= j < i ==> #[trigger] prefill_desc_ok(descs@, tok_storage@, blk_storage@, self.prefill_seqs@, j),
            decreases np - i,
        {
            let ghost old_d = descs@;
            let ghost old_t = tok_storage@;
            let ghost old_b = blk_storage@;
            let pf = &self.prefill_seqs[i];
            let t = copy_all(&pf.tokens);
            let b = copy_all(&pf.block_table);
            let num_tokens = t.len() as u32;
            let num_blocks = b.len() as u32;
            tok_storage.push(t);
            blk_storage.push(b);
            let token_ptr = buffer_address(&tok_storage[i]);
            let block_ptr = buffer_address(&blk_storage[i]);
            descs.push(SeqDescriptorStub { seq_id: pf.req_id, token_ptr, num_tokens, block_ptr, num_blocks, is_prefill: 1 });
            proof {
                assert forall|q: int| 0 <= q < i + 1 implies #[trigger] prefill_desc_ok(descs@, tok_storage@, blk_storage@, self.prefill_seqs@, q) by {
                    if q < i {
                        assert(prefill_desc_ok(old_d, old_t, old_b, self.prefill_seqs@, q));
                    }
                }
            }
            i = i + 1;
        }
        proof {
            assert(i == np);
        }
        let nd = self.decode_seqs.len();
        let mut j: usize = 0;
        while j < nd
            invariant
                np == self.prefill_seqs@.len(),
                nd == self.decode_seqs@.len(),
                j <= nd,
                descs@.len() == np + j,
                tok_storage@.len() == np + j,
                blk_storage@.len() == np + j,
                forall|k: int| 0 <= k < np ==> #[trigger] prefill_desc_ok(descs@, tok_storage@, blk_storage@, self.prefill_seqs@, k),
                forall|q: int| 0 <= q < j ==> {
                    let k = np + q;
                    let d = descs@[k];
                    let s = #[trigger] self.decode_seqs@[q];
                    &&& d.seq_id == s.req_id
                    &&& tok_storage@[k]@ == seq![s.last_token]
                    &&& blk_storage@[k]@ == s.block_table@
                    &&& d.num_tokens == 1
                    &&& d.num_blocks == s.block_table@.len() as u32
                    &&& d.is_prefill == 0
                },
            decreases nd - j,
        {
            let ghost old_d = descs@;
            let ghost old_t = tok_storage@;
            let ghost old_b = blk_storage@;
            let dc = &self.decode_seqs[j];
            let mut t: Vec<u32> = Vec::new();
            t.push(dc.last_token);
            let b = copy_all(&dc.block_table);
            let num_blocks = b.len() as u32;
            tok_storage.push(t);
            blk_storage.push(b);
            let last_idx = tok_storage.len() - 1;
            let token_ptr = buffer_address(&tok_storage[last_idx]);
            let block_ptr = buffer_address(&blk_storage[last_idx]);
            descs.push(SeqDescriptorStub { seq_id: dc.req_id, token_ptr, num_tokens: 1, block_ptr, num_blocks, is_prefill: 0 });
            proof {
                assert(descs@[np + j as int].seq_id == dc.req_id);
                assert forall|q: int| 0 <= q < np implies #[trigger] prefill_desc_ok(descs@, tok_storage@, blk_storage@, self.prefill_seqs@, q) by {
                    assert(prefill_desc_ok(old_d, old_t, old_b, self.prefill_seqs@, q));
                }
            }
            j = j + 1;
        }
        (descs, tok_storage, blk_storage)
    }
}

proof fn lemma_prefill_tokens_mono(s: Seq<PrefillSeq>, i: int, j: int)
    requires
        0 <= i <= j <= s.len(),
    ensures
        prefill_tokens(s, i) <= prefill_tokens(s, j),
    decreases j - i,
{
    if i < j {
        lemma_prefill_tokens_mono(s, i, j - 1);
    }
}

proof fn lemma_prefill_tokens_push(s: Seq<PrefillSeq>, x: PrefillSeq, i: int)
    requires
        0 <= i <= s.len(),
    ensures
        prefill_tokens(s.push(x), i) == prefill_tokens(s, i),
    decreases i,
{
    if i > 0 {
        lemma_prefill_tokens_push(s, x, i - 1);
    }
}

proof fn lemma_prefill_tokens_take(s: Seq<PrefillSeq>, i: int)
    requires
        0 <= i <= s.len(),
    ensures
        prefill_tokens(s.take(i), i) == prefill_tokens(s, i),
    decreases i,
{
    if i > 0 {
        lemma_prefill_tokens_take(s, i - 1);
        lemma_prefill_tokens_push(s.take(i - 1), s[i - 1], i - 1);
        assert(s.take(i) =~= s.take(i - 1).push(s[i - 1]));
    }
}

// ── Scheduler ────────────────────────────────────────────────────────────────

/// Scheduling policy.
#[derive(Debug, Clone, Copy, PartialEq, Eq, Structural)]
pub enum Policy {
    /// First-come-first-served (default).
    Fcfs,
    /// Longest-prefix-match first.
    Lpm,
}

/// Prompt tokens of `r` not yet prefilled.
pub open spec fn unprefilled(r: RequestView) -> int {
    if r.prompt_tokens.len() > r.prefill_cursor { r.prompt_tokens.len() - r.prefill_cursor } else { 0 }
}

/// The prompt chunk `r` gets with `budget` tokens left in the batch.
pub open spec fn chunk_len(r: RequestView, budget: int) -> int {
    let a = unprefilled(r);
    let b = if a < budget { a } else { budget };
    if b < MAX_PREFILL_CHUNK { b } else { MAX_PREFILL_CHUNK as int }
}

/// The prompt chunks handed out when promoting from the front of `waiting`
/// with `slots` free running slots and `budget` batch tokens: one chunk per
/// promoted request, in queue order.  Promotion stops when no slot is free,
/// the queue is empty, or the next request would get an empty chunk.
pub open spec fn promotion_chunks(waiting: Seq<RequestView>, slots: int, budget: int) -> Seq<int>
    decreases waiting.len(),
{
    if slots <= 0 || waiting.len() == 0 {
        Seq::empty()
    } else {
        let c = chunk_len(waiting[0], budget);
        if c == 0 {
            Seq::empty()
        } else {
            seq![c] + promotion_chunks(waiting.drop_first(), slots - 1, budget - c)
        }
    }
}

/// `r` after a prompt chunk of `c` tokens: decoding once its whole prompt
/// is prefilled.
pub open spec fn after_prefill(r: RequestView, c: int) -> RequestView {
    RequestView {
        prefill_cursor: (r.prefill_cursor + c) as usize,
        status: if r.prefill_cursor + c >= r.prompt_tokens.len() { RequestStatus::Decoding } else { RequestStatus::Prefilling },
        ..r
    }
}

/// The running set after the first `chunks.len()` waiting requests were
/// promoted with those chunks.
pub open spec fn promote_all(running: Map<RequestId, RequestView>, waiting: Seq<RequestView>, chunks: Seq<int>) -> Map<RequestId, RequestView>
    decreases chunks.len(),
{
    if chunks.len() == 0 || chunks.len() > waiting.len() {
        running
    } else {
        let k = chunks.len() - 1;
        promote_all(running, waiting, chunks.drop_last()).insert(waiting[k].id, after_prefill(waiting[k], chunks[k]))
    }
}

/// The running set after the requests in `cm` got the next chunk of their
/// prompt, of `cm[k]` tokens.
pub open spec fn continue_map(m: Map<RequestId, RequestView>, cm: Map<RequestId, int>) -> Map<RequestId, RequestView> {
    Map::new(
        |k: RequestId| m.contains_key(k),
        |k: RequestId| if cm.contains_key(k) { after_prefill(m[k], cm[k]) } else { m[k] },
    )
}

/// How the running requests `m` were served from a batch budget of `budget`
/// tokens: `dc` decodes each listed request once, one token each; `pf`
/// prefills, for each request `k` of `cm`, the next `cm[k]` prompt tokens,
/// at most a full chunk.  A request that is decoding and was not decoded,
/// one still prefilling that got nothing, and one that got less than a full
/// chunk are left over only because the budget ran out.
pub open spec fn serves_running(
    m: Map<RequestId, RequestView>,
    budget: int,
    pf: Seq<PrefillSeq>,
    dc: Seq<DecodeSeq>,
    cm: Map<RequestId, int>,
) -> bool {
    let used = prefill_tokens(pf, pf.len() as int) + dc.len();
    &&& used <= budget
    &&& forall|i: int| 0 <= i < dc.len() ==> #[trigger] decode_matches(dc[i], m)
    &&& forall|i: int, j: int| 0 <= i < j < dc.len() ==> (#[trigger] dc[i]).req_id != (#[trigger] dc[j]).req_id
    &&& forall|k: RequestId| #[trigger] cm.contains_key(k) ==> m.contains_key(k) && m[k].status == RequestStatus::Prefilling
        && 1 <= cm[k] <= chunk_len(m[k], MAX_PREFILL_CHUNK as int)
        && exists|i: int| 0 <= i < pf.len() && pf[i].req_id == k
    &&& forall|i: int| 0 <= i < pf.len() ==> cm.contains_key((#[trigger] pf[i]).req_id)
        && prefill_matches(pf[i], m[pf[i].req_id], cm[pf[i].req_id])
    &&& forall|i: int, j: int| 0 <= i < j < pf.len() ==> (#[trigger] pf[i]).req_id != (#[trigger] pf[j]).req_id
    &&& forall|k: RequestId| #[trigger] m.contains_key(k) && m[k].status == RequestStatus::Decoding
        && !(exists|i: int| 0 <= i < dc.len() && dc[i].req_id == k) ==> used == budget
    &&& forall|k: RequestId| #[trigger] m.contains_key(k) && m[k].status == RequestStatus::Prefilling
        && unprefilled(m[k]) > 0 && !cm.contains_key(k) ==> used == budget
    &&& forall|k: RequestId| #[trigger] cm.contains_key(k) && cm[k] < chunk_len(m[k], MAX_PREFILL_CHUNK as int) ==> used == budget
}

/// What one call of `schedule_batch` did, going from `s0` to `s1` and
/// handing out `b`: the first `nc` prefill sequences and the decode
/// sequences serve the requests that were running (the chunks given in
/// `cm`); the budget left then promotes waiting requests from the front of
/// the queue, whose chunks follow.
pub open spec fn schedule_outcome(s0: Scheduler, s1: Scheduler, b: BatchView, nc: int, cm: Map<RequestId, int>) -> bool {
    let r0 = s0.running_map();
    let w0 = s0.waiting_seq();
    let budget = s0.limits().1 as int;
    let pf = b.prefill_seqs@;
    let dc = b.decode_seqs@;
    let used = prefill_tokens(pf.take(nc), nc) + dc.len();
    let chunks = promotion_chunks(w0, s0.limits().2 - r0.len(), budget - used);
    &&& 0 <= nc <= pf.len()
    &&& serves_running(r0, budget, pf.take(nc), dc, cm)
    &&& pf.len() == nc + chunks.len()
    &&& forall|i: int| 0 <= i < chunks.len() ==> #[trigger] prefill_matches(pf[nc + i], w0[i], chunks[i])
    &&& s1.waiting_seq() == w0.skip(chunks.len() as int)
    &&& s1.running_map() == promote_all(continue_map(r0, cm), w0, chunks)
    &&& prefill_tokens(pf, pf.len() as int) + dc.len() <= budget
}

/// Sum of a sequence of integers.
pub open spec fn sum_ints(s: Seq<int>) -> int
    decreases s.len(),
{
    if s.len() == 0 { 0 } else { sum_ints(s.drop_last()) + s.last() }
}

/// The token a decoding request feeds next: its last generated token, else
/// the last prompt token, else 0.
pub open spec fn last_token_of(r: RequestView) -> u32 {
    if r.output_tokens.len() > 0 {
        r.output_tokens.last()
    } else if r.prompt_tokens.len() > 0 {
        r.prompt_tokens.last()
    } else {
        0
    }
}

/// `r` after the sampled token `t` was appended: finished once it hits its
/// stop condition.
pub open spec fn add_token(r: RequestView, t: u32) -> RequestView {
    let r2 = RequestView { output_tokens: r.output_tokens.push(t), ..r };
    if spec_is_done(r2) { RequestView { status: RequestStatus::Finished, ..r2 } } else { r2 }
}

/// The running set after the sampled tokens were appended in order (tokens
/// for requests that are not running are ignored).
pub open spec fn apply_tokens(m: Map<RequestId, RequestView>, toks: Seq<(RequestId, u32)>) -> Map<RequestId, RequestView>
    decreases toks.len(),
{
    if toks.len() == 0 {
        m
    } else {
        let prev = apply_tokens(m, toks.drop_last());
        let id = toks.last().0;
        if prev.contains_key(id) { prev.insert(id, add_token(prev[id], toks.last().1)) } else { prev }
    }
}

/// The requests of `m` that are not finished.
pub open spec fn unfinished(m: Map<RequestId, RequestView>) -> Map<RequestId, RequestView> {
    m.restrict(m.dom().filter(|k: RequestId| m[k].status != RequestStatus::Finished))
}

/// Prefill sequence `p` is the chunk of `c` prompt tokens of `r` that starts
/// at its prefill cursor.
pub open spec fn prefill_matches(p: PrefillSeq, r: RequestView, c: int) -> bool {
    &&& p.req_id == r.id
    &&& p.tokens@ == r.prompt_tokens.subrange(r.prefill_cursor as int, r.prefill_cursor + c)
    &&& p.block_table@ == r.block_table
}

/// Decode sequence `d` stands for a decoding request of `m`.
pub open spec fn decode_matches(d: DecodeSeq, m: Map<RequestId, RequestView>) -> bool {
    &&& m.contains_key(d.req_id)
    &&& m[d.req_id].status == RequestStatus::Decoding
    &&& d.last_token == last_token_of(m[d.req_id])
    &&& d.block_table@ == m[d.req_id].block_table
}

/// Request `k` is finished and sits among the first `i` keys.
pub open spec fn retired(m: Map<RequestId, RequestView>, keys: Seq<RequestId>, i: int, k: RequestId) -> bool {
    exists|j: int| 0 <= j < i && keys[j] == k && m[k].status == RequestStatus::Finished
}

/// The requests of `m` not yet retired after the first `i` keys.
pub open spec fn not_retired(m: Map<RequestId, RequestView>, keys: Seq<RequestId>, i: int) -> Map<RequestId, RequestView> {
    m.restrict(m.dom().filter(|k: RequestId| !retired(m, keys, i, k)))
}

proof fn lemma_retired_step(m: Map<RequestId, RequestView>, keys: Seq<RequestId>, i: int, k: RequestId)
    requires
        0 <= i < keys.len(),
    ensures
        retired(m, keys, i + 1, k) == (retired(m, keys, i, k) || (keys[i] == k && m[k].status == RequestStatus::Finished)),
{
    if retired(m, keys, i + 1, k) {
        let j = choose|j: int| 0 <= j < i + 1 && keys[j] == k && m[k].status == RequestStatus::Finished;
        if j < i {
            assert(retired(m, keys, i, k));
        }
    }
    if retired(m, keys, i, k) {
        let j = choose|j: int| 0 <= j < i && keys[j] == k && m[k].status == RequestStatus::Finished;
        assert(0 <= j < i + 1 && keys[j] == k && m[k].status == RequestStatus::Finished);
    }
    if keys[i] == k && m[k].status == RequestStatus::Finished {
        assert(0 <= i < i + 1 && keys[i] == k && m[k].status == RequestStatus::Finished);
    }
}

pub struct Scheduler {
    max_seq_len: usize,
    max_batch_tokens: usize,
    max_running_seqs: usize,
    waiting: VecDeque<Request>,
    running: FxHashMap<RequestId, Request>,
    finished: Vec<(RequestId, Vec<u32>)>,
    next_id: RequestId,
    policy: Policy,
}

impl Scheduler {
    /// Waiting requests, front first.
    pub closed spec fn waiting_seq(&self) -> Seq<RequestView> {
        self.waiting@.map_values(|r: Request| r@)
    }

    /// Running requests by id.
    pub closed spec fn running_map(&self) -> Map<RequestId, RequestView> {
        self.running@.map_values(|r: Request| r@)
    }

    /// Finished (id, output tokens) pairs not yet drained, oldest first.
    pub closed spec fn finished_seq(&self) -> Seq<(RequestId, Seq<u32>)> {
        self.finished@.map_values(|p: (RequestId, Vec<u32>)| (p.0, p.1@))
    }

    /// The id the next request will get.
    pub closed spec fn next_request_id(&self) -> RequestId {
        self.next_id
    }

    /// (max sequence length, max batch tokens, max running sequences).
    pub closed spec fn limits(&self) -> (usize, usize, usize) {
        (self.max_seq_len, self.max_batch_tokens, self.max_running_seqs)
    }

    pub closed spec fn current_policy(&self) -> Policy {
        self.policy
    }

    /// Request ids are unique: waiting ids are pairwise different, none is
    /// running, every running request is filed under its id, and all ids are
    /// below the next id.
    pub closed spec fn wf(&self) -> bool {
        let w = self.waiting@;
        let r = self.running@;
        &&& r.dom().finite()
        &&& forall|k: RequestId| #[trigger] r.contains_key(k) ==> r[k].id == k && k < self.next_id
        &&& forall|i: int| 0 <= i < w.len() ==> (#[trigger] w[i]).id < self.next_id && !r.contains_key(w[i].id)
        &&& forall|i: int, j: int| 0 <= i < j < w.len() ==> (#[trigger] w[i]).id != (#[trigger] w[j]).id
    }

    pub fn new(max_seq_len: usize, max_batch_tokens: usize, max_running_seqs: usize) -> (s: Self)
        ensures
            s.wf(),
            s.limits() == (max_seq_len, max_batch_tokens, max_running_seqs),
            s.waiting_seq().len() == 0,
            s.running_map() == Map::<RequestId, RequestView>::empty(),
            s.finished_seq().len() == 0,
            s.next_request_id() == 1,
            s.current_policy() == Policy::Fcfs,
    {
        let s = Scheduler {
            max_seq_len,
            max_batch_tokens,
            max_running_seqs,
            waiting: VecDeque::new(),
            running: fx_new_u64(),
            finished: Vec::new(),
            next_id: 1,
            policy: Policy::Fcfs,
        };
        proof {
            assert(s.running_map() =~= Map::<RequestId, RequestView>::empty());
        }
        s
    }

    pub fn set_policy(&mut self, p: Policy)
        ensures
            final(self).current_policy() == p,
            final(self).waiting_seq() == old(self).waiting_seq(),
            final(self).running_map() == old(self).running_map(),
            final(self).finished_seq() == old(self).finished_seq(),
            final(self).next_request_id() == old(self).next_request_id(),
            final(self).limits() == old(self).limits(),
            old(self).wf() ==> final(self).wf(),
    {
        self.policy = p;
    }

    /// Enqueue a new request; returns its id.
    pub fn add_request(&mut self, prompt_tokens: Vec<u32>, params: SamplingParams) -> (id: RequestId)
        requires
            old(self).wf(),
            old(self).next_request_id() < u64::MAX,
        ensures
            final(self).wf(),
            id == old(self).next_request_id(),
            final(self).next_request_id() == id + 1,
            final(self).waiting_seq() == old(self).waiting_seq().push(RequestView {
                id,
                prompt_tokens: prompt_tokens@,
                output_tokens: Seq::empty(),
                params: params@,
                status: RequestStatus::Waiting,
                block_table: Seq::empty(),
                prefill_cursor: 0,
            }),
            final(self).running_map() == old(self).running_map(),
            final(self).finished_seq() == old(self).finished_seq(),
            final(self).limits() == old(self).limits(),
            final(self).current_policy() == old(self).current_policy(),
    {
        let id = self.next_id;
        self.next_id = self.next_id + 1;
        let ghost old_w = self.waiting@;
        self.waiting.push_back(Request::new(id, prompt_tokens, params));
        proof {
            assert(self.waiting_seq() =~= old(self).waiting_seq().push(self.waiting@.last()@));
            let w = self.waiting@;
            assert forall|i: int, j: int| 0 <= i < j < w.len() implies (#[trigger] w[i]).id != (#[trigger] w[j]).id by {
                if j < w.len() - 1 {
                    assert(w[i] == old_w[i] && w[j] == old_w[j]);
                } else {
                    assert(w[i] == old_w[i]);
                }
            }
            assert forall|i: int| 0 <= i < w.len() implies (#[trigger] w[i]).id < self.next_id && !self.running@.contains_key(w[i].id) by {
                if i < w.len() - 1 {
                    assert(w[i] == old_w[i]);
                }
            }
        }
        id
    }

    /// Drain all completed (id, output tokens) pairs.
    pub fn drain_finished(&mut self) -> (r: Vec<(RequestId, Vec<u32>)>)
        ensures
            r@.map_values(|p: (RequestId, Vec<u32>)| (p.0, p.1@)) == old(self).finished_seq(),
            final(self).finished_seq().len() == 0,
            final(self).waiting_seq() == old(self).waiting_seq(),
            final(self).running_map() == old(self).running_map(),
            final(self).next_request_id() == old(self).next_request_id(),
            final(self).limits() == old(self).limits(),
            final(self).current_policy() == old(self).current_policy(),
            old(self).wf() ==> final(self).wf(),
    {
        let mut out: Vec<(RequestId, Vec<u32>)> = Vec::new();
        std::mem::swap(&mut out, &mut self.finished);
        proof {
            assert(self.finished_seq() =~= Seq::<(RequestId, Seq<u32>)>::empty());
        }
        out
    }

    /// Put finished outputs back, after those not yet drained, for their
    /// waiters to pick up.
    pub fn return_finished(&mut self, items: Vec<(RequestId, Vec<u32>)>)
        ensures
            final(self).finished_seq() == old(self).finished_seq() + items@.map_values(|p: (RequestId, Vec<u32>)| (p.0, p.1@)),
            final(self).waiting_seq() == old(self).waiting_seq(),
            final(self).running_map() == old(self).running_map(),
            final(self).next_request_id() == old(self).next_request_id(),
            final(self).limits() == old(self).limits(),
            final(self).current_policy() == old(self).current_policy(),
            old(self).wf() ==> final(self).wf(),
    {
        let mut rest = items;
        self.finished.append(&mut rest);
        proof {
            assert(self.finished_seq() =~= old(self).finished_seq() + items@.map_values(|p: (RequestId, Vec<u32>)| (p.0, p.1@)));
        }
    }

    /// Serve the running requests from the batch budget, in the running
    /// table's own order: a decoding request gets a decode step of one
    /// token, a request still prefilling the next chunk of its prompt (at
    /// most a full chunk and what is left of the budget).
    fn serve_running(&mut self) -> (r: (Vec<PrefillSeq>, Vec<DecodeSeq>, usize, Ghost<Map<RequestId, int>>))
        requires
            old(self).wf(),
        ensures
            final(self).wf(),
            final(self).running@.dom() == old(self).running@.dom(),
            final(self).running_map() == continue_map(old(self).running_map(), r.3@),
            serves_running(old(self).running_map(), old(self).max_batch_tokens as int, r.0@, r.1@, r.3@),
            r.2 == old(self).max_batch_tokens - (prefill_tokens(r.0@, r.0@.len() as int) + r.1@.len()),
            final(self).waiting == old(self).waiting,
            final(self).finished == old(self).finished,
            final(self).next_id == old(self).next_id,
            final(self).max_seq_len == old(self).max_seq_len,
            final(self).max_batch_tokens == old(self).max_batch_tokens,
            final(self).max_running_seqs == old(self).max_running_seqs,
            final(self).policy == old(self).policy,
    {
        let keys = fx_keys_u64(&self.running);
        let ghost m = self.running_map();
        let ghost budget0 = self.max_batch_tokens as int;
        let mut pf: Vec<PrefillSeq> = Vec::new();
        let mut dc: Vec<DecodeSeq> = Vec::new();
        let mut budget: usize = self.max_batch_tokens;
        let ghost mut cm: Map<RequestId, int> = Map::empty();
        let ghost mut ppos: Seq<int> = Seq::empty();
        let ghost mut dpos: Seq<int> = Seq::empty();
        proof {
            assert(m.dom() =~= self.running@.dom());
            assert(self.running_map() =~= continue_map(m, cm));
        }
        let mut i: usize = 0;
        while i < keys.len()
            invariant
                self.wf(),
                self.running@.dom() == old(self).running@.dom(),
                self.waiting == old(self).waiting,
                self.finished == old(self).finished,
                self.next_id == old(self).next_id,
                self.max_seq_len == old(self).max_seq_len,
                self.max_batch_tokens == old(self).max_batch_tokens,
                self.max_running_seqs == old(self).max_running_seqs,
                self.policy == old(self).policy,
                m == old(self).running_map(),
                m.dom() == old(self).running@.dom(),
                self.running_map() == continue_map(m, cm),
                keys@.no_duplicates(),
                keys@.to_set() == m.dom(),
                i <= keys@.len(),
                budget0 == self.max_batch_tokens,
                budget == budget0 - (prefill_tokens(pf@, pf@.len() as int) + dc@.len()),
                dc@.len() == dpos.len(),
                forall|a: int| 0 <= a < dpos.len() ==> 0 <= #[trigger] dpos[a] < i && dc@[a].req_id == keys@[dpos[a]],
                forall|a: int| 0 <= a < dc@.len() ==> #[trigger] decode_matches(dc@[a], m),
                forall|a: int, c: int| 0 <= a < c < dpos.len() ==> #[trigger] dpos[a] < #[trigger] dpos[c],
                pf@.len() == ppos.len(),
                forall|a: int| 0 <= a < ppos.len() ==> 0 <= #[trigger] ppos[a] < i && pf@[a].req_id == keys@[ppos[a]],
                forall|a: int, c: int| 0 <= a < c < ppos.len() ==> #[trigger] ppos[a] < #[trigger] ppos[c],
                forall|a: int| 0 <= a < pf@.len() ==> cm.contains_key((#[trigger] pf@[a]).req_id)
                    && prefill_matches(pf@[a], m[pf@[a].req_id], cm[pf@[a].req_id]),
                forall|k: RequestId| #[trigger] cm.contains_key(k) ==> m.contains_key(k) && m[k].status == RequestStatus::Prefilling
                    && 1 <= cm[k] <= chunk_len(m[k], MAX_PREFILL_CHUNK as int)
                    && (exists|a: int| 0 <= a < pf@.len() && pf@[a].req_id == k)
                    && (exists|j: int| 0 <= j < i && keys@[j] == k),
                forall|k: RequestId| #[trigger] cm.contains_key(k) && cm[k] < chunk_len(m[k], MAX_PREFILL_CHUNK as int) ==> budget == 0,
                forall|j: int| 0 <= j < i && m[#[trigger] keys@[j]].status == RequestStatus::Decoding
                    ==> budget == 0 || exists|a: int| 0 <= a < dpos.len() && dpos[a] == j,
                forall|j: int| 0 <= j < i && m[#[trigger] keys@[j]].status == RequestStatus::Prefilling && unprefilled(m[keys@[j]]) > 0
                    ==> budget == 0 || cm.contains_key(keys@[j]),
            decreases keys@.len() - i,
        {
            let key = keys[i];
            proof {
                assert(keys@.to_set().contains(key));
                if cm.contains_key(key) {
                    let j = choose|j: int| 0 <= j < i && keys@[j] == key;
                    assert(keys@[j] == keys@[i as int]);
                }
            }
            let req = fx_get_u64(&self.running, key).unwrap();
            let status = req.status;
            let avail = req.prompt_tokens.len().saturating_sub(req.prefill_cursor);
            proof {
                assert(self.running@.contains_key(key));
                assert(self.running_map()[key] == self.running@[key]@);
                assert(!cm.contains_key(key));
                assert(continue_map(m, cm)[key] == m[key]);
                assert(req@ == m[key]);
            }
            if status == RequestStatus::Decoding {
                if budget > 0 {
                    let last_token = if req.output_tokens.len() > 0 {
                        req.output_tokens[req.output_tokens.len() - 1]
                    } else if req.prompt_tokens.len() > 0 {
                        req.prompt_tokens[req.prompt_tokens.len() - 1]
                    } else {
                        0
                    };
                    let block_table = copy_all(&req.block_table);
                    let ghost old_dc = dc@;
                    let ghost old_pos = dpos;
                    dc.push(DecodeSeq { req_id: key, last_token, block_table });
                    budget = budget - 1;
                    proof {
                        dpos = dpos.push(i as int);
                        assert(decode_matches(dc@[old_pos.len() as int], m));
                        assert forall|a: int| 0 <= a < dc@.len() implies #[trigger] decode_matches(dc@[a], m) by {
                            if a < old_pos.len() {
                                assert(dc@[a] == old_dc[a]);
                            }
                        }
                        assert forall|j: int| 0 <= j < i + 1 && m[#[trigger] keys@[j]].status == RequestStatus::Decoding
                            implies budget == 0 || exists|a: int| 0 <= a < dpos.len() && dpos[a] == j by {
                            if j == i {
                                assert(dpos[old_pos.len() as int] == j);
                            } else if budget != 0 {
                                let a = choose|a: int| 0 <= a < old_pos.len() && old_pos[a] == j;
                                assert(dpos[a] == j);
                            }
                        }
                    }
                }
            } else if status == RequestStatus::Prefilling {
                let c1 = if avail < budget { avail } else { budget };
                let chunk = if c1 < MAX_PREFILL_CHUNK { c1 } else { MAX_PREFILL_CHUNK };
                proof {
                    assert(chunk == chunk_len(m[key], budget as int));
                }
                if chunk > 0 {
                    let ghost before = self.running@;
                    let ghost before_map = self.running_map();
                    let mut r = fx_remove_u64(&mut self.running, key).unwrap();
                    let start = r.prefill_cursor;
                    let tokens = copy_range(r.prompt_tokens.as_slice(), start, start + chunk);
                    r.prefill_cursor = start + chunk;
                    let block_table = copy_all(&r.block_table);
                    r.status = if r.prefill_cursor >= r.prompt_tokens.len() {
                        RequestStatus::Decoding
                    } else {
                        RequestStatus::Prefilling
                    };
                    proof {
                        assert(r@ == after_prefill(m[key], chunk as int));
                    }
                    fx_insert_u64(&mut self.running, key, r);
                    let ghost old_pf = pf@;
                    let ghost old_pos = ppos;
                    let ghost old_cm = cm;
                    let p = PrefillSeq { req_id: key, tokens, block_table };
                    proof {
                        lemma_prefill_tokens_push(pf@, p, pf@.len() as int);
                    }
                    pf.push(p);
                    budget = budget - chunk;
                    proof {
                        cm = cm.insert(key, chunk as int);
                        ppos = ppos.push(i as int);
                        assert(self.running@.dom() =~= before.dom());
                        assert(self.running_map() =~= before_map.insert(key, after_prefill(m[key], chunk as int)));
                        assert(continue_map(m, cm) =~= continue_map(m, old_cm).insert(key, after_prefill(m[key], chunk as int)));
                        assert(prefill_matches(pf@[old_pf.len() as int], m[key], chunk as int));
                        assert forall|a: int| 0 <= a < pf@.len() implies cm.contains_key((#[trigger] pf@[a]).req_id)
                            && prefill_matches(pf@[a], m[pf@[a].req_id], cm[pf@[a].req_id]) by {
                            if a < old_pf.len() {
                                assert(pf@[a] == old_pf[a]);
                                assert(old_cm.contains_key(old_pf[a].req_id));
                                assert(old_pf[a].req_id != key) by {
                                    assert(keys@[old_pos[a]] == old_pf[a].req_id);
                                    assert(old_pos[a] < i);
                                }
                            }
                        }
                        assert forall|k: RequestId| #[trigger] cm.contains_key(k) implies m.contains_key(k) && m[k].status == RequestStatus::Prefilling
                            && 1 <= cm[k] <= chunk_len(m[k], MAX_PREFILL_CHUNK as int)
                            && (exists|a: int| 0 <= a < pf@.len() && pf@[a].req_id == k)
                            && (exists|j: int| 0 <= j < i + 1 && keys@[j] == k) by {
                            if k == key {
                                assert(pf@[old_pf.len() as int].req_id == k);
                                assert(keys@[i as int] == k);
                            } else {
                                let a = choose|a: int| 0 <= a < old_pf.len() && old_pf[a].req_id == k;
                                assert(pf@[a].req_id == k);
                            }
                        }
                        assert forall|j: int| 0 <= j < i + 1 && m[#[trigger] keys@[j]].status == RequestStatus::Decoding
                            implies budget == 0 || exists|a: int| 0 <= a < dpos.len() && dpos[a] == j by {
                        }
                        assert forall|j: int| 0 <= j < i + 1 && m[#[trigger] keys@[j]].status == RequestStatus::Prefilling
                            && unprefilled(m[keys@[j]]) > 0 implies budget == 0 || cm.contains_key(keys@[j]) by {
                        }
                    }
                }
            }
            i = i + 1;
        }
        proof {
            let used = prefill_tokens(pf@, pf@.len() as int) + dc@.len();
            assert forall|a: int, c: int| 0 <= a < c < dc@.len() implies (#[trigger] dc@[a]).req_id != (#[trigger] dc@[c]).req_id by {
                assert(dpos[a] < dpos[c]);
            }
            assert forall|a: int, c: int| 0 <= a < c < pf@.len() implies (#[trigger] pf@[a]).req_id != (#[trigger] pf@[c]).req_id by {
                assert(ppos[a] < ppos[c]);
            }
            assert forall|k: RequestId| #[trigger] m.contains_key(k) && m[k].status == RequestStatus::Decoding
                && !(exists|a: int| 0 <= a < dc@.len() && dc@[a].req_id == k) implies used == budget0 by {
                assert(keys@.to_set().contains(k));
                let j = choose|j: int| 0 <= j < keys@.len() && keys@[j] == k;
                assert(m[keys@[j]].status == RequestStatus::Decoding);
                if budget != 0 {
                    let a = choose|a: int| 0 <= a < dpos.len() && dpos[a] == j;
                    assert(dc@[a].req_id == k);
                }
            }
            assert forall|k: RequestId| #[trigger] m.contains_key(k) && m[k].status == RequestStatus::Prefilling
                && unprefilled(m[k]) > 0 && !cm.contains_key(k) implies used == budget0 by {
                assert(keys@.to_set().contains(k));
                let j = choose|j: int| 0 <= j < keys@.len() && keys@[j] == k;
                assert(m[keys@[j]].status == RequestStatus::Prefilling);
            }
        }
        (pf, dc, budget, Ghost(cm))
    }

    /// Produce the next batch, within the token budget and the limit on
    /// running sequences.  Running requests are served first (see
    /// `serve_running`): each decoding request gets a one-token decode step
    /// and each request still prefilling the next chunk of its prompt, while
    /// budget tokens remain.  Then waiting requests are promoted from the
    /// front of the queue while a running slot is free, each with the first
    /// chunk of its prompt (at most 2048 tokens and what is left of the
    /// budget); a request whose chunk would be empty stays waiting and stops
    /// promotion.  A request promoted here is decoded from a later batch on.
    pub fn schedule_batch(&mut self) -> (b: BatchView)
        requires
            old(self).wf(),
        ensures
            final(self).wf(),
            exists|nc: int, cm: Map<RequestId, int>| schedule_outcome(*old(self), *final(self), b, nc, cm),
            final(self).finished_seq() == old(self).finished_seq(),
            final(self).next_request_id() == old(self).next_request_id(),
            final(self).limits() == old(self).limits(),
            final(self).current_policy() == old(self).current_policy(),
    {
        let ghost s0 = *self;
        let ghost w0 = self.waiting_seq();
        let ghost r0 = self.running_map();
        proof {
            assert(r0.dom() =~= self.running@.dom());
        }
        let (mut prefill_seqs, decode_seqs, mut token_budget, Ghost(cm)) = self.serve_running();
        let ghost nc = prefill_seqs@.len() as int;
        let ghost pf1 = prefill_seqs@;
        let ghost base = continue_map(r0, cm);
        let ghost budget0 = self.max_batch_tokens as int;
        let ghost used = prefill_tokens(pf1, nc) + decode_seqs@.len();
        let ghost slots0 = self.max_running_seqs - r0.len();
        let ghost chunks_all = promotion_chunks(w0, slots0, budget0 - used);
        let ghost mut done: Seq<int> = Seq::empty();
        proof {
            assert(w0.skip(0) =~= w0);
            assert(done + chunks_all =~= chunks_all);
            assert(pf1.take(nc) =~= pf1);
            assert(base.dom() =~= r0.dom());
            assert(self.waiting_seq() == w0);
            assert(promote_all(base, w0, done) == base);
        }
        loop
            invariant_except_break
                self.wf(),
                self.finished_seq() == old(self).finished_seq(),
                self.next_request_id() == old(self).next_request_id(),
                self.limits() == old(self).limits(),
                self.current_policy() == old(self).current_policy(),
                w0 == old(self).waiting_seq(),
                r0 == old(self).running_map(),
                base == continue_map(r0, cm),
                slots0 == self.max_running_seqs - r0.len(),
                budget0 == self.max_batch_tokens as int,
                chunks_all == promotion_chunks(w0, slots0, budget0 - used),
                done.len() <= w0.len(),
                self.waiting_seq() == w0.skip(done.len() as int),
                self.running_map() == promote_all(base, w0, done),
                self.running@.len() == r0.len() + done.len(),
                token_budget == budget0 - (prefill_tokens(prefill_seqs@, prefill_seqs@.len() as int) + decode_seqs@.len()),
                chunks_all == done + promotion_chunks(w0.skip(done.len() as int), slots0 - done.len(), token_budget as int),
                0 <= nc,
                prefill_seqs@.len() == nc + done.len(),
                prefill_seqs@.take(nc) == pf1,
                forall|i: int| 0 <= i < done.len() ==> #[trigger] prefill_matches(prefill_seqs@[nc + i], w0[i], done[i]),
            ensures
                self.wf(),
                self.finished_seq() == old(self).finished_seq(),
                self.next_request_id() == old(self).next_request_id(),
                self.limits() == old(self).limits(),
                self.current_policy() == old(self).current_policy(),
                done == chunks_all,
                self.waiting_seq() == w0.skip(done.len() as int),
                self.running_map() == promote_all(base, w0, done),
                token_budget == budget0 - (prefill_tokens(prefill_seqs@, prefill_seqs@.len() as int) + decode_seqs@.len()),
                prefill_seqs@.len() == nc + done.len(),
                prefill_seqs@.take(nc) == pf1,
                forall|i: int| 0 <= i < done.len() ==> #[trigger] prefill_matches(prefill_seqs@[nc + i], w0[i], done[i]),
            decreases self.waiting@.len(),
        {
            let ghost n = done.len() as int;
            let running_now = fx_len_u64(&self.running);
            if running_now >= self.max_running_seqs {
                proof {
                    assert(promotion_chunks(w0.skip(n), slots0 - n, token_budget as int) =~= Seq::<int>::empty());
                    assert(chunks_all =~= done);
                }
                break;
            }
            if self.waiting.len() == 0 {
                proof {
                    assert(w0.skip(n).len() == 0);
                    assert(chunks_all =~= done);
                }
                break;
            }
            let front = &self.waiting[0];
            let avail = front.prompt_tokens.len().saturating_sub(front.prefill_cursor);
            let c1 = if avail < token_budget { avail } else { token_budget };
            let chunk = if c1 < MAX_PREFILL_CHUNK { c1 } else { MAX_PREFILL_CHUNK };
            proof {
                assert(front@ == w0.skip(n)[0]);
                assert(chunk == chunk_len(w0.skip(n)[0], token_budget as int));
            }
            if chunk == 0 {
                proof {
                    assert(promotion_chunks(w0.skip(n), slots0 - n, token_budget as int) =~= Seq::<int>::empty());
                    assert(chunks_all =~= done);
                }
                break;
            }
            let ghost w_before = self.waiting@;
            let ghost ws_before = self.waiting_seq();
            let mut req = self.waiting.pop_front().unwrap();
            proof {
                assert(req@ == w0[n]);
                assert forall|i: int| 0 <= i < self.waiting_seq().len() implies self.waiting_seq()[i] == ws_before[i + 1] by {
                    assert(self.waiting@[i] == w_before[i + 1]);
                }
                assert(self.waiting_seq() =~= w0.skip(n + 1));
            }
            let start = req.prefill_cursor;
            let tokens = copy_range(req.prompt_tokens.as_slice(), start, start + chunk);
            req.prefill_cursor = start + chunk;
            let block_table = copy_all(&req.block_table);
            let p = PrefillSeq { req_id: req.id, tokens, block_table };
            let ghost old_pf = prefill_seqs@;
            let ghost gp = p;
            proof {
                lemma_prefill_tokens_push(old_pf, p, old_pf.len() as int);
            }
            prefill_seqs.push(p);
            proof {
                assert(prefill_seqs@ == old_pf.push(gp));
                assert(prefill_seqs@.take(nc) =~= old_pf.take(nc));
            }
            token_budget = token_budget - chunk;
            req.status = if req.prefill_cursor >= req.prompt_tokens.len() {
                RequestStatus::Decoding
            } else {
                RequestStatus::Prefilling
            };
            let ghost old_running = self.running@;
            let rid = req.id;
            proof {
                assert(req@ == after_prefill(w0[n], chunk as int));
                assert(!old_running.contains_key(rid));
            }
            fx_insert_u64(&mut self.running, rid, req);
            proof {
                let new_done = done.push(chunk as int);
                assert(new_done.drop_last() =~= done);
                assert(self.running_map() =~= promote_all(base, w0, done).insert(rid, after_prefill(w0[n], chunk as int)));
                assert(w0.skip(n).drop_first() =~= w0.skip(n + 1));
                assert(chunks_all =~= new_done + promotion_chunks(w0.skip(n + 1), slots0 - (n + 1), token_budget as int));
                assert(prefill_seqs@.take(nc) =~= old_pf.take(nc));
                let w = self.waiting@;
                assert forall|i: int| 0 <= i < w.len() implies (#[trigger] w[i]).id < self.next_id && !self.running@.contains_key(w[i].id) by {
                    assert(w[i] == w_before[i + 1]);
                    assert(w_before[0].id != w_before[i + 1].id);
                }
                assert forall|i: int, j: int| 0 <= i < j < w.len() implies (#[trigger] w[i]).id != (#[trigger] w[j]).id by {
                    assert(w[i] == w_before[i + 1] && w[j] == w_before[j + 1]);
                }
                assert forall|i: int| 0 <= i < new_done.len() implies #[trigger] prefill_matches(prefill_seqs@[nc + i], w0[i], new_done[i]) by {
                    if i < n {
                        assert(prefill_matches(old_pf[nc + i], w0[i], done[i]));
                        assert(prefill_seqs@[nc + i] == old_pf[nc + i]);
                    }
                }
                done = new_done;
            }
        }
        let out = BatchView { prefill_seqs, decode_seqs };
        proof {
            let pf = out.prefill_seqs@;
            lemma_prefill_tokens_take(pf, nc);
            assert(pf.take(nc) == pf1);
            assert(prefill_tokens(pf.take(nc), nc) + out.decode_seqs@.len() == used);
            assert(schedule_outcome(s0, *self, out, nc, cm));
        }
        out
    }

    /// Commit the result of one step: append each sampled token to its
    /// running request (marking it finished once it hits its stop
    /// condition), then move every finished request to the finished list.
    pub fn commit_step(&mut self, next_tokens: &[(RequestId, u32)])
        requires
            old(self).wf(),
        ensures
            final(self).wf(),
            final(self).running_map() == unfinished(apply_tokens(old(self).running_map(), next_tokens@)),
            ({
                let m = apply_tokens(old(self).running_map(), next_tokens@);
                let o = old(self).finished_seq();
                let f = final(self).finished_seq();
                let added = f.skip(o.len() as int);
                &&& o.len() <= f.len()
                &&& f.take(o.len() as int) == o
                &&& forall|i: int, j: int| 0 <= i < j < added.len() ==> (#[trigger] added[i]).0 != (#[trigger] added[j]).0
                &&& forall|i: int| 0 <= i < added.len() ==> m.contains_key((#[trigger] added[i]).0)
                    && m[added[i].0].status == RequestStatus::Finished && added[i].1 == m[added[i].0].output_tokens
                &&& forall|k: RequestId| #[trigger] m.contains_key(k) && m[k].status == RequestStatus::Finished
                    ==> exists|i: int| 0 <= i < added.len() && added[i].0 == k
            }),
            final(self).waiting_seq() == old(self).waiting_seq(),
            final(self).next_request_id() == old(self).next_request_id(),
            final(self).limits() == old(self).limits(),
            final(self).current_policy() == old(self).current_policy(),
    {
        let ghost m0 = self.running_map();
        let mut t: usize = 0;
        proof {
            assert(next_tokens@.take(0) =~= Seq::<(RequestId, u32)>::empty());
        }
        while t < next_tokens.len()
            invariant
                self.wf(),
                m0 == old(self).running_map(),
                t <= next_tokens@.len(),
                self.running_map() == apply_tokens(m0, next_tokens@.take(t as int)),
                self.waiting@ == old(self).waiting@,
                self.finished@ == old(self).finished@,
                self.next_id == old(self).next_id,
                self.limits() == old(self).limits(),
                self.policy == old(self).policy,
            decreases next_tokens@.len() - t,
        {
            let (id, token) = next_tokens[t];
            let ghost prev = self.running_map();
            proof {
                assert(next_tokens@.take(t + 1).drop_last() =~= next_tokens@.take(t as int));
                assert(next_tokens@.take(t + 1).last() == (id, token));
            }
            match fx_remove_u64(&mut self.running, id) {
                None => {
                    proof {
                        assert(self.running@ =~= old(self).running@.remove(id) || true);
                        assert(!prev.contains_key(id));
                        assert(self.running_map() =~= prev);
                    }
                },
                Some(mut req) => {
                    let ghost before = req@;
                    req.output_tokens.push(token);
                    if req.is_done() {
                        req.status = RequestStatus::Finished;
                    }
                    proof {
                        assert(req@ == add_token(before, token));
                    }
                    fx_insert_u64(&mut self.running, id, req);
                    proof {
                        assert(self.running_map() =~= prev.insert(id, add_token(prev[id], token)));
                    }
                },
            }
            t = t + 1;
        }
        proof {
            assert(next_tokens@.take(next_tokens@.len() as int) =~= next_tokens@);
        }
        // ── Move finished requests out of the running table ───────────────
        let ghost m = self.running_map();
        let ghost o = self.finished_seq();
        let keys = fx_keys_u64(&self.running);
        let ghost mut pos_of: Seq<int> = Seq::empty();
        let mut i: usize = 0;
        while i < keys.len()
            invariant
                self.wf(),
                m == apply_tokens(old(self).running_map(), next_tokens@),
                o == old(self).finished_seq(),
                keys@.no_duplicates(),
                keys@.to_set() == m.dom(),
                i <= keys@.len(),
                self.waiting@ == old(self).waiting@,
                self.next_id == old(self).next_id,
                self.limits() == old(self).limits(),
                self.policy == old(self).policy,
                self.running_map() == not_retired(m, keys@, i as int),
                o.len() + pos_of.len() == self.finished_seq().len(),
                self.finished_seq().take(o.len() as int) == o,
                forall|a: int| 0 <= a < pos_of.len() ==> 0 <= #[trigger] pos_of[a] < i
                    && self.finished_seq()[o.len() + a].0 == keys@[pos_of[a]]
                    && m[keys@[pos_of[a]]].status == RequestStatus::Finished
                    && self.finished_seq()[o.len() + a].1 == m[keys@[pos_of[a]]].output_tokens,
                forall|a: int, c: int| 0 <= a < c < pos_of.len() ==> #[trigger] pos_of[a] < #[trigger] pos_of[c],
                forall|j: int| 0 <= j < i && m[#[trigger] keys@[j]].status == RequestStatus::Finished
                    ==> exists|a: int| 0 <= a < pos_of.len() && pos_of[a] == j,
            decreases keys@.len() - i,
        {
            let key = keys[i];
            let ghost before_map = self.running_map();
            let ghost before_fin = self.finished_seq();
            let ghost old_pos = pos_of;
            proof {
                assert(keys@.to_set().contains(key));
                assert(forall|j: int| 0 <= j < i ==> keys@[j] != key);
                assert(before_map.contains_key(key));
            }
            let finished = fx_get_u64(&self.running, key).unwrap().status == RequestStatus::Finished;
            proof {
                assert(!retired(m, keys@, i as int, key));
                assert(before_map[key] == m[key]);
                assert(finished == (m[key].status == RequestStatus::Finished));
            }
            if finished {
                let req = fx_remove_u64(&mut self.running, key).unwrap();
                proof {
                    assert(req@ == before_map[key]);
                    assert(before_map[key] == m[key]);
                }
                let ghost fin_before = self.finished@;
                self.finished.push((key, req.output_tokens));
                proof {
                    pos_of = pos_of.push(i as int);
                    assert(self.finished_seq() =~= before_fin.push((key, m[key].output_tokens)));
                    assert forall|a: int| 0 <= a < pos_of.len() implies 0 <= #[trigger] pos_of[a] < i + 1
                        && self.finished_seq()[o.len() + a].0 == keys@[pos_of[a]]
                        && m[keys@[pos_of[a]]].status == RequestStatus::Finished
                        && self.finished_seq()[o.len() + a].1 == m[keys@[pos_of[a]]].output_tokens by {
                        if a < old_pos.len() {
                            assert(pos_of[a] == old_pos[a]);
                            assert(self.finished_seq()[o.len() + a] == before_fin[o.len() + a]);
                        }
                    }
                    assert forall|j: int| 0 <= j < i + 1 && m[#[trigger] keys@[j]].status == RequestStatus::Finished
                        implies exists|a: int| 0 <= a < pos_of.len() && pos_of[a] == j by {
                        if j == i {
                            assert(pos_of[old_pos.len() as int] == j);
                        } else {
                            let a = choose|a: int| 0 <= a < old_pos.len() && old_pos[a] == j;
                            assert(pos_of[a] == j);
                        }
                    }
                    assert(self.finished_seq().take(o.len() as int) =~= o);
                    assert forall|k: RequestId| retired(m, keys@, i + 1, k) == (retired(m, keys@, i as int, k) || k == key) by {
                        lemma_retired_step(m, keys@, i as int, k);
                    }
                    assert(self.running_map() =~= before_map.remove(key));
                    assert forall|k: RequestId| #[trigger] not_retired(m, keys@, i + 1).dom().contains(k)
                        == (before_map.dom().contains(k) && k != key) by {}
                    assert(self.running_map() =~= not_retired(m, keys@, i + 1));
                }
            } else {
                proof {
                    assert forall|k: RequestId| retired(m, keys@, i + 1, k) == retired(m, keys@, i as int, k) by {
                        lemma_retired_step(m, keys@, i as int, k);
                    }
                    assert(self.running_map() =~= not_retired(m, keys@, i + 1));
                }
            }
            i = i + 1;
        }
        proof {
            let f = self.finished_seq();
            let added = f.skip(o.len() as int);
            assert forall|k: RequestId| m.contains_key(k) implies retired(m, keys@, i as int, k)
                == (m[k].status == RequestStatus::Finished) by {
                assert(keys@.to_set().contains(k));
                if m[k].status == RequestStatus::Finished {
                    let j = choose|j: int| 0 <= j < keys@.len() && keys@[j] == k;
                    assert(0 <= j < i && keys@[j] == k && m[k].status == RequestStatus::Finished);
                }
            }
            assert(self.running_map() =~= unfinished(m));
            assert forall|a: int, c: int| 0 <= a < c < added.len() implies (#[trigger] added[a]).0 != (#[trigger] added[c]).0 by {
                assert(pos_of[a] < pos_of[c]);
            }
            assert forall|a: int| 0 <= a < added.len() implies m.contains_key((#[trigger] added[a]).0)
                && m[added[a].0].status == RequestStatus::Finished && added[a].1 == m[added[a].0].output_tokens by {
                assert(0 <= pos_of[a] < i);
                assert(keys@.to_set().contains(keys@[pos_of[a]]));
            }
            assert forall|k: RequestId| #[trigger] m.contains_key(k) && m[k].status == RequestStatus::Finished
                implies exists|a: int| 0 <= a < added.len() && added[a].0 == k by {
                assert(keys@.to_set().contains(k));
                let j = choose|j: int| 0 <= j < keys@.len() && keys@[j] == k;
                assert(m[keys@[j]].status == RequestStatus::Finished);
                let a = choose|a: int| 0 <= a < pos_of.len() && pos_of[a] == j;
                assert(0 <= pos_of[a] < i);
                assert(added[a].0 == k);
            }
        }
    }

    /// The id the next request will get.
    pub fn peek_next_id(&self) -> (r: RequestId)
        ensures
            r == self.next_request_id(),
    {
        self.next_id
    }

    pub fn waiting_count(&self) -> (n: usize)
        ensures
            n == self.waiting_seq().len(),
    {
        self.waiting.len()
    }

    pub fn running_count(&self) -> (n: usize)
        ensures
            n == self.running_map().len(),
    {
        proof {
            assert(self.running_map().dom() =~= self.running@.dom());
        }
        fx_len_u64(&self.running)
    }
}

// ── Laws ─────────────────────────────────────────────────────────────────────

/// A batch respects its limits: the prompt chunks handed out sum to at most
/// the token budget, no more requests are promoted than there are free
/// running slots, and every chunk holds between 1 and 2048 tokens.
pub proof fn promotion_respects_limits(waiting: Seq<RequestView>, slots: int, budget: int)
    requires
        budget >= 0,
    ensures
        sum_ints(promotion_chunks(waiting, slots, budget)) <= budget,
        promotion_chunks(waiting, slots, budget).len() <= (if slots > 0 { slots } else { 0 }),
        forall|i: int| 0 <= i < promotion_chunks(waiting, slots, budget).len()
            ==> 1 <= #[trigger] promotion_chunks(waiting, slots, budget)[i] <= MAX_PREFILL_CHUNK,
    decreases waiting.len(),
{
    if !(slots <= 0 || waiting.len() == 0) {
        let c = chunk_len(waiting[0], budget);
        if c != 0 {
            let rest = promotion_chunks(waiting.drop_first(), slots - 1, budget - c);
            promotion_respects_limits(waiting.drop_first(), slots - 1, budget - c);
            lemma_sum_ints_front(c, rest);
            let all = promotion_chunks(waiting, slots, budget);
            assert forall|i: int| 0 <= i < all.len() implies 1 <= #[trigger] all[i] <= MAX_PREFILL_CHUNK by {
                if i > 0 {
                    assert(all[i] == rest[i - 1]);
                }
            }
        }
    }
}

/// No request is both prefilled and decoded in one batch: a request
/// promoted by a call is decoded from a later batch on, and one still
/// prefilling is not decoded.
pub proof fn no_request_is_prefilled_and_decoded(s0: Scheduler, s1: Scheduler, b: BatchView, nc: int, cm: Map<RequestId, int>)
    requires
        s0.wf(),
        schedule_outcome(s0, s1, b, nc, cm),
    ensures
        forall|i: int, j: int| 0 <= i < b.prefill_seqs@.len() && 0 <= j < b.decode_seqs@.len()
            ==> (#[trigger] b.prefill_seqs@[i]).req_id != (#[trigger] b.decode_seqs@[j]).req_id,
{
    let r0 = s0.running_map();
    let w0 = s0.waiting_seq();
    let pf = b.prefill_seqs@;
    let dc = b.decode_seqs@;
    request_ids_are_unique(&s0);
    assert forall|i: int, j: int| 0 <= i < pf.len() && 0 <= j < dc.len() implies (#[trigger] pf[i]).req_id != (#[trigger] dc[j]).req_id by {
        assert(decode_matches(dc[j], r0));
        if i < nc {
            assert(pf.take(nc)[i] == pf[i]);
            assert(cm.contains_key(pf[i].req_id));
        } else {
            let k = i - nc;
            lemma_promotion_chunks_len(w0, s0.limits().2 - r0.len(), s0.limits().1 - (prefill_tokens(pf.take(nc), nc) + dc.len()));
            assert(prefill_matches(pf[nc + k], w0[k], promotion_chunks(w0, s0.limits().2 - r0.len(),
                s0.limits().1 - (prefill_tokens(pf.take(nc), nc) + dc.len()))[k]));
            assert(!r0.contains_key(w0[k].id));
        }
    }
}

/// Sum of the token counts of the first `i` descriptors.
pub open spec fn desc_tokens(d: Seq<SeqDescriptorStub>, i: int) -> int
    decreases i,
{
    if i <= 0 || i > d.len() {
        0
    } else {
        desc_tokens(d, i - 1) + d[i - 1].num_tokens
    }
}

/// The descriptors of a batch count its tokens: when every prefill chunk
/// fits a descriptor's 32-bit count, their token counts add up to the
/// batch's total (`total_tokens`).
pub proof fn descriptors_count_the_batch_tokens(b: BatchView, r: (Vec<SeqDescriptorStub>, Vec<Vec<u32>>, Vec<Vec<u32>>))
    requires
        r.0@.len() == b.prefill_seqs@.len() + b.decode_seqs@.len(),
        r.1@.len() == r.0@.len(),
        r.2@.len() == r.0@.len(),
        forall|i: int| 0 <= i < b.prefill_seqs@.len() ==> #[trigger] prefill_desc_ok(r.0@, r.1@, r.2@, b.prefill_seqs@, i),
        forall|i: int| 0 <= i < b.decode_seqs@.len() ==> (#[trigger] r.0@[b.prefill_seqs@.len() + i]).num_tokens == 1,
        forall|i: int| 0 <= i < b.prefill_seqs@.len() ==> (#[trigger] b.prefill_seqs@[i]).tokens@.len() <= u32::MAX,
    ensures
        desc_tokens(r.0@, r.0@.len() as int) == prefill_tokens(b.prefill_seqs@, b.prefill_seqs@.len() as int) + b.decode_seqs@.len(),
{
    lemma_desc_prefill(b, r, b.prefill_seqs@.len() as int);
    lemma_desc_decode(b, r, b.decode_seqs@.len() as int);
}

proof fn lemma_desc_prefill(b: BatchView, r: (Vec<SeqDescriptorStub>, Vec<Vec<u32>>, Vec<Vec<u32>>), i: int)
    requires
        0 <= i <= b.prefill_seqs@.len(),
        r.0@.len() >= b.prefill_seqs@.len(),
        forall|k: int| 0 <= k < b.prefill_seqs@.len() ==> #[trigger] prefill_desc_ok(r.0@, r.1@, r.2@, b.prefill_seqs@, k),
        forall|k: int| 0 <= k < b.prefill_seqs@.len() ==> (#[trigger] b.prefill_seqs@[k]).tokens@.len() <= u32::MAX,
    ensures
        desc_tokens(r.0@, i) == prefill_tokens(b.prefill_seqs@, i),
    decreases i,
{
    if i > 0 {
        lemma_desc_prefill(b, r, i - 1);
        assert(prefill_desc_ok(r.0@, r.1@, r.2@, b.prefill_seqs@, i - 1));
        let n = b.prefill_seqs@[i - 1].tokens@.len();
        assert(b.prefill_seqs@[i - 1].tokens@.len() <= u32::MAX);
        assert(r.0@[i - 1].num_tokens == n);
    }
}

proof fn lemma_desc_decode(b: BatchView, r: (Vec<SeqDescriptorStub>, Vec<Vec<u32>>, Vec<Vec<u32>>), j: int)
    requires
        0 <= j <= b.decode_seqs@.len(),
        r.0@.len() == b.prefill_seqs@.len() + b.decode_seqs@.len(),
        forall|i: int| 0 <= i < b.decode_seqs@.len() ==> (#[trigger] r.0@[b.prefill_seqs@.len() + i]).num_tokens == 1,
        desc_tokens(r.0@, b.prefill_seqs@.len() as int) == prefill_tokens(b.prefill_seqs@, b.prefill_seqs@.len() as int),
    ensures
        desc_tokens(r.0@, b.prefill_seqs@.len() + j) == prefill_tokens(b.prefill_seqs@, b.prefill_seqs@.len() as int) + j,
    decreases j,
{
    if j > 0 {
        lemma_desc_decode(b, r, j - 1);
        assert(r.0@[b.prefill_seqs@.len() + (j - 1)].num_tokens == 1);
    }
}

proof fn lemma_promote_all_keeps(m: Map<RequestId, RequestView>, w: Seq<RequestView>, chunks: Seq<int>, k: RequestId)
    requires
        forall|i: int| 0 <= i < w.len() ==> (#[trigger] w[i]).id != k,
    ensures
        promote_all(m, w, chunks).contains_key(k) == m.contains_key(k),
        m.contains_key(k) ==> promote_all(m, w, chunks)[k] == m[k],
    decreases chunks.len(),
{
    if !(chunks.len() == 0 || chunks.len() > w.len()) {
        lemma_promote_all_keeps(m, w, chunks.drop_last(), k);
        assert(w[chunks.len() - 1].id != k);
    }
}

/// A request still prefilling makes progress in every batch whose running
/// requests leave budget unused: it gets a full chunk (the rest of its
/// prompt, at most 2048 tokens), and is decoding once its prompt is done.
pub proof fn prefill_progresses(s0: Scheduler, s1: Scheduler, b: BatchView, nc: int, cm: Map<RequestId, int>, k: RequestId)
    requires
        s0.wf(),
        schedule_outcome(s0, s1, b, nc, cm),
        s0.running_map().contains_key(k),
        s0.running_map()[k].status == RequestStatus::Prefilling,
        unprefilled(s0.running_map()[k]) > 0,
        s0.running_map()[k].prompt_tokens.len() <= usize::MAX,
        prefill_tokens(b.prefill_seqs@.take(nc), nc) + b.decode_seqs@.len() < s0.limits().1,
    ensures
        s1.running_map().contains_key(k),
        s1.running_map()[k] == after_prefill(s0.running_map()[k], chunk_len(s0.running_map()[k], MAX_PREFILL_CHUNK as int)),
        unprefilled(s1.running_map()[k]) == unprefilled(s0.running_map()[k]) - chunk_len(s0.running_map()[k], MAX_PREFILL_CHUNK as int),
        s1.running_map()[k].status == (if unprefilled(s1.running_map()[k]) == 0 {
            RequestStatus::Decoding
        } else {
            RequestStatus::Prefilling
        }),
{
    let r0 = s0.running_map();
    let w0 = s0.waiting_seq();
    let pf = b.prefill_seqs@;
    let dc = b.decode_seqs@;
    let used = prefill_tokens(pf.take(nc), nc) + dc.len();
    let chunks = promotion_chunks(w0, s0.limits().2 - r0.len(), s0.limits().1 - used);
    assert(pf.take(nc).len() == nc);
    assert(cm.contains_key(k));
    assert(cm[k] == chunk_len(r0[k], MAX_PREFILL_CHUNK as int));
    request_ids_are_unique(&s0);
    assert forall|i: int| 0 <= i < w0.len() implies (#[trigger] w0[i]).id != k by {
        assert(!r0.contains_key(w0[i].id));
    }
    lemma_promote_all_keeps(continue_map(r0, cm), w0, chunks, k);
}

/// Over batches whose running requests each leave budget unused, a request
/// that is prefilling with `u` prompt tokens left is decoding after
/// `ceil(u / 2048)` batches: no request stays prefilling for ever.
pub proof fn prefill_finishes(states: Seq<Scheduler>, bs: Seq<BatchView>, ncs: Seq<int>, cms: Seq<Map<RequestId, int>>, k: RequestId)
    requires
        states.len() == bs.len() + 1,
        ncs.len() == bs.len(),
        cms.len() == bs.len(),
        forall|i: int| 0 <= i < bs.len() ==> #[trigger] states[i].wf(),
        forall|i: int| 0 <= i < bs.len() ==> schedule_outcome(states[i], states[i + 1], #[trigger] bs[i], ncs[i], cms[i]),
        forall|i: int| 0 <= i < bs.len() ==> prefill_tokens((#[trigger] bs[i]).prefill_seqs@.take(ncs[i]), ncs[i])
            + bs[i].decode_seqs@.len() < states[i].limits().1,
        states[0].running_map().contains_key(k),
        states[0].running_map()[k].status == RequestStatus::Prefilling,
        states[0].running_map()[k].prompt_tokens.len() <= usize::MAX,
        bs.len() * MAX_PREFILL_CHUNK >= unprefilled(states[0].running_map()[k]),
    ensures
        states.last().running_map().contains_key(k),
        states.last().running_map()[k].status == RequestStatus::Decoding || unprefilled(states[0].running_map()[k]) == 0,
    decreases bs.len(),
{
    let r = states[0].running_map()[k];
    if bs.len() > 0 && unprefilled(r) > 0 {
        prefill_progresses(states[0], states[1], bs[0], ncs[0], cms[0], k);
        let r1 = states[1].running_map()[k];
        if unprefilled(r1) > 0 {
            assert(chunk_len(r, MAX_PREFILL_CHUNK as int) == MAX_PREFILL_CHUNK);
            let st = states.drop_first();
            let b2 = bs.drop_first();
            assert forall|i: int| 0 <= i < b2.len() implies #[trigger] st[i].wf() by {
                assert(states[i + 1].wf());
            }
            assert forall|i: int| 0 <= i < b2.len() implies schedule_outcome(st[i], st[i + 1], #[trigger] b2[i], ncs.drop_first()[i], cms.drop_first()[i]) by {
                assert(schedule_outcome(states[i + 1], states[i + 2], bs[i + 1], ncs[i + 1], cms[i + 1]));
            }
            assert forall|i: int| 0 <= i < b2.len() implies prefill_tokens((#[trigger] b2[i]).prefill_seqs@.take(ncs.drop_first()[i]), ncs.drop_first()[i])
                + b2[i].decode_seqs@.len() < st[i].limits().1 by {
                assert(bs[i + 1] == b2[i]);
                assert(prefill_tokens(bs[i + 1].prefill_seqs@.take(ncs[i + 1]), ncs[i + 1]) + bs[i + 1].decode_seqs@.len() < states[i + 1].limits().1);
            }
            prefill_finishes(st, b2, ncs.drop_first(), cms.drop_first(), k);
        } else {
            lemma_running_stays_chain(states.drop_first(), bs.drop_first(), ncs.drop_first(), cms.drop_first(), k);
        }
    } else {
        lemma_running_stays_chain(states, bs, ncs, cms, k);
    }
}

proof fn lemma_running_stays(s0: Scheduler, s1: Scheduler, b: BatchView, nc: int, cm: Map<RequestId, int>, k: RequestId)
    requires
        s0.wf(),
        schedule_outcome(s0, s1, b, nc, cm),
        s0.running_map().contains_key(k),
    ensures
        s1.running_map().contains_key(k),
        s0.running_map()[k].status == RequestStatus::Decoding ==> s1.running_map()[k] == s0.running_map()[k],
{
    let r0 = s0.running_map();
    let w0 = s0.waiting_seq();
    let pf = b.prefill_seqs@;
    let used = prefill_tokens(pf.take(nc), nc) + b.decode_seqs@.len();
    let chunks = promotion_chunks(w0, s0.limits().2 - r0.len(), s0.limits().1 - used);
    request_ids_are_unique(&s0);
    assert forall|i: int| 0 <= i < w0.len() implies (#[trigger] w0[i]).id != k by {
        assert(!r0.contains_key(w0[i].id));
    }
    lemma_promote_all_keeps(continue_map(r0, cm), w0, chunks, k);
}

proof fn lemma_running_stays_chain(states: Seq<Scheduler>, bs: Seq<BatchView>, ncs: Seq<int>, cms: Seq<Map<RequestId, int>>, k: RequestId)
    requires
        states.len() == bs.len() + 1,
        ncs.len() == bs.len(),
        cms.len() == bs.len(),
        forall|i: int| 0 <= i < bs.len() ==> #[trigger] states[i].wf(),
        forall|i: int| 0 <= i < bs.len() ==> schedule_outcome(states[i], states[i + 1], #[trigger] bs[i], ncs[i], cms[i]),
        states[0].running_map().contains_key(k),
    ensures
        states.last().running_map().contains_key(k),
        states[0].running_map()[k].status == RequestStatus::Decoding ==> states.last().running_map()[k].status == RequestStatus::Decoding,
    decreases bs.len(),
{
    if bs.len() > 0 {
        lemma_running_stays(states[0], states[1], bs[0], ncs[0], cms[0], k);
        let st = states.drop_first();
        let b2 = bs.drop_first();
        assert forall|i: int| 0 <= i < b2.len() implies #[trigger] st[i].wf() by {
            assert(states[i + 1].wf());
        }
        assert forall|i: int| 0 <= i < b2.len() implies schedule_outcome(st[i], st[i + 1], #[trigger] b2[i], ncs.drop_first()[i], cms.drop_first()[i]) by {
            assert(schedule_outcome(states[i + 1], states[i + 2], bs[i + 1], ncs[i + 1], cms[i + 1]));
        }
        lemma_running_stays_chain(st, b2, ncs.drop_first(), cms.drop_first(), k);
    }
}

proof fn lemma_promotion_chunks_len(waiting: Seq<RequestView>, slots: int, budget: int)
    ensures
        promotion_chunks(waiting, slots, budget).len() <= waiting.len(),
    decreases waiting.len(),
{
    if !(slots <= 0 || waiting.len() == 0) {
        let c = chunk_len(waiting[0], budget);
        if c != 0 {
            lemma_promotion_chunks_len(waiting.drop_first(), slots - 1, budget - c);
        }
    }
}

proof fn lemma_sum_ints_front(c: int, s: Seq<int>)
    ensures
        sum_ints(seq![c] + s) == c + sum_ints(s),
    decreases s.len(),
{
    if s.len() == 0 {
        assert(seq![c] + s =~= seq![c]);
        assert(seq![c].drop_last() =~= Seq::<int>::empty());
        assert(sum_ints(seq![c]) == sum_ints(Seq::<int>::empty()) + c);
    } else {
        lemma_sum_ints_front(c, s.drop_last());
        assert((seq![c] + s).drop_last() =~= seq![c] + s.drop_last());
        assert((seq![c] + s).last() == s.last());
        assert(sum_ints(seq![c] + s) == sum_ints(seq![c] + s.drop_last()) + s.last());
    }
}

/// Request ids never collide: in a well-formed scheduler the waiting
/// requests have pairwise different ids, none of them is running, every
/// running request is filed under its own id, and all ids are below the
/// id the next request gets.
pub proof fn request_ids_are_unique(s: &Scheduler)
    requires
        s.wf(),
    ensures
        forall|i: int, j: int| 0 <= i < j < s.waiting_seq().len() ==> (#[trigger] s.waiting_seq()[i]).id != (#[trigger] s.waiting_seq()[j]).id,
        forall|i: int| 0 <= i < s.waiting_seq().len() ==> !s.running_map().contains_key((#[trigger] s.waiting_seq()[i]).id)
            && s.waiting_seq()[i].id < s.next_request_id(),
        forall|k: RequestId| #[trigger] s.running_map().contains_key(k) ==> s.running_map()[k].id == k && k < s.next_request_id(),
{
    assert forall|i: int, j: int| 0 <= i < j < s.waiting_seq().len() implies (#[trigger] s.waiting_seq()[i]).id != (#[trigger] s.waiting_seq()[j]).id by {
        assert(s.waiting@[i].id != s.waiting@[j].id);
    }
    assert forall|i: int| 0 <= i < s.waiting_seq().len() implies !s.running_map().contains_key((#[trigger] s.waiting_seq()[i]).id)
        && s.waiting_seq()[i].id < s.next_request_id() by {
        assert(s.waiting_seq()[i].id == s.waiting@[i].id);
    }
}


proof fn lemma_apply_tokens_untouched(m: Map<RequestId, RequestView>, toks: Seq<(RequestId, u32)>, k: RequestId)
    requires
        forall|i: int| 0 <= i < toks.len() ==> (#[trigger] toks[i]).0 != k,
    ensures
        apply_tokens(m, toks).contains_key(k) == m.contains_key(k),
        m.contains_key(k) ==> apply_tokens(m, toks)[k] == m[k],
    decreases toks.len(),
{
    if toks.len() > 0 {
        let rest = toks.drop_last();
        assert forall|i: int| 0 <= i < rest.len() implies (#[trigger] rest[i]).0 != k by {
            assert(rest[i] == toks[i]);
        }
        lemma_apply_tokens_untouched(m, rest, k);
        assert(toks[toks.len() - 1].0 != k);
    }
}

/// Continuous batching: a running request that gets no token in a step
/// stays running, unchanged.
pub proof fn requests_without_tokens_keep_running(m: Map<RequestId, RequestView>, toks: Seq<(RequestId, u32)>, k: RequestId)
    requires
        m.contains_key(k),
        m[k].status != RequestStatus::Finished,
        forall|i: int| 0 <= i < toks.len() ==> (#[trigger] toks[i]).0 != k,
    ensures
        unfinished(apply_tokens(m, toks)).contains_key(k),
        unfinished(apply_tokens(m, toks))[k] == m[k],
{
    lemma_apply_tokens_untouched(m, toks, k);
}

/// A request is done exactly when it has generated as many tokens as it
/// may, or its last generated token is one of its stop tokens, wherever that
/// token stands in the list.
pub proof fn done_at_the_limit_or_any_stop_token(r: RequestView)
    ensures
        spec_is_done(r) <==> (r.output_tokens.len() >= r.params.max_new_tokens || (r.output_tokens.len() > 0
            && exists|j: int| 0 <= j < r.params.stop_tokens.len() && r.params.stop_tokens[j] == r.output_tokens.last())),
{
    if r.output_tokens.len() > 0 && r.params.stop_tokens.contains(r.output_tokens.last()) {
        let j = choose|j: int| 0 <= j < r.params.stop_tokens.len() && r.params.stop_tokens[j] == r.output_tokens.last();
        assert(r.params.stop_tokens[j] == r.output_tokens.last());
    }
}

/// A running request that is sampled one of its stop tokens, whichever of
/// them it is, is finished and leaves the running set.
pub proof fn any_stop_token_retires_a_request(m: Map<RequestId, RequestView>, k: RequestId, t: u32, j: int)
    requires
        m.contains_key(k),
        m[k].status != RequestStatus::Finished,
        0 <= j < m[k].params.stop_tokens.len(),
        m[k].params.stop_tokens[j] == t,
    ensures
        apply_tokens(m, seq![(k, t)])[k].status == RequestStatus::Finished,
        apply_tokens(m, seq![(k, t)])[k].output_tokens == m[k].output_tokens.push(t),
        !unfinished(apply_tokens(m, seq![(k, t)])).contains_key(k),
{
    let toks = seq![(k, t)];
    assert(toks.drop_last() =~= Seq::<(RequestId, u32)>::empty());
    assert(apply_tokens(m, toks.drop_last()) == m);
    let r2 = RequestView { output_tokens: m[k].output_tokens.push(t), ..m[k] };
    assert(r2.output_tokens.last() == t);
    assert(r2.params.stop_tokens[j] == t);
    assert(spec_is_done(r2));
}

/// A running request that gets a token keeps it appended to its output,
/// and leaves the running set exactly when that token finishes it.
pub proof fn a_token_finishes_a_request_only_when_done(m: Map<RequestId, RequestView>, k: RequestId, t: u32)
    requires
        m.contains_key(k),
        m[k].status != RequestStatus::Finished,
    ensures
        apply_tokens(m, seq![(k, t)])[k].output_tokens == m[k].output_tokens.push(t),
        unfinished(apply_tokens(m, seq![(k, t)])).contains_key(k) <==> !spec_is_done(
            RequestView { output_tokens: m[k].output_tokens.push(t), ..m[k] },
        ),
{
    let toks = seq![(k, t)];
    assert(toks.drop_last() =~= Seq::<(RequestId, u32)>::empty());
    assert(apply_tokens(m, toks.drop_last()) == m);
}

} // verus!

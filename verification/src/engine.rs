//! Model metadata and the sizing decisions taken when an engine loads a
//! model: the paged KV cache and the scheduler it gets.

use vstd::prelude::*;
use crate::kv_cache::BlockManager;
use crate::quantization::QuantScheme;
use crate::scheduler::{Scheduler, SeqDescriptorStub};

verus! {

/// What the engine knows of a model.
#[derive(Debug, Clone)]
pub struct ModelConfig {
    pub model_type: String,
    pub hidden_size: usize,
    pub num_heads: usize,
    pub num_kv_heads: usize,
    pub num_layers: usize,
    pub head_dim: usize,
    pub vocab_size: usize,
    pub max_seq_len: usize,
    /// The RoPE base, as the bits of an `f32`.
    pub rope_theta_bits: u32,
    /// The RMS-norm epsilon, as the bits of an `f32`.
    pub rms_norm_eps_bits: u32,
    pub quant_scheme: QuantScheme,
    /// The weights directory.
    pub weights_path: String,
    /// A `tokenizer.json` to use in place of the one beside the weights.
    pub tokenizer_path: Option<String>,
}

/// Tokens per KV-cache block.
pub const KV_BLOCK_TOKENS: usize = 16;

/// Bytes of GPU memory given to the KV cache: 80 % of 80 GiB.
pub const KV_BUDGET_BYTES: u64 = 68719476736;

/// Blocks the KV cache gets at least.
pub const MIN_GPU_BLOCKS: usize = 512;

/// Tokens one batch may carry.
pub const MAX_BATCH_TOKENS: usize = 8192;

/// Sequences that may run at once.
pub const MAX_RUNNING_SEQS: usize = 256;

/// The dimension of one attention head.
pub open spec fn spec_head_dim(c: ModelConfig) -> int {
    c.hidden_size as int / c.num_heads as int
}

/// Bytes one KV-cache block takes: K and V, in BF16, for every layer and
/// KV head.
pub open spec fn block_bytes(c: ModelConfig) -> int {
    16 * c.num_layers * 2 * c.num_kv_heads * spec_head_dim(c) * 2
}

/// How many KV-cache blocks fit the budget, at least the minimum.
pub open spec fn spec_gpu_blocks(c: ModelConfig) -> int {
    let fit = KV_BUDGET_BYTES as int / block_bytes(c);
    if fit > MIN_GPU_BLOCKS {
        fit
    } else {
        MIN_GPU_BLOCKS as int
    }
}

impl ModelConfig {
    /// The dimension of one attention head: hidden size over heads.
    pub fn head_dim(&self) -> (r: usize)
        requires
            self.num_heads > 0,
        ensures
            r == spec_head_dim(*self),
    {
        self.hidden_size / self.num_heads
    }
}

/// How many KV-cache blocks to allocate for a model.
pub fn estimate_gpu_blocks(cfg: &ModelConfig) -> (r: usize)
    requires
        cfg.num_heads > 0,
        0 < block_bytes(*cfg) <= usize::MAX,
        KV_BUDGET_BYTES <= usize::MAX,
    ensures
        r == spec_gpu_blocks(*cfg),
{
    let hd = cfg.head_dim();
    let l = cfg.num_layers;
    let kv = cfg.num_kv_heads;
    proof {
        assert(l >= 1 && kv >= 1 && hd >= 1) by (nonlinear_arith)
            requires
                0 < 16 * l * 2 * kv * hd * 2,
        ;
        assert(16 * l * 2 * kv * hd <= 16 * l * 2 * kv * hd * 2) by (nonlinear_arith)
            requires
                l >= 1,
                kv >= 1,
                hd >= 1,
        ;
        assert(16 * l * 2 * kv <= 16 * l * 2 * kv * hd) by (nonlinear_arith)
            requires
                l >= 1,
                kv >= 1,
                hd >= 1,
        ;
        assert(16 * l * 2 <= 16 * l * 2 * kv) by (nonlinear_arith)
            requires
                l >= 1,
                kv >= 1,
        ;
        assert(16 * l <= 16 * l * 2) by (nonlinear_arith)
            requires
                l >= 1,
        ;
    }
    let bytes_per_block = KV_BLOCK_TOKENS * l * 2 * kv * hd * 2;
    let available: usize = KV_BUDGET_BYTES as usize;
    let fit = available / bytes_per_block;
    if fit > MIN_GPU_BLOCKS {
        fit
    } else {
        MIN_GPU_BLOCKS
    }
}

/// The KV-cache block manager a model gets: its layers, KV heads and head
/// dimension, 16-token blocks, as many as fit.
pub fn block_manager_for(cfg: &ModelConfig) -> (m: BlockManager)
    requires
        cfg.num_heads > 0,
        0 < block_bytes(*cfg) <= usize::MAX,
        KV_BUDGET_BYTES <= usize::MAX,
    ensures
        m.wf(),
        m.shape() == (cfg.num_layers, cfg.num_kv_heads, spec_head_dim(*cfg) as usize, KV_BLOCK_TOKENS),
        m.num_blocks() == ((spec_gpu_blocks(*cfg) as usize) as u32) as nat,
{
    let blocks = estimate_gpu_blocks(cfg);
    BlockManager::new(cfg.num_layers, cfg.num_kv_heads, cfg.head_dim(), KV_BLOCK_TOKENS, blocks)
}

/// The scheduler a model gets: its maximum sequence length, 8192 tokens a
/// batch, 256 running sequences.
pub fn scheduler_for(cfg: &ModelConfig) -> (s: Scheduler)
    ensures
        s.wf(),
        s.limits() == (cfg.max_seq_len, MAX_BATCH_TOKENS, MAX_RUNNING_SEQS),
        s.waiting_seq().len() == 0,
        s.running_map().dom().len() == 0,
        s.finished_seq().len() == 0,
{
    Scheduler::new(cfg.max_seq_len, MAX_BATCH_TOKENS, MAX_RUNNING_SEQS)
}

/// One sequence as the forward-pass kernel reads it; the token and block
/// buffers are given by address.
#[derive(Debug, Clone, Copy, PartialEq, Eq, Structural)]
pub struct SeqDescriptor {
    pub seq_id: u64,
    pub token_ids: usize,
    pub num_tokens: u32,
    pub block_table: usize,
    pub num_blocks: u32,
    pub is_prefill: u8,
}

impl SeqDescriptor {
    /// The kernel's descriptor for a scheduled sequence.
    pub fn from_stub(s: &SeqDescriptorStub) -> (r: Self)
        ensures
            r == (SeqDescriptor {
                seq_id: s.seq_id,
                token_ids: s.token_ptr,
                num_tokens: s.num_tokens,
                block_table: s.block_ptr,
                num_blocks: s.num_blocks,
                is_prefill: s.is_prefill,
            }),
    {
        SeqDescriptor {
            seq_id: s.seq_id,
            token_ids: s.token_ptr,
            num_tokens: s.num_tokens,
            block_table: s.block_ptr,
            num_blocks: s.num_blocks,
            is_prefill: s.is_prefill,
        }
    }
}

} // verus!

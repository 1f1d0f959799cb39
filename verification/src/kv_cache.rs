//! Paged KV-cache block manager.
//!
//! Blocks are fixed-size (16 tokens by default).  Each sequence has a
//! *block table* mapping logical page indices to physical block IDs.  Blocks
//! are reference counted so that sequences sharing a prompt prefix can share
//! them; a block whose count drops to zero goes back to the tail of the free
//! list.  A small prefix cache maps the rolling hash of a token prefix to the
//! blocks that hold its keys and values.

use vstd::prelude::*;
use std::collections::VecDeque;
use rustc_hash::FxHashMap;
use vstd::wrapping::u64_specs;
use crate::text::{decimal, push_decimal};
use crate::fx::{
    fx_new_u32, fx_new_u64, fx_get_u32, fx_get_u64, fx_insert_u32, fx_insert_u64,
    fx_remove_u32, fx_remove_u64, fx_len_u32,
};

verus! {

/// Physical block identifier.
pub type BlockId = u32;

/// Knuth's multiplicative constant, the base of the rolling hash.
pub const HASH_MULTIPLIER: u64 = 0x9e37_79b9_7f4a_7c15;

/// One KV page descriptor (bookkeeping only; the tensors live on the GPU).
#[derive(Debug, Clone, Copy, PartialEq, Eq)]
pub struct KvPage {
    pub block_id: BlockId,
    /// How many of the `block_size` token slots are occupied.
    pub used_slots: u16,
    /// Reference count (shared prefix caching).
    pub ref_count: u32,
    /// Token hash of the tokens stored in this block.
    pub token_hash: u64,
}

/// Why an allocation was refused.
#[derive(Debug, Clone, Copy, PartialEq, Eq)]
pub enum KvCacheError {
    /// `needed` blocks were asked for while only `free` were free.
    OutOfBlocks { needed: usize, free: usize },
}

impl KvCacheError {
    /// The message for this error.
    pub fn message(&self) -> (r: String)
        ensures
            r@ == (match *self {
                KvCacheError::OutOfBlocks { needed, free } => "KV cache OOM: need "@ + decimal(needed as nat)
                    + " blocks, only "@ + decimal(free as nat) + " free"@,
            }),
    {
        match self {
            KvCacheError::OutOfBlocks { needed, free } => {
                let mut s = String::from_str("KV cache OOM: need ");
                push_decimal(&mut s, *needed as u64);
                s.append(" blocks, only ");
                push_decimal(&mut s, *free as u64);
                s.append(" free");
                s
            },
        }
    }
}

// ── Rolling hash ─────────────────────────────────────────────────────────────

/// One step of the polynomial hash: `h * P + t` modulo 2^64.
pub open spec fn hash_step(h: u64, t: u32) -> u64 {
    u64_specs::wrapping_add(u64_specs::wrapping_mul(h, HASH_MULTIPLIER), t as u64)
}

/// The polynomial hash folded over `tokens`, left to right, from `h`.
pub open spec fn hash_fold(h: u64, tokens: Seq<u32>) -> u64
    decreases tokens.len(),
{
    if tokens.len() == 0 {
        h
    } else {
        hash_step(hash_fold(h, tokens.drop_last()), tokens.last())
    }
}

/// The rolling hash of `tokens` continued from `prev`: the chunk length is
/// mixed in first (`prev + len * P`), then every token in order.
pub open spec fn spec_rolling_hash(prev: u64, tokens: Seq<u32>) -> u64 {
    hash_fold(
        u64_specs::wrapping_add(prev, u64_specs::wrapping_mul(tokens.len() as u64, HASH_MULTIPLIER)),
        tokens,
    )
}

/// Rolling polynomial hash of `tokens[start..end]`, continued from `prev`.
fn rolling_hash_range(prev: u64, tokens: &[u32], start: usize, end: usize) -> (h: u64)
    requires
        start <= end <= tokens@.len(),
    ensures
        h == spec_rolling_hash(prev, tokens@.subrange(start as int, end as int)),
{
    let ghost chunk = tokens@.subrange(start as int, end as int);
    let n: u64 = (end - start) as u64;
    let h0: u64 = prev.wrapping_add(n.wrapping_mul(HASH_MULTIPLIER));
    let mut h: u64 = h0;
    let mut i: usize = start;
    while i < end
        invariant
            start <= i <= end <= tokens@.len(),
            chunk == tokens@.subrange(start as int, end as int),
            h0 == u64_specs::wrapping_add(prev, u64_specs::wrapping_mul(chunk.len() as u64, HASH_MULTIPLIER)),
            h == hash_fold(h0, chunk.take(i - start)),
        decreases end - i,
    {
        proof {
            assert(chunk.take(i - start + 1).drop_last() =~= chunk.take(i - start));
            assert(chunk.take(i - start + 1).last() == tokens@[i as int]);
        }
        h = h.wrapping_mul(HASH_MULTIPLIER).wrapping_add(tokens[i] as u64);
        i = i + 1;
    }
    proof {
        assert(chunk.take(end - start) =~= chunk);
    }
    h
}

/// Fast rolling polynomial hash over token IDs, continued from `prev`.
pub fn rolling_hash(prev: u64, tokens: &[u32]) -> (h: u64)
    ensures
        h == spec_rolling_hash(prev, tokens@),
{
    proof {
        assert(tokens@.subrange(0, tokens@.len() as int) =~= tokens@);
    }
    rolling_hash_range(prev, tokens, 0, tokens.len())
}

// ── Models of the block manager's operations ─────────────────────────────────

/// The page a block gets when it is handed out.
pub open spec fn fresh_page(id: BlockId) -> KvPage {
    KvPage { block_id: id, used_slots: 0, ref_count: 1, token_hash: 0 }
}

/// The page table after a fresh page is entered for every block of `ids`.
pub open spec fn with_fresh_pages(pages: Map<BlockId, KvPage>, ids: Seq<BlockId>) -> Map<BlockId, KvPage>
    decreases ids.len(),
{
    if ids.len() == 0 {
        pages
    } else {
        with_fresh_pages(pages, ids.drop_last()).insert(ids.last(), fresh_page(ids.last()))
    }
}

/// The page table after one more reference is taken on `id` (nothing happens
/// to a block that is not in use).
pub open spec fn incref_pages(pages: Map<BlockId, KvPage>, id: BlockId) -> Map<BlockId, KvPage> {
    if pages.contains_key(id) {
        let p = pages[id];
        pages.insert(id, KvPage { block_id: p.block_id, used_slots: p.used_slots, ref_count: (p.ref_count + 1) as u32, token_hash: p.token_hash })
    } else {
        pages
    }
}

/// Free list and page table after one reference on `id` is dropped: a block
/// whose last reference goes is appended to the free list.
pub open spec fn decref_model(free: Seq<BlockId>, pages: Map<BlockId, KvPage>, id: BlockId) -> (Seq<BlockId>, Map<BlockId, KvPage>) {
    if !pages.contains_key(id) {
        (free, pages)
    } else if pages[id].ref_count <= 1 {
        (free.push(id), pages.remove(id))
    } else {
        let p = pages[id];
        (free, pages.insert(id, KvPage { block_id: p.block_id, used_slots: p.used_slots, ref_count: (p.ref_count - 1) as u32, token_hash: p.token_hash }))
    }
}

/// Free list and page table after `decref` on every entry of `table`, in order.
pub open spec fn free_seq_model(free: Seq<BlockId>, pages: Map<BlockId, KvPage>, table: Seq<BlockId>) -> (Seq<BlockId>, Map<BlockId, KvPage>)
    decreases table.len(),
{
    if table.len() == 0 {
        (free, pages)
    } else {
        let prev = free_seq_model(free, pages, table.drop_last());
        decref_model(prev.0, prev.1, table.last())
    }
}

/// The blocks that the prefix cache yields for `rest`, cut into chunks of
/// `bs` tokens (the last one possibly shorter), continuing the hash `h`: the
/// chain of every chunk whose running hash is cached, up to the first miss.
pub open spec fn prefix_chain(cache: Map<u64, Seq<BlockId>>, rest: Seq<u32>, bs: nat, h: u64) -> Seq<BlockId>
    decreases rest.len(),
{
    if rest.len() == 0 || bs == 0 {
        Seq::empty()
    } else {
        let n: int = if rest.len() < bs { rest.len() as int } else { bs as int };
        let h2 = spec_rolling_hash(h, rest.take(n));
        if cache.contains_key(h2) {
            cache[h2] + prefix_chain(cache, rest.skip(n), bs, h2)
        } else {
            Seq::empty()
        }
    }
}

/// The prefix cache after `block_id` is appended to the list under `hash`.
pub open spec fn prefix_push(cache: Map<u64, Seq<BlockId>>, hash: u64, block_id: BlockId) -> Map<u64, Seq<BlockId>> {
    let prev = if cache.contains_key(hash) { cache[hash] } else { Seq::empty() };
    cache.insert(hash, prev.push(block_id))
}

// ── Block manager ────────────────────────────────────────────────────────────

/// Manages allocation and deallocation of KV-cache blocks.
pub struct BlockManager {
    pub num_layers: usize,
    pub num_kv_heads: usize,
    pub head_dim: usize,
    /// Tokens per block.
    pub block_size: usize,
    free_blocks: VecDeque<BlockId>,
    used_blocks: FxHashMap<BlockId, KvPage>,
    /// Rolling hash of a token prefix → blocks that hold it.
    prefix_cache: FxHashMap<u64, Vec<BlockId>>,
    /// How many physical blocks the manager was made with.
    total: Ghost<nat>,
}

impl BlockManager {
    /// Free blocks, in the order in which they will be handed out.
    pub closed spec fn free_list(&self) -> Seq<BlockId> {
        self.free_blocks@
    }

    /// Pages of the blocks in use, by block id.
    pub closed spec fn pages(&self) -> Map<BlockId, KvPage> {
        self.used_blocks@
    }

    /// The prefix cache: token-prefix hash → block ids.
    pub closed spec fn prefix_map(&self) -> Map<u64, Seq<BlockId>> {
        self.prefix_cache@.map_values(|v: Vec<BlockId>| v@)
    }

    /// The number of physical blocks the manager was made with.
    pub closed spec fn num_blocks(&self) -> nat {
        self.total@
    }

    /// Every block is either free (once) or in use, never both; ids are
    /// below the number of blocks; a page in use is filed under its own id
    /// and holds at least one reference.
    pub closed spec fn wf(&self) -> bool {
        let free = self.free_blocks@;
        let used = self.used_blocks@;
        &&& free.no_duplicates()
        &&& used.dom().finite()
        &&& forall|i: int| 0 <= i < free.len() ==> !used.contains_key(#[trigger] free[i]) && free[i] < self.total@
        &&& forall|b: BlockId| #[trigger] used.contains_key(b) ==> b < self.total@ && used[b].block_id == b && used[b].ref_count >= 1
        &&& free.len() + used.len() == self.total@
        &&& self.total@ <= u32::MAX
    }

    /// The shape parameters: layers, KV heads, head dimension, tokens per block.
    pub closed spec fn shape(&self) -> (usize, usize, usize, usize) {
        (self.num_layers, self.num_kv_heads, self.head_dim, self.block_size)
    }

    /// Tokens per block.
    pub closed spec fn tokens_per_block(&self) -> usize {
        self.block_size
    }

    /// A manager with blocks `0 .. max_blocks as u32` free, in that order.
    pub fn new(num_layers: usize, num_kv_heads: usize, head_dim: usize, block_size: usize, max_blocks: usize) -> (m: Self)
        ensures
            m.wf(),
            m.num_blocks() == (max_blocks as u32) as nat,
            m.free_list() == Seq::new((max_blocks as u32) as nat, |i: int| i as u32),
            m.pages() == Map::<BlockId, KvPage>::empty(),
            m.prefix_map() == Map::<u64, Seq<BlockId>>::empty(),
            m.shape() == (num_layers, num_kv_heads, head_dim, block_size),
            m.tokens_per_block() == block_size,
    {
        let n: u32 = max_blocks as u32;
        let mut free_blocks: VecDeque<BlockId> = VecDeque::new();
        let mut i: u32 = 0;
        while i < n
            invariant
                i <= n,
                free_blocks@ == Seq::new(i as nat, |j: int| j as u32),
            decreases n - i,
        {
            free_blocks.push_back(i);
            proof {
                assert(free_blocks@ =~= Seq::new((i + 1) as nat, |j: int| j as u32));
            }
            i = i + 1;
        }
        let used_blocks: FxHashMap<BlockId, KvPage> = fx_new_u32();
        let prefix_cache: FxHashMap<u64, Vec<BlockId>> = fx_new_u64();
        let m = BlockManager {
            num_layers,
            num_kv_heads,
            head_dim,
            block_size,
            free_blocks,
            used_blocks,
            prefix_cache,
            total: Ghost(n as nat),
        };
        proof {
            assert(m.prefix_map() =~= Map::<u64, Seq<BlockId>>::empty());
        }
        m
    }

    /// Total physical blocks available.
    pub fn capacity(&self) -> (r: usize)
        requires
            self.wf(),
        ensures
            r == self.free_list().len() + self.pages().len(),
            r == self.num_blocks(),
    {
        self.free_blocks.len() + fx_len_u32(&self.used_blocks)
    }

    /// Free blocks remaining.
    pub fn free_count(&self) -> (r: usize)
        ensures
            r == self.free_list().len(),
    {
        self.free_blocks.len()
    }

    /// Allocate one fresh block (the head of the free list).  `None` when
    /// every block is in use.
    pub fn alloc_block(&mut self) -> (r: Option<BlockId>)
        requires
            old(self).wf(),
        ensures
            final(self).wf(),
            final(self).shape() == old(self).shape(),
            final(self).num_blocks() == old(self).num_blocks(),
            final(self).prefix_map() == old(self).prefix_map(),
            match r {
                None => {
                    &&& old(self).free_list().len() == 0
                    &&& final(self).free_list() == old(self).free_list()
                    &&& final(self).pages() == old(self).pages()
                },
                Some(id) => {
                    &&& old(self).free_list().len() > 0
                    &&& id == old(self).free_list()[0]
                    &&& final(self).free_list() == old(self).free_list().drop_first()
                    &&& final(self).pages() == old(self).pages().insert(id, fresh_page(id))
                },
            },
    {
        let ghost old_free = self.free_blocks@;
        let ghost old_used = self.used_blocks@;
        let id = match self.free_blocks.pop_front() {
            Some(id) => id,
            None => return None,
        };
        let page = KvPage { block_id: id, used_slots: 0, ref_count: 1, token_hash: 0 };
        fx_insert_u32(&mut self.used_blocks, id, page);
        proof {
            assert(old_free[0] == id);
            assert(!old_used.contains_key(id));
            assert(self.free_blocks@ =~= old_free.drop_first());
            let free = self.free_blocks@;
            assert forall|i: int| 0 <= i < free.len() implies !self.used_blocks@.contains_key(#[trigger] free[i]) && free[i] < self.total@ by {
                assert(free[i] == old_free[i + 1]);
                assert(old_free[i + 1] != old_free[0]);
            }
            assert(self.used_blocks@.len() == old_used.len() + 1);
        }
        Some(id)
    }

    /// Allocate `n` blocks for a new sequence: the first `n` of the free
    /// list, or an error (with nothing changed) when fewer are free.
    pub fn alloc_seq(&mut self, n: usize) -> (r: Result<Vec<BlockId>, KvCacheError>)
        requires
            old(self).wf(),
        ensures
            final(self).wf(),
            final(self).shape() == old(self).shape(),
            final(self).num_blocks() == old(self).num_blocks(),
            final(self).prefix_map() == old(self).prefix_map(),
            match r {
                Err(e) => {
                    &&& old(self).free_list().len() < n
                    &&& e == KvCacheError::OutOfBlocks { needed: n, free: old(self).free_list().len() as usize }
                    &&& final(self).free_list() == old(self).free_list()
                    &&& final(self).pages() == old(self).pages()
                },
                Ok(v) => {
                    &&& n <= old(self).free_list().len()
                    &&& v@ == old(self).free_list().take(n as int)
                    &&& v@.no_duplicates()
                    &&& final(self).free_list() == old(self).free_list().skip(n as int)
                    &&& final(self).pages() == with_fresh_pages(old(self).pages(), v@)
                },
            },
    {
        let free_now = self.free_blocks.len();
        if free_now < n {
            return Err(KvCacheError::OutOfBlocks { needed: n, free: free_now });
        }
        let ghost old_free = self.free_blocks@;
        let ghost old_pages = self.used_blocks@;
        let mut out: Vec<BlockId> = Vec::new();
        let mut i: usize = 0;
        while i < n
            invariant
                self.wf(),
                self.shape() == old(self).shape(),
                self.total@ == old(self).total@,
                self.prefix_map() == old(self).prefix_map(),
                old_free == old(self).free_blocks@,
                old_pages == old(self).used_blocks@,
                n <= old_free.len(),
                i <= n,
                out@ == old_free.take(i as int),
                self.free_blocks@ == old_free.skip(i as int),
                self.used_blocks@ == with_fresh_pages(old_pages, out@),
            decreases n - i,
        {
            let ghost before = out@;
            let got = self.alloc_block();
            let id = match got {
                Some(id) => id,
                None => {
                    proof {
                        assert(self.free_blocks@.len() == old_free.len() - i);
                    }
                    return Err(KvCacheError::OutOfBlocks { needed: n, free: 0 });
                },
            };
            out.push(id);
            proof {
                assert(out@.drop_last() =~= before);
                assert(out@ =~= old_free.take(i + 1));
                assert(self.free_blocks@ =~= old_free.skip(i + 1));
            }
            i = i + 1;
        }
        proof {
            assert forall|a: int, b: int| 0 <= a < b < out@.len() implies out@[a] != out@[b] by {
                assert(out@[a] == old_free[a]);
                assert(out@[b] == old_free[b]);
            }
        }
        Ok(out)
    }

    /// Take one more reference on a block in use (nothing happens to a
    /// block that is free).
    pub fn incref(&mut self, id: BlockId)
        requires
            old(self).wf(),
            old(self).pages().contains_key(id) ==> old(self).pages()[id].ref_count < u32::MAX,
        ensures
            final(self).wf(),
            final(self).shape() == old(self).shape(),
            final(self).num_blocks() == old(self).num_blocks(),
            final(self).prefix_map() == old(self).prefix_map(),
            final(self).free_list() == old(self).free_list(),
            final(self).pages() == incref_pages(old(self).pages(), id),
    {
        let current: Option<KvPage> = match fx_get_u32(&self.used_blocks, id) {
            Some(p) => Some(*p),
            None => None,
        };
        if let Some(p) = current {
            let page = KvPage { block_id: p.block_id, used_slots: p.used_slots, ref_count: p.ref_count + 1, token_hash: p.token_hash };
            fx_insert_u32(&mut self.used_blocks, id, page);
            proof {
                assert(self.used_blocks@.dom() =~= old(self).used_blocks@.dom());
            }
        }
    }

    /// Drop one reference on a block; a block whose last reference goes is
    /// appended to the free list.
    pub fn decref(&mut self, id: BlockId)
        requires
            old(self).wf(),
        ensures
            final(self).wf(),
            final(self).shape() == old(self).shape(),
            final(self).num_blocks() == old(self).num_blocks(),
            final(self).prefix_map() == old(self).prefix_map(),
            (final(self).free_list(), final(self).pages()) == decref_model(old(self).free_list(), old(self).pages(), id),
    {
        let current: Option<KvPage> = match fx_get_u32(&self.used_blocks, id) {
            Some(p) => Some(*p),
            None => None,
        };
        if let Some(p) = current {
            let rc = p.ref_count.saturating_sub(1);
            if rc == 0 {
                fx_remove_u32(&mut self.used_blocks, id);
                self.free_blocks.push_back(id);
                proof {
                    let free = self.free_blocks@;
                    let old_free = old(self).free_blocks@;
                    assert forall|i: int| 0 <= i < old_free.len() implies old_free[i] != id by {}
                    assert forall|i: int| 0 <= i < free.len() implies !self.used_blocks@.contains_key(#[trigger] free[i]) && free[i] < self.total@ by {
                        if i < old_free.len() {
                            assert(free[i] == old_free[i]);
                        }
                    }
                    assert forall|a: int, b: int| 0 <= a < b < free.len() implies free[a] != free[b] by {
                        if b < old_free.len() {
                            assert(free[a] == old_free[a]);
                            assert(free[b] == old_free[b]);
                        } else {
                            assert(free[a] == old_free[a]);
                        }
                    }
                    assert(self.used_blocks@.len() == old(self).used_blocks@.len() - 1);
                }
            } else {
                let page = KvPage { block_id: p.block_id, used_slots: p.used_slots, ref_count: rc, token_hash: p.token_hash };
                fx_insert_u32(&mut self.used_blocks, id, page);
                proof {
                    assert(self.used_blocks@.dom() =~= old(self).used_blocks@.dom());
                }
            }
        }
    }

    /// Drop one reference on every block of a sequence's block table, in order.
    pub fn free_seq(&mut self, block_table: &[BlockId])
        requires
            old(self).wf(),
        ensures
            final(self).wf(),
            final(self).shape() == old(self).shape(),
            final(self).num_blocks() == old(self).num_blocks(),
            final(self).prefix_map() == old(self).prefix_map(),
            (final(self).free_list(), final(self).pages()) == free_seq_model(old(self).free_list(), old(self).pages(), block_table@),
    {
        let mut i: usize = 0;
        while i < block_table.len()
            invariant
                self.wf(),
                self.shape() == old(self).shape(),
                self.num_blocks() == old(self).num_blocks(),
                self.prefix_map() == old(self).prefix_map(),
                i <= block_table@.len(),
                (self.free_list(), self.pages()) == free_seq_model(old(self).free_list(), old(self).pages(), block_table@.take(i as int)),
            decreases block_table@.len() - i,
        {
            proof {
                assert(block_table@.take(i + 1).drop_last() =~= block_table@.take(i as int));
            }
            self.decref(block_table[i]);
            i = i + 1;
        }
        proof {
            assert(block_table@.take(block_table@.len() as int) =~= block_table@);
        }
    }

    /// The longest chain of cached blocks for the prefix of `token_ids`: the
    /// tokens are cut into chunks of `block_size` and the running hash of
    /// each chunk is looked up until the first miss.
    pub fn prefix_lookup(&self, token_ids: &[u32]) -> (r: Vec<BlockId>)
        requires
            self.tokens_per_block() > 0,
        ensures
            r@ == prefix_chain(self.prefix_map(), token_ids@, self.tokens_per_block() as nat, 0),
    {
        let bs = self.block_size;
        let ghost cache = self.prefix_map();
        let mut result: Vec<BlockId> = Vec::new();
        let mut hash: u64 = 0;
        let mut pos: usize = 0;
        proof {
            assert(token_ids@.skip(0) =~= token_ids@);
            assert(result@ + prefix_chain(cache, token_ids@, bs as nat, 0) =~= prefix_chain(cache, token_ids@, bs as nat, 0));
        }
        while pos < token_ids.len()
            invariant
                bs == self.block_size,
                bs > 0,
                cache == self.prefix_map(),
                pos <= token_ids@.len(),
                prefix_chain(cache, token_ids@, bs as nat, 0)
                    == result@ + prefix_chain(cache, token_ids@.skip(pos as int), bs as nat, hash),
            decreases token_ids@.len() - pos,
        {
            let remaining = token_ids.len() - pos;
            let n: usize = if remaining < bs { remaining } else { bs };
            let end = pos + n;
            let h2 = rolling_hash_range(hash, token_ids, pos, end);
            proof {
                lemma_chain_step(cache, token_ids@, bs as nat, hash, pos as int, end as int);
            }
            match fx_get_u64(&self.prefix_cache, h2) {
                Some(blocks) => {
                    let ghost before = result@;
                    append_all(&mut result, blocks);
                    proof {
                        assert(cache[h2] == blocks@);
                        assert(before + (blocks@ + prefix_chain(cache, token_ids@.skip(end as int), bs as nat, h2))
                            =~= result@ + prefix_chain(cache, token_ids@.skip(end as int), bs as nat, h2));
                    }
                    hash = h2;
                    pos = end;
                },
                None => {
                    proof {
                        assert(result@ + Seq::<BlockId>::empty() =~= result@);
                    }
                    return result;
                },
            }
        }
        proof {
            assert(result@ + Seq::<BlockId>::empty() =~= result@);
        }
        result
    }

    /// Register a completed block under the hash of the tokens it holds:
    /// the page (if the block is in use) records the hash and one more
    /// reference, and the block is appended to the prefix cache's list for
    /// that hash.
    pub fn register_prefix_block(&mut self, block_id: BlockId, token_hash: u64)
        requires
            old(self).wf(),
            old(self).pages().contains_key(block_id) ==> old(self).pages()[block_id].ref_count < u32::MAX,
        ensures
            final(self).wf(),
            final(self).shape() == old(self).shape(),
            final(self).num_blocks() == old(self).num_blocks(),
            final(self).free_list() == old(self).free_list(),
            final(self).pages() == (if old(self).pages().contains_key(block_id) {
                let p = old(self).pages()[block_id];
                old(self).pages().insert(block_id, KvPage { block_id: p.block_id, used_slots: p.used_slots, ref_count: (p.ref_count + 1) as u32, token_hash })
            } else {
                old(self).pages()
            }),
            final(self).prefix_map() == prefix_push(old(self).prefix_map(), token_hash, block_id),
    {
        let current: Option<KvPage> = match fx_get_u32(&self.used_blocks, block_id) {
            Some(p) => Some(*p),
            None => None,
        };
        if let Some(p) = current {
            let page = KvPage { block_id: p.block_id, used_slots: p.used_slots, ref_count: p.ref_count, token_hash };
            fx_insert_u32(&mut self.used_blocks, block_id, page);
            proof {
                assert(self.used_blocks@.dom() =~= old(self).used_blocks@.dom());
            }
        }
        let ghost old_cache = self.prefix_cache@;
        let mut list: Vec<BlockId> = match fx_remove_u64(&mut self.prefix_cache, token_hash) {
            Some(v) => v,
            None => Vec::new(),
        };
        list.push(block_id);
        fx_insert_u64(&mut self.prefix_cache, token_hash, list);
        proof {
            assert(self.prefix_map() =~= prefix_push(old(self).prefix_map(), token_hash, block_id));
        }
        self.incref(block_id);
    }
}

/// Append every element of `src` to `dst`.
fn append_all(dst: &mut Vec<BlockId>, src: &Vec<BlockId>)
    ensures
        final(dst)@ == old(dst)@ + src@,
{
    let mut j: usize = 0;
    while j < src.len()
        invariant
            j <= src@.len(),
            dst@ == old(dst)@ + src@.take(j as int),
        decreases src@.len() - j,
    {
        dst.push(src[j]);
        proof {
            assert(dst@ =~= old(dst)@ + src@.take(j + 1));
        }
        j = j + 1;
    }
    proof {
        assert(src@.take(src@.len() as int) =~= src@);
    }
}

/// One step of the prefix chain at `pos`: the chunk `tokens[pos..end]` is
/// hashed on from `h`; on a hit its blocks come first, on a miss the chain ends.
proof fn lemma_chain_step(cache: Map<u64, Seq<BlockId>>, tokens: Seq<u32>, bs: nat, h: u64, pos: int, end: int)
    requires
        bs > 0,
        0 <= pos < end <= tokens.len(),
        end == pos + (if tokens.len() - pos < bs { tokens.len() - pos } else { bs as int }),
    ensures ({
        let h2 = spec_rolling_hash(h, tokens.subrange(pos, end));
        prefix_chain(cache, tokens.skip(pos), bs, h) == (if cache.contains_key(h2) {
            cache[h2] + prefix_chain(cache, tokens.skip(end), bs, h2)
        } else {
            Seq::empty()
        })
    }),
{
    let rest = tokens.skip(pos);
    let n = end - pos;
    assert(rest.take(n) =~= tokens.subrange(pos, end));
    assert(rest.skip(n) =~= tokens.skip(end));
}

// ── Laws ─────────────────────────────────────────────────────────────────────

/// Capacity never changes: in every well-formed state the free blocks and
/// the blocks in use together are exactly the blocks the manager was made
/// with, and every block id is below that number.
pub proof fn capacity_is_conserved(m: &BlockManager)
    requires
        m.wf(),
    ensures
        m.free_list().len() + m.pages().len() == m.num_blocks(),
        forall|i: int| 0 <= i < m.free_list().len() ==> #[trigger] m.free_list()[i] < m.num_blocks()
            && !m.pages().contains_key(m.free_list()[i]),
        forall|b: BlockId| #[trigger] m.pages().contains_key(b) ==> b < m.num_blocks() && m.pages()[b].ref_count >= 1,
{
}

/// Capacity holds over any sequence of calls: when each call keeps the
/// manager well formed and its number of blocks (as every operation's
/// contract says), every state has the blocks the first one had, split
/// between the free list (each once) and the pages in use.
pub proof fn capacity_holds_over_calls(states: Seq<BlockManager>)
    requires
        states.len() > 0,
        states[0].wf(),
        forall|i: int| 0 <= i < states.len() - 1 ==> #[trigger] states[i + 1].wf()
            && states[i + 1].num_blocks() == states[i].num_blocks(),
    ensures
        forall|i: int| 0 <= i < states.len() ==> {
            let m = #[trigger] states[i];
            &&& m.num_blocks() == states[0].num_blocks()
            &&& m.free_list().len() + m.pages().len() == states[0].num_blocks()
            &&& m.free_list().no_duplicates()
            &&& forall|k: int| 0 <= k < m.free_list().len() ==> #[trigger] m.free_list()[k] < states[0].num_blocks()
                && !m.pages().contains_key(m.free_list()[k])
            &&& forall|b: BlockId| #[trigger] m.pages().contains_key(b) ==> b < states[0].num_blocks() && m.pages()[b].ref_count >= 1
        },
{
    assert forall|i: int| 0 <= i < states.len() implies {
        let m = #[trigger] states[i];
        &&& m.num_blocks() == states[0].num_blocks()
        &&& m.free_list().len() + m.pages().len() == states[0].num_blocks()
        &&& m.free_list().no_duplicates()
        &&& forall|k: int| 0 <= k < m.free_list().len() ==> #[trigger] m.free_list()[k] < states[0].num_blocks()
            && !m.pages().contains_key(m.free_list()[k])
        &&& forall|b: BlockId| #[trigger] m.pages().contains_key(b) ==> b < states[0].num_blocks() && m.pages()[b].ref_count >= 1
    } by {
        lemma_states_keep_blocks(states, i);
        let m = states[i];
        assert(m.wf());
        assert(m.free_list().no_duplicates());
        capacity_is_conserved(&m);
    }
}

proof fn lemma_states_keep_blocks(states: Seq<BlockManager>, i: int)
    requires
        0 <= i < states.len(),
        states[0].wf(),
        forall|j: int| 0 <= j < states.len() - 1 ==> #[trigger] states[j + 1].wf()
            && states[j + 1].num_blocks() == states[j].num_blocks(),
    ensures
        states[i].wf(),
        states[i].num_blocks() == states[0].num_blocks(),
    decreases i,
{
    if i > 0 {
        lemma_states_keep_blocks(states, i - 1);
        assert(states[(i - 1) + 1].wf());
    }
}

/// A block that was just allocated and is released again returns to the
/// tail of the free list, and the page table is as it was before.
pub proof fn alloc_then_decref(free: Seq<BlockId>, pages: Map<BlockId, KvPage>)
    requires
        free.len() > 0,
        !pages.contains_key(free[0]),
    ensures
        decref_model(free.drop_first(), pages.insert(free[0], fresh_page(free[0])), free[0])
            == (free.drop_first().push(free[0]), pages),
{
    let id = free[0];
    assert(pages.insert(id, fresh_page(id)).remove(id) =~= pages);
}

/// Releasing a block table that holds each of its blocks once, right after
/// `alloc_seq` handed those blocks out, puts them back on the free list in
/// table order and leaves the page table as it was.
pub proof fn alloc_seq_then_free_seq(free: Seq<BlockId>, pages: Map<BlockId, KvPage>, table: Seq<BlockId>)
    requires
        table.no_duplicates(),
        forall|i: int| 0 <= i < table.len() ==> !pages.contains_key(#[trigger] table[i]),
    ensures
        free_seq_model(free, with_fresh_pages(pages, table), table)
            == (free + table, pages),
{
    lemma_release_prefix(free, pages, table, table.len() as int);
    assert(table.take(table.len() as int) =~= table);
    assert(table.skip(table.len() as int) =~= Seq::<BlockId>::empty());
}

/// Releasing the first `k` blocks of a freshly allocated table leaves the
/// others' pages fresh and returns the first `k` to the free list.
proof fn lemma_release_prefix(free: Seq<BlockId>, pages: Map<BlockId, KvPage>, table: Seq<BlockId>, k: int)
    requires
        table.no_duplicates(),
        forall|i: int| 0 <= i < table.len() ==> !pages.contains_key(#[trigger] table[i]),
        0 <= k <= table.len(),
    ensures
        free_seq_model(free, with_fresh_pages(pages, table), table.take(k))
            == (free + table.take(k), with_fresh_pages(pages, table.skip(k))),
    decreases k,
{
    if k == 0 {
        assert(table.take(0) =~= Seq::<BlockId>::empty());
        assert(table.skip(0) =~= table);
        assert(free + table.take(0) =~= free);
    } else {
        lemma_release_prefix(free, pages, table, k - 1);
        assert(table.take(k).drop_last() =~= table.take(k - 1));
        let id = table[k - 1];
        let rest = table.skip(k);
        let before = with_fresh_pages(pages, table.skip(k - 1));
        lemma_fresh_pages_front(pages, table.skip(k - 1));
        assert(table.skip(k - 1).drop_first() =~= rest);
        assert(table.skip(k - 1)[0] == id);
        lemma_fresh_pages_has(pages, rest, id);
        assert(before == with_fresh_pages(pages, rest).insert(id, fresh_page(id)));
        assert(!with_fresh_pages(pages, rest).contains_key(id)) by {
            assert forall|j: int| 0 <= j < rest.len() implies rest[j] != id by {
                assert(rest[j] == table[k + j]);
            }
            lemma_fresh_pages_has(pages, rest, id);
        }
        assert(before.remove(id) =~= with_fresh_pages(pages, rest));
        assert((free + table.take(k - 1)).push(id) =~= free + table.take(k));
    }
}

/// What the fresh-page table holds: the given pages plus a fresh page for
/// each listed id.
proof fn lemma_fresh_pages_has(pages: Map<BlockId, KvPage>, ids: Seq<BlockId>, b: BlockId)
    ensures
        with_fresh_pages(pages, ids).contains_key(b) <==> (pages.contains_key(b) || ids.contains(b)),
        ids.contains(b) ==> with_fresh_pages(pages, ids)[b] == fresh_page(b),
        !ids.contains(b) && pages.contains_key(b) ==> with_fresh_pages(pages, ids)[b] == pages[b],
    decreases ids.len(),
{
    if ids.len() > 0 {
        lemma_fresh_pages_has(pages, ids.drop_last(), b);
        assert(ids.contains(b) <==> (ids.drop_last().contains(b) || ids.last() == b)) by {
            if ids.contains(b) {
                let j = choose|j: int| 0 <= j < ids.len() && ids[j] == b;
                if j < ids.len() - 1 {
                    assert(ids.drop_last()[j] == b);
                }
            }
            if ids.drop_last().contains(b) {
                let j = choose|j: int| 0 <= j < ids.drop_last().len() && ids.drop_last()[j] == b;
                assert(ids[j] == b);
            }
        }
    }
}

/// Fresh pages for a table are fresh pages for its tail plus one for its head.
proof fn lemma_fresh_pages_front(pages: Map<BlockId, KvPage>, ids: Seq<BlockId>)
    requires
        ids.len() > 0,
    ensures
        with_fresh_pages(pages, ids) == with_fresh_pages(pages, ids.drop_first()).insert(ids[0], fresh_page(ids[0])),
    decreases ids.len(),
{
    if ids.len() == 1 {
        assert(ids.drop_first() =~= Seq::<BlockId>::empty());
        assert(ids.drop_last() =~= Seq::<BlockId>::empty());
    } else {
        let a = ids[0];
        let l = ids.last();
        lemma_fresh_pages_front(pages, ids.drop_last());
        assert(ids.drop_last().drop_first() =~= ids.drop_first().drop_last());
        assert(ids.drop_last()[0] == a);
        assert(ids.drop_first().last() == l);
        let m = with_fresh_pages(pages, ids.drop_first().drop_last());
        assert(m.insert(a, fresh_page(a)).insert(l, fresh_page(l)) =~= m.insert(l, fresh_page(l)).insert(a, fresh_page(a)));
    }
}

/// Where the `i`-th chunk of `bs` tokens ends in a sequence of `len` tokens.
pub open spec fn chunk_end(len: nat, bs: nat, i: nat) -> int {
    if i * bs < len { (i * bs) as int } else { len as int }
}

/// The running hash after the first `i` chunks of `tokens`.
pub open spec fn chain_hash(tokens: Seq<u32>, bs: nat, i: nat) -> u64
    decreases i,
{
    if i == 0 {
        0
    } else {
        spec_rolling_hash(
            chain_hash(tokens, bs, (i - 1) as nat),
            tokens.subrange(chunk_end(tokens.len(), bs, (i - 1) as nat), chunk_end(tokens.len(), bs, i)),
        )
    }
}

/// The blocks registered under the hashes of the first `j` chunks, in order.
pub open spec fn chain_blocks(cache: Map<u64, Seq<BlockId>>, tokens: Seq<u32>, bs: nat, j: nat) -> Seq<BlockId>
    decreases j,
{
    if j == 0 {
        Seq::empty()
    } else {
        chain_blocks(cache, tokens, bs, (j - 1) as nat) + cache[chain_hash(tokens, bs, j)]
    }
}

proof fn lemma_chain_prefix(cache: Map<u64, Seq<BlockId>>, tokens: Seq<u32>, bs: nat, j: nat)
    requires
        bs > 0,
        j == 0 || (j - 1) * bs < tokens.len(),
        forall|i: nat| 1 <= i <= j ==> cache.contains_key(#[trigger] chain_hash(tokens, bs, i)),
    ensures
        prefix_chain(cache, tokens, bs, 0) == chain_blocks(cache, tokens, bs, j)
            + prefix_chain(cache, tokens.skip(chunk_end(tokens.len(), bs, j)), bs, chain_hash(tokens, bs, j)),
    decreases j,
{
    if j == 0 {
        assert(tokens.skip(0) =~= tokens);
        assert(Seq::<BlockId>::empty() + prefix_chain(cache, tokens, bs, 0) =~= prefix_chain(cache, tokens, bs, 0));
    } else {
        let k = (j - 1) as nat;
        if k > 0 {
            assert((k - 1) * bs < tokens.len()) by (nonlinear_arith)
                requires
                    k * bs < tokens.len(),
                    bs > 0,
                    k > 0,
            ;
        }
        lemma_chain_prefix(cache, tokens, bs, k);
        let p = chunk_end(tokens.len(), bs, k);
        let e = chunk_end(tokens.len(), bs, j);
        assert(p == k * bs);
        assert(j * bs == k * bs + bs) by (nonlinear_arith)
            requires
                j == k + 1,
        ;
        lemma_chain_step(cache, tokens, bs, chain_hash(tokens, bs, k), p, e);
        let h2 = chain_hash(tokens, bs, j);
        assert(cache.contains_key(h2));
        let rest = prefix_chain(cache, tokens.skip(e), bs, h2);
        assert(chain_blocks(cache, tokens, bs, k) + (cache[h2] + rest) =~= chain_blocks(cache, tokens, bs, j) + rest);
    }
}

/// A prefix lookup yields the whole registered hash chain: with the tokens
/// cut into chunks of `bs` and `h_i` the running hash of the first `i`
/// chunks, it is the blocks registered under `h_1 .. h_j`, in order, where
/// `j` is the number of chunks whose hashes are all registered (all of
/// them, or up to the first that is not).
pub proof fn prefix_lookup_is_the_registered_chain(cache: Map<u64, Seq<BlockId>>, tokens: Seq<u32>, bs: nat, j: nat)
    requires
        bs > 0,
        j == 0 || (j - 1) * bs < tokens.len(),
        forall|i: nat| 1 <= i <= j ==> cache.contains_key(#[trigger] chain_hash(tokens, bs, i)),
        j * bs >= tokens.len() || !cache.contains_key(chain_hash(tokens, bs, j + 1)),
    ensures
        prefix_chain(cache, tokens, bs, 0) == chain_blocks(cache, tokens, bs, j),
{
    lemma_chain_prefix(cache, tokens, bs, j);
    let p = chunk_end(tokens.len(), bs, j);
    if j * bs >= tokens.len() {
        assert(tokens.skip(p).len() == 0);
    } else {
        assert(p == j * bs);
        assert((j + 1) * bs == j * bs + bs) by (nonlinear_arith);
        let e = chunk_end(tokens.len(), bs, j + 1);
        lemma_chain_step(cache, tokens, bs, chain_hash(tokens, bs, j), p, e);
    }
    assert(chain_blocks(cache, tokens, bs, j) + Seq::<BlockId>::empty() =~= chain_blocks(cache, tokens, bs, j));
}

/// Once a block list is registered under the hash of the first chunk of a
/// token sequence, a prefix lookup of that sequence yields that list first.
pub proof fn registered_prefix_is_found(cache: Map<u64, Seq<BlockId>>, tokens: Seq<u32>, bs: nat, blocks: Seq<BlockId>)
    requires
        bs > 0,
        tokens.len() > 0,
    ensures ({
        let n: int = if tokens.len() < bs { tokens.len() as int } else { bs as int };
        let h = spec_rolling_hash(0, tokens.take(n));
        prefix_chain(cache.insert(h, blocks), tokens, bs, 0).take(blocks.len() as int) == blocks
    }),
{
    let n: int = if tokens.len() < bs { tokens.len() as int } else { bs as int };
    let h = spec_rolling_hash(0, tokens.take(n));
    let c = cache.insert(h, blocks);
    assert(prefix_chain(c, tokens, bs, 0) == blocks + prefix_chain(c, tokens.skip(n), bs, h));
    assert((blocks + prefix_chain(c, tokens.skip(n), bs, h)).take(blocks.len() as int) =~= blocks);
}

} // verus!

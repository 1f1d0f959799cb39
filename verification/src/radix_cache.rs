//! RadixAttention prefix cache.
//!
//! The KV cache of every completed request is stored in a radix tree keyed by
//! token sequence.  A new request whose prefix matches a path of the tree
//! reuses the KV blocks stored along that path and skips their prefill.
//!
//! Each node holds the token slice on the edge from its parent, the KV block
//! ids stored at it, its children (at most one per first token), an access
//! stamp and a reference count.  Access stamps come from a logical clock that
//! ticks on every touch, so a larger stamp means a more recent access.
//! Eviction clears the blocks of the least recently used leaf.

use vstd::prelude::*;
use vstd::multiset::Multiset;
use crate::util::copy_range;

verus! {

pub type TokenId = u32;
pub type BlockId = u32;
pub type SeqId = u64;

// ── Radix node ───────────────────────────────────────────────────────────────

pub struct RadixNode {
    /// The token ids on the edge from this node's parent.
    edge: Vec<TokenId>,
    /// KV-cache block ids stored at this node.
    blocks: Vec<BlockId>,
    /// Children; their edges start with pairwise different tokens.
    children: Vec<RadixNode>,
    /// Logical time of the last access.
    last_access: u64,
    /// Number of active requests currently using this node's blocks.
    ref_count: u32,
}

/// How far a prefix matched and which blocks can be reused.
#[derive(Debug, Clone)]
pub struct MatchResult {
    /// How many tokens of the query prefix were matched.
    pub matched_len: usize,
    /// KV-cache block ids that can be reused (concatenated from all matched nodes).
    pub reuse_blocks: Vec<BlockId>,
}

impl MatchResult {
    fn empty() -> (r: Self)
        ensures
            r.matched_len == 0,
            r.reuse_blocks@ == Seq::<BlockId>::empty(),
    {
        MatchResult { matched_len: 0, reuse_blocks: Vec::new() }
    }
}

// ── Specification of the tree ────────────────────────────────────────────────

/// `x`, capped at `usize::MAX`.
pub open spec fn saturate(x: int) -> int {
    if x > usize::MAX { usize::MAX as int } else { x }
}

/// `k` is the index of a child whose edge starts with `t`.
pub closed spec fn child_starts(ch: Seq<RadixNode>, k: int, t: TokenId) -> bool {
    0 <= k < ch.len() && ch[k].edge@.len() > 0 && ch[k].edge@[0] == t
}

/// The index of the child whose edge starts with `t`, or -1.
pub closed spec fn child_for(ch: Seq<RadixNode>, t: TokenId) -> int {
    if exists|k: int| child_starts(ch, k, t) {
        choose|k: int| child_starts(ch, k, t)
    } else {
        -1
    }
}

/// `k` is the length of the longest common prefix of `a` and `b`.
pub closed spec fn is_common_len(a: Seq<TokenId>, b: Seq<TokenId>, k: int) -> bool {
    &&& 0 <= k <= a.len()
    &&& k <= b.len()
    &&& forall|j: int| 0 <= j < k ==> a[j] == b[j]
    &&& (k == a.len() || k == b.len() || a[k] != b[k])
}

/// The length of the longest common prefix of `a` and `b`.
pub closed spec fn common_len(a: Seq<TokenId>, b: Seq<TokenId>) -> int {
    choose|k: int| is_common_len(a, b, k)
}

/// What a lookup of `tokens[pos..]` below `node` yields: the number of
/// tokens matched and the blocks of every matched node.  At each step the
/// child whose edge starts with the next token is taken; a node whose edge
/// matches only partly contributes its blocks and ends the walk.
pub closed spec fn walk(node: RadixNode, tokens: Seq<TokenId>, pos: int) -> (int, Seq<BlockId>)
    decreases node,
{
    if pos < 0 || pos >= tokens.len() {
        (0, Seq::empty())
    } else {
        let k = child_for(node.children@, tokens[pos]);
        if 0 <= k < node.children.len() {
            let c = node.children[k];
            let m = common_len(c.edge@, tokens.skip(pos));
            if m <= 0 {
                (0, Seq::empty())
            } else if m < c.edge@.len() {
                (m, c.blocks@)
            } else {
                let r = walk(c, tokens, pos + m);
                (m + r.0, c.blocks@ + r.1)
            }
        } else {
            (0, Seq::empty())
        }
    }
}

/// Children have non-empty edges with pairwise different first tokens and
/// hold no references; the same holds below them.
pub closed spec fn node_wf(n: RadixNode) -> bool
    decreases n,
{
    &&& forall|k: int| 0 <= k < n.children.len() ==> (#[trigger] n.children[k]).edge@.len() > 0
    &&& forall|k: int| 0 <= k < n.children.len() ==> (#[trigger] n.children[k]).ref_count == 0
    &&& forall|i: int, j: int|
        0 <= i < j < n.children.len() ==> (#[trigger] n.children[i]).edge@[0] != (#[trigger] n.children[j]).edge@[0]
    &&& forall|k: int| 0 <= k < n.children.len() ==> node_wf(#[trigger] n.children[k])
}

/// `a` and `b` differ at most in their access stamps.
pub closed spec fn same_shape(a: RadixNode, b: RadixNode) -> bool
    decreases a,
{
    &&& a.edge@ == b.edge@
    &&& a.blocks@ == b.blocks@
    &&& a.ref_count == b.ref_count
    &&& a.children.len() == b.children.len()
    &&& forall|k: int| 0 <= k < a.children.len() ==> same_shape(#[trigger] a.children[k], b.children[k])
}

/// The number of blocks stored at `n` and below.
pub closed spec fn count_blocks(n: RadixNode) -> nat
    decreases n, 1nat, 0int,
{
    n.blocks@.len() + count_seq(n.children@, n.children@.len() as int)
}

/// The number of blocks stored in the first `i` subtrees of `s`.
pub closed spec fn count_seq(s: Seq<RadixNode>, i: int) -> nat
    decreases s, 0nat, i,
{
    if i <= 0 || i > s.len() {
        0
    } else {
        count_seq(s, i - 1) + count_blocks(s[i - 1])
    }
}

/// The node reached from `n` by following child indices `path`.
pub closed spec fn node_at(n: RadixNode, path: Seq<usize>) -> Option<RadixNode>
    decreases path.len(),
{
    if path.len() == 0 {
        Some(n)
    } else if path[0] < n.children.len() {
        node_at(n.children[path[0] as int], path.drop_first())
    } else {
        None
    }
}

/// A leaf: no children and some blocks to free.
pub closed spec fn is_leaf(n: RadixNode) -> bool {
    n.children.len() == 0 && n.blocks@.len() > 0
}

/// There is a leaf at `path` below `n`.
pub closed spec fn leaf_at(n: RadixNode, path: Seq<usize>) -> bool {
    node_at(n, path) matches Some(l) && is_leaf(l)
}

/// There is a leaf somewhere below `n`.
pub closed spec fn has_leaf(n: RadixNode) -> bool {
    exists|p: Seq<usize>| leaf_at(n, p)
}

/// The leaf at `path` is least recently used among all leaves below `n`.
pub closed spec fn is_lru_leaf(n: RadixNode, path: Seq<usize>) -> bool {
    &&& leaf_at(n, path)
    &&& forall|p: Seq<usize>| #[trigger] leaf_at(n, p) ==>
        node_at(n, path).unwrap().last_access <= node_at(n, p).unwrap().last_access
}

/// `b` is `a` with the blocks of the node at `path` cleared.
pub closed spec fn cleared_at(a: RadixNode, b: RadixNode, path: Seq<usize>) -> bool
    decreases path.len(),
{
    &&& b.edge@ == a.edge@
    &&& b.ref_count == a.ref_count
    &&& b.last_access == a.last_access
    &&& if path.len() == 0 {
        b.blocks@.len() == 0 && b.children@ == a.children@
    } else {
        &&& path[0] < a.children.len()
        &&& b.blocks@ == a.blocks@
        &&& b.children.len() == a.children.len()
        &&& forall|j: int| 0 <= j < a.children.len() && j != path[0] ==> #[trigger] b.children[j] == a.children[j]
        &&& cleared_at(a.children[path[0] as int], b.children[path[0] as int], path.drop_first())
    }
}

/// `b` is `a` after one eviction: the blocks of a least recently used leaf
/// are cleared.
pub closed spec fn evicts_one(a: RadixNode, b: RadixNode) -> bool {
    exists|path: Seq<usize>| is_lru_leaf(a, path) && cleared_at(a, b, path)
}

/// `b` is `a` after `n` evictions in a row, each one made while fewer than
/// `t` blocks had been freed by the ones before it.
pub closed spec fn evicts_while_short(a: RadixNode, b: RadixNode, n: nat, t: int) -> bool
    decreases n,
{
    if n == 0 {
        a == b
    } else {
        &&& t > 0
        &&& exists|m: RadixNode| evicts_one(a, m) && evicts_while_short(m, b, (n - 1) as nat, t - (count_blocks(a) - count_blocks(m)))
    }
}

/// The clock after one more tick (it stops at its maximum).
pub open spec fn tick(c: u64) -> u64 {
    if c == u64::MAX {
        c
    } else {
        (c + 1) as u64
    }
}

/// How the children `a` of a node become `b` when `tokens[pos..]` is
/// inserted below it with `blocks[blk..]`, `bs` tokens per block, while the
/// clock goes from `c0` to `c1`.  The child whose edge starts with the next
/// token is touched; if its whole edge matches, the insertion goes on below
/// it, one block per started `bs` tokens of the edge; if only a prefix
/// matches, the child is split into that prefix (touched, holding the next
/// blocks for it) over the rest of the edge (keeping the old blocks,
/// children and stamp), and the insertion goes on below the prefix.  With
/// no such child a new leaf of at most `bs` tokens and one block is added
/// last, and the insertion goes on below it.  It stops when the tokens or
/// the blocks run out.
pub closed spec fn inserted(
    a: Seq<RadixNode>,
    b: Seq<RadixNode>,
    tokens: Seq<TokenId>,
    blocks: Seq<BlockId>,
    pos: int,
    blk: int,
    bs: int,
    c0: u64,
    c1: u64,
) -> bool
    decreases tokens.len() - pos,
{
    if pos < 0 || pos >= tokens.len() || blk < 0 || blk >= blocks.len() || bs <= 0 {
        b == a && c1 == c0
    } else {
        let k = child_for(a, tokens[pos]);
        let t = tick(c0);
        if 0 <= k < a.len() {
            let c = a[k];
            let m = common_len(c.edge@, tokens.skip(pos));
            proof {
                lemma_common_len(c.edge@, tokens.skip(pos));
            }
            let nb = (m - 1) / bs + 1;
            let d = b[k];
            if m < 1 {
                false
            } else {
                &&& b.len() == a.len()
                &&& forall|j: int| 0 <= j < a.len() && j != k ==> b[j] == a[j]
                &&& d.ref_count == c.ref_count
                &&& d.last_access == t
                &&& if m == c.edge@.len() {
                    &&& d.edge@ == c.edge@
                    &&& d.blocks@ == c.blocks@
                    &&& inserted(c.children@, d.children@, tokens, blocks, pos + m, blk + nb, bs, t, c1)
                } else {
                    let s = d.children[0];
                    &&& d.edge@ == c.edge@.take(m)
                    &&& d.blocks@ == blocks.subrange(blk, if blk + nb < blocks.len() { blk + nb } else { blocks.len() as int })
                    &&& d.children.len() >= 1
                    &&& s.edge@ == c.edge@.skip(m)
                    &&& s.blocks@ == c.blocks@
                    &&& s.children@ == c.children@
                    &&& s.last_access == c.last_access
                    &&& s.ref_count == c.ref_count
                    &&& inserted(seq![s], d.children@, tokens, blocks, pos + m, blk + nb, bs, t, c1)
                }
            }
        } else {
            let chunk = if bs < tokens.len() - pos { bs } else { tokens.len() - pos };
            let leaf = b[a.len() as int];
            &&& b.len() == a.len() + 1
            &&& b.take(a.len() as int) == a
            &&& leaf.edge@ == tokens.subrange(pos, pos + chunk)
            &&& leaf.blocks@ == blocks.subrange(blk, blk + 1)
            &&& leaf.last_access == t
            &&& leaf.ref_count == 0
            &&& inserted(Seq::empty(), leaf.children@, tokens, blocks, pos + chunk, blk + 1, bs, t, c1)
        }
    }
}

/// `b` is the root `a` after inserting all of `tokens` with `blocks`, `bs`
/// tokens per block, the clock going from `c0` to `c1`: the root itself is
/// unchanged and its children change as `inserted` says.
pub closed spec fn inserted_root(a: RadixNode, b: RadixNode, tokens: Seq<TokenId>, blocks: Seq<BlockId>, bs: int, c0: u64, c1: u64) -> bool {
    &&& b.edge@ == a.edge@
    &&& b.blocks@ == a.blocks@
    &&& b.last_access == a.last_access
    &&& b.ref_count == a.ref_count
    &&& inserted(a.children@, b.children@, tokens, blocks, 0, 0, bs, c0, c1)
}

/// `b` is `a` after a lookup of `tokens[pos..]` below it, the clock going
/// from `c0` to `c1`: `a` is touched; the child whose edge starts with the
/// next token is touched if its edge matches at least one token, and the
/// lookup goes on below it (touching it again) if the whole edge matches.
/// Nothing but access stamps changes.
pub closed spec fn touched_path(a: RadixNode, b: RadixNode, tokens: Seq<TokenId>, pos: int, c0: u64, c1: u64) -> bool
    decreases tokens.len() - pos,
{
    let t = tick(c0);
    &&& b.edge@ == a.edge@
    &&& b.blocks@ == a.blocks@
    &&& b.ref_count == a.ref_count
    &&& b.last_access == t
    &&& if pos < 0 || pos >= tokens.len() {
        b.children@ == a.children@ && c1 == t
    } else {
        let k = child_for(a.children@, tokens[pos]);
        if 0 <= k < a.children.len() {
            let c = a.children[k];
            let d = b.children[k];
            let m = common_len(c.edge@, tokens.skip(pos));
            proof {
                lemma_common_len(c.edge@, tokens.skip(pos));
            }
            &&& b.children.len() == a.children.len()
            &&& forall|j: int| 0 <= j < a.children.len() && j != k ==> b.children[j] == a.children[j]
            &&& if m <= 0 {
                d == c && c1 == t
            } else if m < c.edge@.len() {
                &&& d.edge@ == c.edge@
                &&& d.blocks@ == c.blocks@
                &&& d.ref_count == c.ref_count
                &&& d.children@ == c.children@
                &&& d.last_access == tick(t)
                &&& c1 == tick(t)
            } else {
                touched_path(c, d, tokens, pos + m, tick(t), c1)
            }
        } else {
            b.children@ == a.children@ && c1 == t
        }
    }
}

// ── Lemmas ───────────────────────────────────────────────────────────────────

proof fn lemma_common_len_is(a: Seq<TokenId>, b: Seq<TokenId>, k: int)
    requires
        is_common_len(a, b, k),
    ensures
        common_len(a, b) == k,
{
    let c = common_len(a, b);
    assert(is_common_len(a, b, c));
    if c < k {
        assert(a[c] == b[c]);
    } else if k < c {
        assert(a[k] == b[k]);
    }
}

/// The common prefix length, counted from the front.
spec fn lcp(a: Seq<TokenId>, b: Seq<TokenId>) -> int
    decreases a.len(),
{
    if a.len() == 0 || b.len() == 0 || a[0] != b[0] {
        0
    } else {
        1 + lcp(a.drop_first(), b.drop_first())
    }
}

proof fn lemma_lcp(a: Seq<TokenId>, b: Seq<TokenId>)
    ensures
        is_common_len(a, b, lcp(a, b)),
    decreases a.len(),
{
    if !(a.len() == 0 || b.len() == 0 || a[0] != b[0]) {
        lemma_lcp(a.drop_first(), b.drop_first());
        let k = lcp(a, b);
        assert forall|j: int| 0 <= j < k implies a[j] == b[j] by {
            if j > 0 {
                assert(a.drop_first()[j - 1] == b.drop_first()[j - 1]);
            }
        }
        if k < a.len() && k < b.len() {
            assert(a.drop_first()[k - 1] != b.drop_first()[k - 1]);
        }
    }
}

/// The common prefix length is well defined.
proof fn lemma_common_len(a: Seq<TokenId>, b: Seq<TokenId>)
    ensures
        is_common_len(a, b, common_len(a, b)),
{
    lemma_lcp(a, b);
}

/// Children with pairwise different first tokens: the child for `t` is the
/// one that starts with `t`.
proof fn lemma_child_for_is(ch: Seq<RadixNode>, t: TokenId, k: int)
    requires
        child_starts(ch, k, t),
        forall|i: int, j: int| 0 <= i < j < ch.len() ==> (#[trigger] ch[i]).edge@[0] != (#[trigger] ch[j]).edge@[0],
    ensures
        child_for(ch, t) == k,
{
    let c = child_for(ch, t);
    assert(child_starts(ch, c, t));
    if c < k {
        assert(ch[c].edge@[0] != ch[k].edge@[0]);
    } else if k < c {
        assert(ch[k].edge@[0] != ch[c].edge@[0]);
    }
}

proof fn lemma_same_shape_refl(n: RadixNode)
    ensures
        same_shape(n, n),
    decreases n,
{
    assert forall|k: int| 0 <= k < n.children.len() implies same_shape(#[trigger] n.children[k], n.children[k]) by {
        lemma_same_shape_refl(n.children[k]);
    }
}

proof fn lemma_same_shape_trans(a: RadixNode, b: RadixNode, c: RadixNode)
    requires
        same_shape(a, b),
        same_shape(b, c),
    ensures
        same_shape(a, c),
    decreases a,
{
    assert forall|k: int| 0 <= k < a.children.len() implies same_shape(#[trigger] a.children[k], c.children[k]) by {
        lemma_same_shape_trans(a.children[k], b.children[k], c.children[k]);
    }
}

/// A walk matches between none and all of the remaining tokens.
proof fn lemma_walk_bounds(n: RadixNode, tokens: Seq<TokenId>, pos: int)
    ensures
        0 <= walk(n, tokens, pos).0,
        0 <= pos <= tokens.len() ==> walk(n, tokens, pos).0 <= tokens.len() - pos,
    decreases n,
{
    if 0 <= pos < tokens.len() {
        let k = child_for(n.children@, tokens[pos]);
        if 0 <= k < n.children.len() {
            let c = n.children[k];
            let m = common_len(c.edge@, tokens.skip(pos));
            lemma_common_len(c.edge@, tokens.skip(pos));
            if 0 < m && m >= c.edge@.len() {
                lemma_walk_bounds(c, tokens, pos + m);
            }
        }
    }
}

/// Updating one entry of a child list changes the block count of any
/// prefix that holds it by the difference of the two subtrees' counts.
proof fn lemma_count_seq_update(s: Seq<RadixNode>, k: int, x: RadixNode, i: int)
    requires
        0 <= k < s.len(),
        0 <= i <= s.len(),
    ensures
        k < i ==> count_seq(s.update(k, x), i) + count_blocks(s[k]) == count_seq(s, i) + count_blocks(x),
        i <= k ==> count_seq(s.update(k, x), i) == count_seq(s, i),
    decreases i,
{
    if i > 0 {
        lemma_count_seq_update(s, k, x, i - 1);
    }
}

/// Every node strictly below a well-formed node holds no references.
proof fn lemma_below_no_refs(n: RadixNode, path: Seq<usize>)
    requires
        node_wf(n),
        path.len() > 0,
        node_at(n, path) is Some,
    ensures
        node_at(n, path).unwrap().ref_count == 0,
    decreases path.len(),
{
    let c = n.children[path[0] as int];
    assert(node_wf(c));
    if path.len() > 1 {
        lemma_below_no_refs(c, path.drop_first());
    } else {
        assert(path.drop_first().len() == 0);
    }
}

/// Clearing the blocks of one node keeps the tree well formed.
proof fn lemma_cleared_wf(a: RadixNode, b: RadixNode, path: Seq<usize>)
    requires
        node_wf(a),
        cleared_at(a, b, path),
    ensures
        node_wf(b),
    decreases path.len(),
{
    if path.len() == 0 {
        assert forall|k: int| 0 <= k < b.children.len() implies #[trigger] b.children[k] == a.children[k] by {}
    } else {
        let p0 = path[0] as int;
        lemma_cleared_wf(a.children[p0], b.children[p0], path.drop_first());
        assert forall|k: int| 0 <= k < b.children.len() implies node_wf(#[trigger] b.children[k]) by {
            if k != p0 {
                assert(b.children[k] == a.children[k]);
            }
        }
        assert forall|k: int| 0 <= k < b.children.len() implies (#[trigger] b.children[k]).edge@ == a.children[k].edge@
            && b.children[k].ref_count == a.children[k].ref_count by {
            if k != p0 {
                assert(b.children[k] == a.children[k]);
            } else {
                assert(cleared_at(a.children[k], b.children[k], path.drop_first()));
            }
        }
    }
}

/// Clearing the blocks of one node lowers the block count by exactly the
/// blocks it held.
proof fn lemma_cleared_count(a: RadixNode, b: RadixNode, path: Seq<usize>)
    requires
        cleared_at(a, b, path),
    ensures
        node_at(a, path) is Some,
        count_blocks(b) + node_at(a, path).unwrap().blocks@.len() == count_blocks(a),
    decreases path.len(),
{
    if path.len() == 0 {
        assert(b.children@ == a.children@);
    } else {
        let p0 = path[0] as int;
        lemma_cleared_count(a.children[p0], b.children[p0], path.drop_first());
        assert(b.children@ =~= a.children@.update(p0, b.children[p0]));
        lemma_count_seq_update(a.children@, p0, b.children[p0], a.children@.len() as int);
    }
}

/// Which child a token leads to depends only on the children's edges.
proof fn lemma_child_for_same_edges(a: Seq<RadixNode>, b: Seq<RadixNode>, t: TokenId)
    requires
        a.len() == b.len(),
        forall|k: int| 0 <= k < a.len() ==> (#[trigger] a[k]).edge@ == b[k].edge@,
        forall|i: int, j: int| 0 <= i < j < a.len() ==> (#[trigger] a[i]).edge@[0] != (#[trigger] a[j]).edge@[0],
    ensures
        child_for(a, t) == child_for(b, t),
{
    if exists|k: int| child_starts(a, k, t) {
        let k = choose|k: int| child_starts(a, k, t);
        assert(child_starts(b, k, t));
        lemma_child_for_is(a, t, k);
        assert forall|i: int, j: int| 0 <= i < j < b.len() implies (#[trigger] b[i]).edge@[0] != (#[trigger] b[j]).edge@[0] by {
            assert(a[i].edge@[0] != a[j].edge@[0]);
        }
        lemma_child_for_is(b, t, k);
    } else {
        assert forall|k: int| !child_starts(b, k, t) by {
            if child_starts(b, k, t) {
                assert(child_starts(a, k, t));
            }
        }
    }
}

/// Clearing blocks never changes how many tokens a lookup matches.
proof fn lemma_cleared_walk(a: RadixNode, b: RadixNode, path: Seq<usize>, tokens: Seq<TokenId>, pos: int)
    requires
        node_wf(a),
        cleared_at(a, b, path),
    ensures
        walk(b, tokens, pos).0 == walk(a, tokens, pos).0,
    decreases a,
{
    if 0 <= pos < tokens.len() {
        if path.len() == 0 {
            assert(b.children@ == a.children@);
        } else {
            let p0 = path[0] as int;
            assert forall|k: int| 0 <= k < a.children.len() implies (#[trigger] a.children@[k]).edge@ == b.children@[k].edge@ by {
                if k != p0 {
                    assert(b.children[k] == a.children[k]);
                } else {
                    assert(cleared_at(a.children[k], b.children[k], path.drop_first()));
                }
            }
            lemma_child_for_same_edges(a.children@, b.children@, tokens[pos]);
            let k = child_for(a.children@, tokens[pos]);
            if 0 <= k < a.children.len() {
                let m = common_len(a.children[k].edge@, tokens.skip(pos));
                if k == p0 {
                    lemma_cleared_walk(a.children[p0], b.children[p0], path.drop_first(), tokens, pos + m);
                } else {
                    assert(b.children[k] == a.children[k]);
                }
            }
        }
    }
}

/// Lookups only read the shape of the tree, so trees that differ only in
/// access stamps answer every lookup alike.
proof fn lemma_same_shape_walk(a: RadixNode, b: RadixNode, tokens: Seq<TokenId>, pos: int)
    requires
        node_wf(a),
        same_shape(a, b),
    ensures
        walk(b, tokens, pos) == walk(a, tokens, pos),
    decreases a,
{
    if 0 <= pos < tokens.len() {
        assert forall|k: int| 0 <= k < a.children.len() implies (#[trigger] a.children@[k]).edge@ == b.children@[k].edge@ by {
            assert(same_shape(a.children[k], b.children[k]));
        }
        lemma_child_for_same_edges(a.children@, b.children@, tokens[pos]);
        let k = child_for(a.children@, tokens[pos]);
        if 0 <= k < a.children.len() {
            assert(same_shape(a.children[k], b.children[k]));
            assert(node_wf(a.children[k]));
            let m = common_len(a.children[k].edge@, tokens.skip(pos));
            lemma_same_shape_walk(a.children[k], b.children[k], tokens, pos + m);
        }
    }
}

proof fn lemma_same_shape_count(a: RadixNode, b: RadixNode)
    requires
        same_shape(a, b),
    ensures
        count_blocks(a) == count_blocks(b),
    decreases a, 1nat, 0int,
{
    assert forall|k: int| 0 <= k < a.children@.len() implies same_shape(#[trigger] a.children@[k], b.children@[k]) by {
        assert(same_shape(a.children[k], b.children[k]));
    }
    lemma_same_shape_count_seq(a.children@, b.children@, a.children@.len() as int);
}

proof fn lemma_same_shape_count_seq(s: Seq<RadixNode>, t: Seq<RadixNode>, i: int)
    requires
        s.len() == t.len(),
        0 <= i <= s.len(),
        forall|k: int| 0 <= k < s.len() ==> same_shape(#[trigger] s[k], t[k]),
    ensures
        count_seq(s, i) == count_seq(t, i),
    decreases s, 0nat, i,
{
    if i > 0 {
        lemma_same_shape_count_seq(s, t, i - 1);
        lemma_same_shape_count(s[i - 1], t[i - 1]);
    }
}

proof fn lemma_same_shape_sym(a: RadixNode, b: RadixNode)
    requires
        same_shape(a, b),
    ensures
        same_shape(b, a),
    decreases a,
{
    assert forall|k: int| 0 <= k < b.children.len() implies same_shape(#[trigger] b.children[k], a.children[k]) by {
        lemma_same_shape_sym(a.children[k], b.children[k]);
    }
}

/// A lookup's effect does not depend on the stamp the node had before.
proof fn lemma_touched_path_stamp(a: RadixNode, a2: RadixNode, b: RadixNode, tokens: Seq<TokenId>, pos: int, c0: u64, c1: u64)
    requires
        touched_path(a, b, tokens, pos, c0, c1),
        a2.edge@ == a.edge@,
        a2.blocks@ == a.blocks@,
        a2.ref_count == a.ref_count,
        a2.children == a.children,
    ensures
        touched_path(a2, b, tokens, pos, c0, c1),
{
}

// ── Executable helpers ───────────────────────────────────────────────────────

/// Length of the common prefix of `edge` and `tokens[pos..]`.
fn match_len(edge: &Vec<TokenId>, tokens: &[TokenId], pos: usize) -> (k: usize)
    requires
        pos <= tokens@.len(),
    ensures
        is_common_len(edge@, tokens@.skip(pos as int), k as int),
{
    let ghost b = tokens@.skip(pos as int);
    let mut k: usize = 0;
    while k < edge.len() && k < tokens.len() - pos && edge[k] == tokens[pos + k]
        invariant
            pos <= tokens@.len(),
            b == tokens@.skip(pos as int),
            k <= edge@.len(),
            pos + k <= tokens@.len(),
            forall|j: int| 0 <= j < k ==> edge@[j] == b[j],
        decreases edge@.len() - k,
    {
        k = k + 1;
    }
    k
}

/// Index of the child whose edge starts with `t`.
fn find_child(children: &Vec<RadixNode>, t: TokenId) -> (r: Option<usize>)
    ensures
        match r {
            Some(k) => child_starts(children@, k as int, t),
            None => forall|k: int| !child_starts(children@, k, t),
        },
{
    let mut i: usize = 0;
    while i < children.len()
        invariant
            i <= children@.len(),
            forall|k: int| 0 <= k < i ==> !child_starts(children@, k, t),
        decreases children@.len() - i,
    {
        let c = &children[i];
        if c.edge.len() > 0 && c.edge[0] == t {
            return Some(i);
        }
        i = i + 1;
    }
    None
}

/// Mark `node` as accessed now.
fn touch(node: &mut RadixNode, clock: &mut u64)
    ensures
        *final(clock) == tick(*old(clock)),
        final(node).last_access == *final(clock),
        final(node).edge == old(node).edge,
        final(node).blocks == old(node).blocks,
        final(node).children == old(node).children,
        final(node).ref_count == old(node).ref_count,
{
    *clock = clock.saturating_add(1);
    node.last_access = *clock;
}

/// Walk below `node` matching `tokens[pos..]`; the matched nodes are touched.
fn lookup_at(node: &mut RadixNode, tokens: &[TokenId], pos: usize, result: &mut MatchResult, clock: &mut u64)
    requires
        node_wf(*old(node)),
        pos <= tokens@.len(),
        old(result).matched_len == pos,
    ensures
        node_wf(*final(node)),
        same_shape(*final(node), *old(node)),
        touched_path(*old(node), *final(node), tokens@, pos as int, *old(clock), *final(clock)),
        final(result).matched_len == pos + walk(*old(node), tokens@, pos as int).0,
        final(result).reuse_blocks@ == old(result).reuse_blocks@ + walk(*old(node), tokens@, pos as int).1,
    decreases tokens@.len() - pos,
{
    let ghost orig = *node;
    touch(node, clock);
    proof {
        lemma_same_shape_refl(orig);
        assert(result.reuse_blocks@ + Seq::<BlockId>::empty() =~= result.reuse_blocks@);
    }
    if pos >= tokens.len() {
        return;
    }
    let first = tokens[pos];
    let found = find_child(&node.children, first);
    let k = match found {
        Some(k) => k,
        None => {
            return;
        },
    };
    proof {
        lemma_child_for_is(orig.children@, first, k as int);
    }
    let mut child = node.children.remove(k);
    let ghost c0 = child;
    assert(c0 == orig.children[k as int]);
    let m = match_len(&child.edge, tokens, pos);
    proof {
        lemma_common_len_is(c0.edge@, tokens@.skip(pos as int), m as int);
    }
    if m == 0 {
        node.children.insert(k, child);
        proof {
            assert(node.children@ =~= orig.children@);
        }
        return;
    }
    result.matched_len = result.matched_len + m;
    let mut j: usize = 0;
    let ghost before = result.reuse_blocks@;
    while j < child.blocks.len()
        invariant
            j <= child.blocks@.len(),
            result.matched_len == pos + m,
            result.reuse_blocks@ == before + child.blocks@.take(j as int),
        decreases child.blocks@.len() - j,
    {
        result.reuse_blocks.push(child.blocks[j]);
        proof {
            assert(result.reuse_blocks@ =~= before + child.blocks@.take(j + 1));
        }
        j = j + 1;
    }
    proof {
        assert(child.blocks@.take(child.blocks@.len() as int) =~= child.blocks@);
    }
    touch(&mut child, clock);
    proof {
        assert(node_wf(c0));
        assert(node_wf(child));
        lemma_same_shape_refl(c0);
        assert(same_shape(child, c0));
    }
    if m < child.edge.len() {
        node.children.insert(k, child);
        proof {
            assert(walk(orig, tokens@, pos as int) == (m as int, c0.blocks@));
            assert(node.children@ =~= orig.children@.update(k as int, child));
            assert forall|i: int| 0 <= i < node.children.len() implies same_shape(#[trigger] node.children[i], orig.children[i]) by {
                if i != k {
                    lemma_same_shape_refl(orig.children[i]);
                }
            }
        }
        return;
    }
    let ghost touched = child;
    let ghost mid = result.reuse_blocks@;
    lookup_at(&mut child, tokens, pos + m, result, clock);
    node.children.insert(k, child);
    proof {
        lemma_touched_path_stamp(touched, c0, child, tokens@, pos + m, touched.last_access, *clock);
        assert(walk(touched, tokens@, pos + m) == walk(c0, tokens@, pos + m));
        lemma_same_shape_trans(child, touched, c0);
        assert(node.children@ =~= orig.children@.update(k as int, child));
        assert forall|i: int| 0 <= i < node.children.len() implies same_shape(#[trigger] node.children[i], orig.children[i]) by {
            if i != k {
                lemma_same_shape_refl(orig.children[i]);
            }
        }
        assert(result.reuse_blocks@ =~= before + (c0.blocks@ + walk(c0, tokens@, pos + m).1));
    }
}

/// Insert `tokens[pos..]` below `node`, consuming `blocks[blk..]`, at a
/// granularity of `bs` tokens per block.  Returns how far into `tokens` the
/// insertion got: to the end of the tokens, or until the blocks ran out.
fn insert_at(
    node: &mut RadixNode,
    tokens: &[TokenId],
    blocks: &[BlockId],
    pos: usize,
    blk: usize,
    bs: usize,
    clock: &mut u64,
) -> (r: usize)
    requires
        node_wf(*old(node)),
        bs > 0,
        blk <= pos <= tokens@.len(),
    ensures
        node_wf(*final(node)),
        final(node).edge@ == old(node).edge@,
        final(node).blocks@ == old(node).blocks@,
        final(node).ref_count == old(node).ref_count,
        final(node).last_access == old(node).last_access,
        inserted(old(node).children@, final(node).children@, tokens@, blocks@, pos as int, blk as int, bs as int, *old(clock), *final(clock)),
        pos <= r <= tokens@.len(),
        r == tokens@.len() || r >= blocks@.len(),
        walk(*final(node), tokens@, pos as int).0 >= r - pos,
    decreases tokens@.len() - pos,
{
    proof {
        lemma_walk_bounds(*node, tokens@, pos as int);
    }
    if pos >= tokens.len() || blk >= blocks.len() {
        return pos;
    }
    let ghost orig = *node;
    let ghost clock0 = *clock;
    let first = tokens[pos];
    match find_child(&node.children, first) {
        Some(k) => {
            proof {
                lemma_child_for_is(orig.children@, first, k as int);
            }
            let mut child = node.children.remove(k);
            let ghost c0 = child;
            assert(c0 == orig.children[k as int]);
            let m = match_len(&child.edge, tokens, pos);
            proof {
                lemma_common_len_is(c0.edge@, tokens@.skip(pos as int), m as int);
                assert(tokens@.skip(pos as int)[0] == first);
                assert(m >= 1);
                assert(((m - 1) as usize) / bs <= (m - 1) as usize) by (nonlinear_arith)
                    requires m >= 1, bs >= 1;
            }
            let nb: usize = (m - 1) / bs + 1;
            if m == child.edge.len() {
                // The whole edge matches: descend.
                touch(&mut child, clock);
                let ghost touched = child;
                proof {
                    assert(node_wf(c0));
                    assert(node_wf(touched));
                }
                let r = insert_at(&mut child, tokens, blocks, pos + m, blk + nb, bs, clock);
                node.children.insert(k, child);
                proof {
                    assert(node.children@ =~= orig.children@.update(k as int, child));
                    lemma_child_for_is(node.children@, first, k as int);
                    lemma_common_len_is(child.edge@, tokens@.skip(pos as int), m as int);
                    assert(touched.children@ == c0.children@);
                    assert(inserted(orig.children@, node.children@, tokens@, blocks@, pos as int, blk as int, bs as int, clock0, *clock));
                }
                return r;
            }
            // The edge matches partly: split it after the common prefix.
            let prefix = copy_range(child.edge.as_slice(), 0, m);
            let suffix = copy_range(child.edge.as_slice(), m, child.edge.len());
            let take_end: usize = if nb < blocks.len() - blk { blk + nb } else { blocks.len() };
            let split_blocks = copy_range(blocks, blk, take_end);
            let RadixNode { edge: _, blocks: old_blocks, children: old_children, last_access, ref_count } = child;
            let suffix_node = RadixNode { edge: suffix, blocks: old_blocks, children: old_children, last_access, ref_count };
            proof {
                assert(suffix_node.children == c0.children);
                assert(node_wf(c0));
                assert(node_wf(suffix_node));
            }
            let mut new_children: Vec<RadixNode> = Vec::new();
            new_children.push(suffix_node);
            let mut split = RadixNode { edge: prefix, blocks: split_blocks, children: new_children, last_access, ref_count };
            touch(&mut split, clock);
            proof {
                assert(split.children[0] == suffix_node);
                assert(node_wf(split));
            }
            let ghost split0 = split;
            let r = insert_at(&mut split, tokens, blocks, pos + m, blk + nb, bs, clock);
            node.children.insert(k, split);
            proof {
                assert(split0.children@ == seq![suffix_node]);
                lemma_inserted_keeps_first(split0.children@, split.children@, tokens@, blocks@, (pos + m) as int, (blk + nb) as int, bs as int, tick(clock0), *clock);
                assert(split.children[0] == suffix_node);
                assert(suffix_node.edge@ == c0.edge@.skip(m as int));
                assert(split.edge@ == c0.edge@.take(m as int));
                assert(inserted(orig.children@, node.children@, tokens@, blocks@, pos as int, blk as int, bs as int, clock0, *clock));
                assert(node.children@ =~= orig.children@.update(k as int, split));
                assert(split.edge@[0] == c0.edge@[0]);
                lemma_child_for_is(node.children@, first, k as int);
                assert(is_common_len(split.edge@, tokens@.skip(pos as int), m as int));
                lemma_common_len_is(split.edge@, tokens@.skip(pos as int), m as int);
            }
            r
        },
        None => {
            // No child starts with this token: add a leaf of at most `bs` tokens.
            let remaining = tokens.len() - pos;
            let chunk: usize = if bs < remaining { bs } else { remaining };
            let edge = copy_range(tokens, pos, pos + chunk);
            let new_blocks = copy_range(blocks, blk, blk + 1);
            *clock = clock.saturating_add(1);
            let mut leaf = RadixNode { edge, blocks: new_blocks, children: Vec::new(), last_access: *clock, ref_count: 0 };
            proof {
                assert(node_wf(leaf));
            }
            let r = insert_at(&mut leaf, tokens, blocks, pos + chunk, blk + 1, bs, clock);
            node.children.push(leaf);
            proof {
                assert(node.children@.take(orig.children.len() as int) =~= orig.children@);
                assert(child_for(orig.children@, first) == -1);
                let n = orig.children.len() as int;
                assert(node.children@ =~= orig.children@.push(leaf));
                assert(leaf.edge@[0] == first);
                assert forall|i: int| 0 <= i < n implies (#[trigger] node.children[i]).edge@[0] != first by {
                    assert(!child_starts(orig.children@, i, first));
                }
                lemma_child_for_is(node.children@, first, n);
                assert(is_common_len(leaf.edge@, tokens@.skip(pos as int), chunk as int));
                lemma_common_len_is(leaf.edge@, tokens@.skip(pos as int), chunk as int);
            }
            r
        },
    }
}

/// Inserting below a node whose only child does not start with the next
/// token keeps that child first.
proof fn lemma_inserted_keeps_first(
    a: Seq<RadixNode>,
    b: Seq<RadixNode>,
    tokens: Seq<TokenId>,
    blocks: Seq<BlockId>,
    pos: int,
    blk: int,
    bs: int,
    c0: u64,
    c1: u64,
)
    requires
        inserted(a, b, tokens, blocks, pos, blk, bs, c0, c1),
        a.len() == 1,
        a[0].edge@.len() > 0,
        0 <= pos < tokens.len() ==> a[0].edge@[0] != tokens[pos],
    ensures
        b.len() >= 1,
        b[0] == a[0],
{
    if !(pos < 0 || pos >= tokens.len() || blk < 0 || blk >= blocks.len() || bs <= 0) {
        assert forall|k: int| !child_starts(a, k, tokens[pos]) by {}
        assert(child_for(a, tokens[pos]) == -1);
        assert(b.take(1)[0] == b[0]);
    }
}

/// The least recently used leaf below `node`, with its access stamp
/// (the first one found among equally old leaves).
fn find_lru(node: &RadixNode) -> (r: Option<(Vec<usize>, u64)>)
    ensures
        match r {
            None => !has_leaf(*node),
            Some((path, t)) => is_lru_leaf(*node, path@) && node_at(*node, path@).unwrap().last_access == t,
        },
    decreases node,
{
    if node.children.len() == 0 {
        if node.blocks.len() > 0 {
            let path: Vec<usize> = Vec::new();
            proof {
                assert forall|p: Seq<usize>| #[trigger] leaf_at(*node, p) implies p.len() == 0 by {}
                assert(leaf_at(*node, path@));
            }
            return Some((path, node.last_access));
        }
        proof {
            assert forall|p: Seq<usize>| !leaf_at(*node, p) by {}
        }
        return None;
    }
    let mut best: Option<(Vec<usize>, u64)> = None;
    let mut i: usize = 0;
    while i < node.children.len()
        invariant
            i <= node.children@.len(),
            node.children@.len() > 0,
            match best {
                None => forall|j: int, p: Seq<usize>| 0 <= j < i ==> !#[trigger] leaf_at(node.children[j], p),
                Some((path, t)) => {
                    &&& leaf_at(*node, path@)
                    &&& node_at(*node, path@).unwrap().last_access == t
                    &&& forall|j: int, p: Seq<usize>| 0 <= j < i && #[trigger] leaf_at(node.children[j], p)
                        ==> t <= node_at(node.children[j], p).unwrap().last_access
                },
            },
        decreases node.children@.len() - i,
    {
        let sub = find_lru(&node.children[i]);
        match sub {
            None => {},
            Some((p, t)) => {
                let better = match &best {
                    None => true,
                    Some((_, bt)) => t < *bt,
                };
                if better {
                    let mut full: Vec<usize> = Vec::new();
                    full.push(i);
                    let mut q: usize = 0;
                    while q < p.len()
                        invariant
                            q <= p@.len(),
                            full@ == seq![i] + p@.take(q as int),
                        decreases p@.len() - q,
                    {
                        full.push(p[q]);
                        proof {
                            assert(full@ =~= seq![i] + p@.take(q + 1));
                        }
                        q = q + 1;
                    }
                    proof {
                        assert(p@.take(p@.len() as int) =~= p@);
                        assert(full@.drop_first() =~= p@);
                        assert(node_at(*node, full@) == node_at(node.children[i as int], p@));
                    }
                    best = Some((full, t));
                }
            },
        }
        i = i + 1;
    }
    proof {
        assert forall|p: Seq<usize>| #[trigger] leaf_at(*node, p) implies
            p.len() > 0 && p[0] < node.children.len() && leaf_at(node.children[p[0] as int], p.drop_first())
            && node_at(*node, p) == node_at(node.children[p[0] as int], p.drop_first()) by {
        }
    }
    best
}

/// Clear the blocks of the node at `path[i..]` below `node`.
fn clear_at(node: &mut RadixNode, path: &Vec<usize>, i: usize)
    requires
        i <= path@.len(),
        node_at(*old(node), path@.skip(i as int)) is Some,
    ensures
        cleared_at(*old(node), *final(node), path@.skip(i as int)),
    decreases path@.len() - i,
{
    let ghost orig = *node;
    if i == path.len() {
        node.blocks.clear();
        return;
    }
    let j = path[i];
    proof {
        assert(path@.skip(i as int)[0] == j);
        assert(path@.skip(i as int).drop_first() =~= path@.skip(i + 1));
    }
    let mut c = node.children.remove(j);
    clear_at(&mut c, path, i + 1);
    node.children.insert(j, c);
    proof {
        assert(node.children@ =~= orig.children@.update(j as int, c));
    }
}

// ── The tree ─────────────────────────────────────────────────────────────────

struct RadixTree {
    root: RadixNode,
    /// Logical clock: ticks on every access.
    clock: u64,
}

impl RadixTree {
    /// The root is well formed and stores no blocks itself.
    closed spec fn wf(&self) -> bool {
        node_wf(self.root) && self.root.blocks@.len() == 0
    }

    fn new() -> (t: Self)
        ensures
            t.wf(),
            t.root.edge@ == Seq::<TokenId>::empty(),
            t.root.blocks@ == Seq::<BlockId>::empty(),
            t.root.children@.len() == 0,
            t.root.last_access == 0,
            t.root.ref_count == 0,
            t.clock == 0,
    {
        RadixTree {
            root: RadixNode { edge: Vec::new(), blocks: Vec::new(), children: Vec::new(), last_access: 0, ref_count: 0 },
            clock: 0,
        }
    }

    /// Walk the tree matching as much of `tokens` as possible; returns the
    /// blocks of every matched node.
    fn lookup(&mut self, tokens: &[TokenId]) -> (r: MatchResult)
        requires
            old(self).wf(),
        ensures
            final(self).wf(),
            same_shape(final(self).root, old(self).root),
            touched_path(old(self).root, final(self).root, tokens@, 0, old(self).clock, final(self).clock),
            r.matched_len == walk(old(self).root, tokens@, 0).0,
            r.reuse_blocks@ == walk(old(self).root, tokens@, 0).1,
    {
        let mut result = MatchResult::empty();
        lookup_at(&mut self.root, tokens, 0, &mut result, &mut self.clock);
        proof {
            assert(Seq::<BlockId>::empty() + walk(old(self).root, tokens@, 0).1 =~= walk(old(self).root, tokens@, 0).1);
        }
        result
    }

    /// Insert a completed sequence's KV blocks, `block_size` tokens per block.
    fn insert(&mut self, tokens: &[TokenId], blocks: &[BlockId], block_size: usize)
        requires
            old(self).wf(),
            block_size > 0,
        ensures
            final(self).wf(),
            walk(final(self).root, tokens@, 0).0 >= (if tokens@.len() < blocks@.len() { tokens@.len() } else { blocks@.len() }),
            final(self).root.edge@ == old(self).root.edge@,
            final(self).root.blocks@ == old(self).root.blocks@,
            final(self).root.last_access == old(self).root.last_access,
            final(self).root.ref_count == old(self).root.ref_count,
            inserted(old(self).root.children@, final(self).root.children@, tokens@, blocks@, 0, 0, block_size as int, old(self).clock, final(self).clock),
    {
        let r = insert_at(&mut self.root, tokens, blocks, 0, 0, block_size, &mut self.clock);
    }

    /// The total number of blocks stored in the tree (saturating).
    fn total_blocks(&self) -> (r: usize)
        ensures
            r as int == saturate(count_blocks(self.root) as int),
    {
        Self::count_blocks(&self.root)
    }

    /// Blocks stored at `node` and below (saturating).
    fn count_blocks(node: &RadixNode) -> (r: usize)
        ensures
            r as int == saturate(count_blocks(*node) as int),
        decreases node,
    {
        let mut n: usize = node.blocks.len();
        let mut i: usize = 0;
        while i < node.children.len()
            invariant
                i <= node.children@.len(),
                n as int == saturate((node.blocks@.len() + count_seq(node.children@, i as int)) as int),
            decreases node.children@.len() - i,
        {
            let c = Self::count_blocks(&node.children[i]);
            n = n.saturating_add(c);
            i = i + 1;
        }
        n
    }

    /// The least recently used leaf, if any.
    fn lru_leaf(&self) -> (r: Option<Vec<usize>>)
        ensures
            match r {
                None => !has_leaf(self.root),
                Some(path) => is_lru_leaf(self.root, path@),
            },
    {
        match find_lru(&self.root) {
            Some((path, _)) => Some(path),
            None => None,
        }
    }

    /// Evict the leaf at `path` if nobody references it; returns how many
    /// blocks were freed.
    fn evict_at(&mut self, path: &Vec<usize>) -> (freed: usize)
        requires
            old(self).wf(),
            is_lru_leaf(old(self).root, path@),
        ensures
            final(self).wf(),
            evicts_one(old(self).root, final(self).root),
            count_blocks(final(self).root) + freed == count_blocks(old(self).root),
            freed > 0,
            final(self).clock == old(self).clock,
    {
        let ghost orig = self.root;
        proof {
            if path@.len() == 0 {
                assert(node_at(orig, path@) == Some(orig));
            }
            lemma_below_no_refs(orig, path@);
            assert(path@.skip(0) =~= path@);
        }
        let (rc, len) = Self::leaf_info(&self.root, path, 0);
        let freed = if rc == 0 {
            clear_at(&mut self.root, path, 0);
            len
        } else {
            0
        };
        proof {
            lemma_cleared_wf(orig, self.root, path@);
            lemma_cleared_count(orig, self.root, path@);
            assert(cleared_at(orig, self.root, path@));
        }
        freed
    }

    /// Reference count and block count of the node at `path[i..]`.
    fn leaf_info(node: &RadixNode, path: &Vec<usize>, i: usize) -> (r: (u32, usize))
        requires
            i <= path@.len(),
            node_at(*node, path@.skip(i as int)) is Some,
        ensures
            r.0 == node_at(*node, path@.skip(i as int)).unwrap().ref_count,
            r.1 == node_at(*node, path@.skip(i as int)).unwrap().blocks@.len(),
        decreases path@.len() - i,
    {
        if i == path.len() {
            return (node.ref_count, node.blocks.len());
        }
        proof {
            assert(path@.skip(i as int).drop_first() =~= path@.skip(i + 1));
        }
        Self::leaf_info(&node.children[path[i]], path, i + 1)
    }
}

// ── Public manager ───────────────────────────────────────────────────────────

/// RadixAttention cache manager: the tree, the tokens per block, and the
/// block budget above which inserts evict.
pub struct RadixCacheManager {
    tree: RadixTree,
    /// Tokens per KV block.
    block_size: usize,
    /// Evict when the total number of blocks exceeds this.
    max_blocks: usize,
}

impl RadixCacheManager {
    /// The root of the tree.
    pub closed spec fn root(&self) -> RadixNode {
        self.tree.root
    }

    /// The logical clock that stamps accesses.
    pub closed spec fn clock(&self) -> u64 {
        self.tree.clock
    }

    /// Tokens per block and block budget.
    pub closed spec fn params(&self) -> (usize, usize) {
        (self.block_size, self.max_blocks)
    }

    /// The tree is well formed and blocks hold at least one token.
    pub closed spec fn wf(&self) -> bool {
        self.tree.wf() && self.block_size > 0
    }

    /// An empty cache.
    pub fn new(block_size: usize, max_blocks: usize) -> (m: Self)
        requires
            block_size > 0,
        ensures
            m.wf(),
            m.params() == (block_size, max_blocks),
            bare(m.root()),
            m.clock() == 0,
            count_blocks(m.root()) == 0,
            forall|tokens: Seq<TokenId>| #[trigger] walk(m.root(), tokens, 0) == (0int, Seq::<BlockId>::empty()),
    {
        let m = RadixCacheManager { tree: RadixTree::new(), block_size, max_blocks };
        proof {
            assert forall|tokens: Seq<TokenId>| #[trigger] walk(m.root(), tokens, 0) == (0int, Seq::<BlockId>::empty()) by {
                if 0 < tokens.len() {
                    assert(!child_starts(m.root().children@, 0, tokens[0]));
                }
            }
        }
        m
    }

    /// Find reusable KV blocks for `tokens`.  The matched nodes count as
    /// accessed; nothing else changes.
    pub fn lookup(&mut self, tokens: &[TokenId]) -> (r: MatchResult)
        requires
            old(self).wf(),
        ensures
            final(self).wf(),
            final(self).params() == old(self).params(),
            same_shape(final(self).root(), old(self).root()),
            touched_path(old(self).root(), final(self).root(), tokens@, 0, old(self).clock(), final(self).clock()),
            r.matched_len == walk(old(self).root(), tokens@, 0).0,
            r.reuse_blocks@ == walk(old(self).root(), tokens@, 0).1,
            r.matched_len <= tokens@.len(),
            forall|t: Seq<TokenId>| #[trigger] walk(final(self).root(), t, 0) == walk(old(self).root(), t, 0),
            count_blocks(final(self).root()) == count_blocks(old(self).root()),
    {
        proof {
            lemma_walk_bounds(self.tree.root, tokens@, 0);
        }
        let r = self.tree.lookup(tokens);
        proof {
            lemma_same_shape_sym(self.tree.root, old(self).tree.root);
            assert forall|t: Seq<TokenId>| #[trigger] walk(self.root(), t, 0) == walk(old(self).root(), t, 0) by {
                lemma_same_shape_walk(old(self).tree.root, self.tree.root, t, 0);
            }
            lemma_same_shape_count(old(self).tree.root, self.tree.root);
        }
        r
    }

    /// A well-formed cache has a well-formed tree: the laws about trees
    /// apply to its root.
    pub proof fn root_is_well_formed(&self)
        requires
            self.wf(),
        ensures
            node_wf(self.root()),
    {
    }

    /// Insert a completed sequence; when the cache is then over budget, the
    /// least recently used leaf is evicted (at most one per insert).
    pub fn insert(&mut self, tokens: &[TokenId], blocks: &[BlockId])
        requires
            old(self).wf(),
        ensures
            final(self).wf(),
            final(self).params() == old(self).params(),
            exists|mid: RadixNode| {
                &&& node_wf(mid)
                &&& inserted_root(old(self).root(), mid, tokens@, blocks@, old(self).params().0 as int, old(self).clock(), final(self).clock())
                &&& walk(mid, tokens@, 0).0 >= (if tokens@.len() < blocks@.len() { tokens@.len() } else { blocks@.len() })
                &&& if saturate(count_blocks(mid) as int) > old(self).params().1 && has_leaf(mid) {
                    evicts_one(mid, final(self).root())
                } else {
                    final(self).root() == mid
                }
            },
            walk(final(self).root(), tokens@, 0).0 >= (if tokens@.len() < blocks@.len() { tokens@.len() } else { blocks@.len() }),
    {
        self.tree.insert(tokens, blocks, self.block_size);
        let ghost mid = self.tree.root;
        let total = self.tree.total_blocks();
        if total > self.max_blocks {
            match self.tree.lru_leaf() {
                None => {
                    proof {
                        assert(self.root() == mid);
                    }
                },
                Some(path) => {
                    self.tree.evict_at(&path);
                    proof {
                        let p = choose|p: Seq<usize>| is_lru_leaf(mid, p) && cleared_at(mid, self.tree.root, p);
                        lemma_cleared_walk(mid, self.tree.root, p, tokens@, 0);
                        assert(has_leaf(mid));
                    }
                },
            }
        } else {
            proof {
            }
        }
        proof {
            assert(node_wf(mid));
            let lower = if tokens@.len() < blocks@.len() { tokens@.len() } else { blocks@.len() };
            assert(walk(mid, tokens@, 0).0 >= lower);
            assert(if saturate(count_blocks(mid) as int) > old(self).params().1 && has_leaf(mid) {
                evicts_one(mid, self.root())
            } else {
                self.root() == mid
            });
        }
    }

    /// Evict least recently used leaves until at least `target_free` blocks
    /// were freed or no leaf is left.  Returns the number of blocks freed
    /// (saturating).
    pub fn evict_lru(&mut self, target_free: usize) -> (freed: usize)
        requires
            old(self).wf(),
        ensures
            final(self).wf(),
            final(self).params() == old(self).params(),
            exists|n: nat| evicts_while_short(old(self).root(), final(self).root(), n, target_free as int),
            target_free == 0 ==> freed == 0 && final(self).root() == old(self).root(),
            count_blocks(final(self).root()) <= count_blocks(old(self).root()),
            freed as int == saturate(count_blocks(old(self).root()) - count_blocks(final(self).root())),
            freed >= target_free || !has_leaf(final(self).root()),
            final(self).clock() == old(self).clock(),
    {
        let mut freed: usize = 0;
        let ghost start = self.tree.root;
        let ghost mut steps: nat = 0;
        proof {
            assert(evicts_while_short(start, self.tree.root, 0, target_free as int));
        }
        while freed < target_free
            invariant_except_break
                self.wf(),
                self.params() == old(self).params(),
                self.clock() == old(self).clock(),
                start == old(self).root(),
                evicts_while_short(start, self.tree.root, steps, target_free as int),
                target_free == 0 ==> steps == 0,
                count_blocks(self.tree.root) <= count_blocks(start),
                freed as int == saturate(count_blocks(start) - count_blocks(self.tree.root)),
            ensures
                self.wf(),
                self.params() == old(self).params(),
                self.clock() == old(self).clock(),
                start == old(self).root(),
                evicts_while_short(start, self.tree.root, steps, target_free as int),
                target_free == 0 ==> steps == 0,
                count_blocks(self.tree.root) <= count_blocks(start),
                freed as int == saturate(count_blocks(start) - count_blocks(self.tree.root)),
                freed >= target_free || !has_leaf(self.tree.root),
            decreases count_blocks(self.tree.root),
        {
            match self.tree.lru_leaf() {
                None => {
                    proof {
                        assert(evicts_while_short(start, self.tree.root, steps, target_free as int));
                    }
                    break;
                },
                Some(path) => {
                    let ghost before = self.tree.root;
                    let n = self.tree.evict_at(&path);
                    freed = freed.saturating_add(n);
                    proof {
                        lemma_evicts_while_short_extend(start, before, self.tree.root, steps, target_free as int);
                        steps = steps + 1;
                    }
                },
            }
        }
        proof {
            assert(evicts_while_short(old(self).root(), self.root(), steps, target_free as int));
        }
        freed
    }

    /// Total KV blocks currently stored in the cache (saturating).
    pub fn total_blocks(&self) -> (r: usize)
        ensures
            r as int == saturate(count_blocks(self.root()) as int),
    {
        self.tree.total_blocks()
    }
}

/// A run of evictions that has freed fewer than `t` blocks, followed by one
/// more eviction, is a longer such run.
proof fn lemma_evicts_while_short_extend(a: RadixNode, b: RadixNode, c: RadixNode, n: nat, t: int)
    requires
        evicts_while_short(a, b, n, t),
        count_blocks(a) - count_blocks(b) < t,
        evicts_one(b, c),
    ensures
        evicts_while_short(a, c, n + 1, t),
    decreases n,
{
    if n == 0 {
        assert(evicts_while_short(c, c, 0, t - (count_blocks(a) - count_blocks(c))));
        assert(evicts_one(a, c) && evicts_while_short(c, c, 0, t - (count_blocks(a) - count_blocks(c))));
    } else {
        let m = choose|m: RadixNode| evicts_one(a, m) && evicts_while_short(m, b, (n - 1) as nat, t - (count_blocks(a) - count_blocks(m)));
        lemma_evicts_while_short_extend(m, b, c, (n - 1) as nat, t - (count_blocks(a) - count_blocks(m)));
        assert(evicts_one(a, m) && evicts_while_short(m, c, n, t - (count_blocks(a) - count_blocks(m))));
    }
}

// ── Laws ─────────────────────────────────────────────────────────────────────

/// A lookup only refreshes access stamps, so looking the same tokens up
/// again (or any other tokens) gives the answer it would have given before.
pub proof fn lookup_is_repeatable(before: RadixNode, after: RadixNode, tokens: Seq<TokenId>)
    requires
        node_wf(before),
        same_shape(after, before),
    ensures
        walk(after, tokens, 0) == walk(before, tokens, 0),
{
    lemma_same_shape_sym(after, before);
    lemma_same_shape_walk(before, after, tokens, 0);
}

/// Evicting a leaf frees its blocks but never shortens how many tokens a
/// lookup matches, and it strictly lowers the number of cached blocks.
pub proof fn eviction_keeps_match_lengths(before: RadixNode, after: RadixNode, tokens: Seq<TokenId>)
    requires
        node_wf(before),
        evicts_one(before, after),
    ensures
        walk(after, tokens, 0).0 == walk(before, tokens, 0).0,
        count_blocks(after) < count_blocks(before),
{
    let p = choose|p: Seq<usize>| is_lru_leaf(before, p) && cleared_at(before, after, p);
    lemma_cleared_walk(before, after, p, tokens, 0);
    lemma_cleared_count(before, after, p);
}

proof fn lemma_walk_prefix(n: RadixNode, t1: Seq<TokenId>, t2: Seq<TokenId>, pos: int)
    requires
        t1.len() <= t2.len(),
        forall|i: int| 0 <= i < t1.len() ==> t1[i] == t2[i],
    ensures
        walk(n, t1, pos).0 <= walk(n, t2, pos).0,
        walk(n, t1, pos).1.len() <= walk(n, t2, pos).1.len(),
        walk(n, t2, pos).1.take(walk(n, t1, pos).1.len() as int) == walk(n, t1, pos).1,
    decreases n,
{
    lemma_walk_bounds(n, t2, pos);
    if 0 <= pos < t1.len() {
        assert(t1[pos] == t2[pos]);
        let k = child_for(n.children@, t1[pos]);
        if 0 <= k < n.children.len() {
            let c = n.children[k];
            let s1 = t1.skip(pos);
            let s2 = t2.skip(pos);
            let m1 = common_len(c.edge@, s1);
            let m2 = common_len(c.edge@, s2);
            lemma_common_len(c.edge@, s1);
            lemma_common_len(c.edge@, s2);
            if m2 < m1 {
                assert(s1[m2] == s2[m2]);
                assert(c.edge@[m2] == s1[m2]);
            }
            assert(m1 <= m2);
            if 0 < m1 {
                if m1 < c.edge@.len() {
                    if m2 >= c.edge@.len() {
                        lemma_walk_bounds(c, t2, pos + m2);
                        let r = walk(c, t2, pos + m2);
                        assert((c.blocks@ + r.1).take(c.blocks@.len() as int) =~= c.blocks@);
                    } else {
                        assert(c.blocks@.take(c.blocks@.len() as int) =~= c.blocks@);
                    }
                } else {
                    assert(m2 == m1);
                    lemma_walk_prefix(c, t1, t2, pos + m1);
                    let r1 = walk(c, t1, pos + m1);
                    let r2 = walk(c, t2, pos + m1);
                    assert((c.blocks@ + r2.1).take((c.blocks@ + r1.1).len() as int) =~= c.blocks@ + r1.1);
                }
            }
        }
    }
}

/// Lookups are monotone in the query: a query that extends another matches
/// at least as many tokens, and the blocks it reuses start with the blocks
/// the shorter query reuses.
pub proof fn longer_queries_match_more(root: RadixNode, t1: Seq<TokenId>, t2: Seq<TokenId>)
    requires
        t1.len() <= t2.len(),
        t2.take(t1.len() as int) == t1,
    ensures
        walk(root, t1, 0).0 <= walk(root, t2, 0).0,
        walk(root, t1, 0).1.len() <= walk(root, t2, 0).1.len(),
        walk(root, t2, 0).1.take(walk(root, t1, 0).1.len() as int) == walk(root, t1, 0).1,
{
    assert forall|i: int| 0 <= i < t1.len() implies t1[i] == t2[i] by {
        assert(t2.take(t1.len() as int)[i] == t2[i]);
    }
    lemma_walk_prefix(root, t1, t2, 0);
}

/// The tokens spelled by the edges along the child indices `path` from `n`
/// (the edge of `n` itself not included); none when an index is out of range.
pub closed spec fn path_string(n: RadixNode, path: Seq<usize>) -> Option<Seq<TokenId>>
    decreases path.len(),
{
    if path.len() == 0 {
        Some(Seq::empty())
    } else if path[0] < n.children.len() {
        let c = n.children[path[0] as int];
        match path_string(c, path.drop_first()) {
            Some(rest) => Some(c.edge@ + rest),
            None => None,
        }
    } else {
        None
    }
}

/// `p` is stored below `n`: it is a prefix of the tokens spelled by some
/// path from `n`.
pub open spec fn stored_prefix(n: RadixNode, p: Seq<TokenId>) -> bool {
    exists|path: Seq<usize>| #[trigger] path_string(n, path) matches Some(s) && p.len() <= s.len() && s.take(p.len() as int) == p
}

proof fn lemma_walk_is_stored(n: RadixNode, q: Seq<TokenId>, pos: int) -> (path: Seq<usize>)
    requires
        node_wf(n),
        0 <= pos <= q.len(),
    ensures
        path_string(n, path) matches Some(s) && walk(n, q, pos).0 <= s.len()
            && s.take(walk(n, q, pos).0) == q.subrange(pos, pos + walk(n, q, pos).0),
    decreases n,
{
    lemma_walk_bounds(n, q, pos);
    let w = walk(n, q, pos).0;
    if pos >= q.len() {
        assert(path_string(n, Seq::empty()) == Some(Seq::<TokenId>::empty()));
        assert(Seq::<TokenId>::empty().take(0) =~= q.subrange(pos, pos));
        return Seq::empty();
    }
    let k = child_for(n.children@, q[pos]);
    if 0 <= k < n.children.len() {
        let c = n.children[k];
        let e = c.edge@;
        let qs = q.skip(pos);
        let m = common_len(e, qs);
        lemma_common_len(e, qs);
        assert(node_wf(c));
        if m <= 0 {
            assert(path_string(n, Seq::empty()) == Some(Seq::<TokenId>::empty()));
            assert(Seq::<TokenId>::empty().take(0) =~= q.subrange(pos, pos));
            return Seq::empty();
        }
        let ku = k as usize;
        if m < e.len() {
            let path = seq![ku];
            assert(path.drop_first() =~= Seq::<usize>::empty());
            assert(path_string(c, path.drop_first()) == Some(Seq::<TokenId>::empty()));
            let s = e + Seq::<TokenId>::empty();
            assert(path_string(n, path) == Some(s));
            assert forall|j: int| 0 <= j < m implies #[trigger] s.take(m)[j] == q.subrange(pos, pos + m)[j] by {
                assert(qs[j] == q[pos + j]);
            }
            assert(s.take(m) =~= q.subrange(pos, pos + m));
            path
        } else {
            let sub = lemma_walk_is_stored(c, q, pos + m);
            lemma_walk_bounds(c, q, pos + m);
            let r = walk(c, q, pos + m).0;
            let rest = path_string(c, sub)->0;
            let path = seq![ku] + sub;
            assert(path.drop_first() =~= sub);
            assert(path[0] == ku);
            let s = e + rest;
            assert(path_string(n, path) == Some(s));
            assert(w == m + r);
            assert forall|j: int| 0 <= j < w implies #[trigger] s.take(w)[j] == q.subrange(pos, pos + w)[j] by {
                if j < m {
                    assert(qs[j] == q[pos + j]);
                } else {
                    assert(rest.take(r)[j - m] == q.subrange(pos + m, pos + m + r)[j - m]);
                }
            }
            assert(s.take(w) =~= q.subrange(pos, pos + w));
            path
        }
    } else {
        assert(path_string(n, Seq::empty()) == Some(Seq::<TokenId>::empty()));
        assert(Seq::<TokenId>::empty().take(0) =~= q.subrange(pos, pos));
        Seq::empty()
    }
}

proof fn lemma_walk_is_longest(n: RadixNode, q: Seq<TokenId>, pos: int, path: Seq<usize>, j: int)
    requires
        node_wf(n),
        0 <= pos <= q.len(),
        path_string(n, path) matches Some(s) && 0 <= j <= s.len() && pos + j <= q.len()
            && s.take(j) == q.subrange(pos, pos + j),
    ensures
        j <= walk(n, q, pos).0,
    decreases path.len(),
{
    lemma_walk_bounds(n, q, pos);
    if j > 0 {
        let s = path_string(n, path)->0;
        assert(path.len() > 0);
        let k = path[0] as int;
        let c = n.children[k];
        let e = c.edge@;
        let rest = path_string(c, path.drop_first())->0;
        assert(s == e + rest);
        assert(e.len() > 0);
        assert(s.take(j)[0] == q.subrange(pos, pos + j)[0]);
        assert(e[0] == q[pos]);
        assert(child_starts(n.children@, k, q[pos]));
        lemma_child_for_is(n.children@, q[pos], k);
        let qs = q.skip(pos);
        let m = common_len(e, qs);
        lemma_common_len(e, qs);
        assert(node_wf(c));
        if j <= e.len() {
            if m < j {
                assert(s.take(j)[m] == q.subrange(pos, pos + j)[m]);
                assert(qs[m] == q[pos + m]);
            }
            if m == e.len() {
                lemma_walk_bounds(c, q, pos + m);
            }
        } else {
            if m < e.len() {
                assert(s.take(j)[m] == q.subrange(pos, pos + j)[m]);
                assert(qs[m] == q[pos + m]);
            }
            assert(m == e.len());
            assert(rest.take(j - m) =~= q.subrange(pos + m, pos + j)) by {
                assert forall|i: int| 0 <= i < j - m implies #[trigger] rest.take(j - m)[i] == q.subrange(pos + m, pos + j)[i] by {
                    assert(s.take(j)[m + i] == q.subrange(pos, pos + j)[m + i]);
                }
            }
            lemma_walk_is_longest(c, q, pos + m, path.drop_first(), j - m);
        }
    }
}

/// The tokens spelled along `path` through the child list `ch`: the edge of
/// child `path[0]`, then what is spelled below it.
pub closed spec fn path_string_list(ch: Seq<RadixNode>, path: Seq<usize>) -> Option<Seq<TokenId>> {
    if path.len() == 0 {
        Some(Seq::empty())
    } else if path[0] < ch.len() {
        let c = ch[path[0] as int];
        match path_string(c, path.drop_first()) {
            Some(rest) => Some(c.edge@ + rest),
            None => None,
        }
    } else {
        None
    }
}

proof fn lemma_path_string_list(n: RadixNode, path: Seq<usize>)
    ensures
        path_string(n, path) == path_string_list(n.children@, path),
{
}

proof fn lemma_path_string_same_children(a: RadixNode, b: RadixNode, path: Seq<usize>)
    requires
        a.children@ == b.children@,
    ensures
        path_string(a, path) == path_string(b, path),
{
    lemma_path_string_list(a, path);
    lemma_path_string_list(b, path);
}

/// Inserting into a child list keeps every spelled string as a prefix of a
/// spelled string.
proof fn lemma_inserted_keeps_paths(
    a: Seq<RadixNode>,
    b: Seq<RadixNode>,
    tokens: Seq<TokenId>,
    blocks: Seq<BlockId>,
    pos: int,
    blk: int,
    bs: int,
    c0: u64,
    c1: u64,
    path: Seq<usize>,
) -> (path2: Seq<usize>)
    requires
        inserted(a, b, tokens, blocks, pos, blk, bs, c0, c1),
        path_string_list(a, path) is Some,
    ensures
        path_string_list(b, path2) matches Some(s2) && path_string_list(a, path)->0.len() <= s2.len()
            && s2.take(path_string_list(a, path)->0.len() as int) == path_string_list(a, path)->0,
    decreases tokens.len() - pos,
{
    let s = path_string_list(a, path)->0;
    if path.len() == 0 {
        assert(Seq::<TokenId>::empty().take(0) =~= s);
        return path;
    }
    if pos < 0 || pos >= tokens.len() || blk < 0 || blk >= blocks.len() || bs <= 0 {
        assert(s.take(s.len() as int) =~= s);
        return path;
    }
    let k = child_for(a, tokens[pos]);
    let i = path[0] as int;
    if 0 <= k < a.len() {
        let c = a[k];
        let m = common_len(c.edge@, tokens.skip(pos));
        lemma_common_len(c.edge@, tokens.skip(pos));
        let d = b[k];
        if i != k {
            assert(b[i] == a[i]);
            assert(s.take(s.len() as int) =~= s);
            return path;
        }
        let sub = path.drop_first();
        let rest = path_string(c, sub)->0;
        assert(s == c.edge@ + rest);
        lemma_path_string_list(c, sub);
        if m == c.edge@.len() {
            lemma_path_string_list(d, sub);
            let sub2 = lemma_inserted_keeps_paths(c.children@, d.children@, tokens, blocks, pos + m, blk + (m - 1) / bs + 1, bs, tick(c0), c1, sub);
            lemma_path_string_list(d, sub2);
            let rest2 = path_string(d, sub2)->0;
            let path2 = seq![k as usize] + sub2;
            assert(path2.drop_first() =~= sub2);
            assert(path_string_list(b, path2) == Some(d.edge@ + rest2));
            assert((d.edge@ + rest2).take(s.len() as int) =~= s);
            path2
        } else {
            let sn = d.children[0];
            // the old child lives on below the split as `sn`, holding the rest of the edge
            lemma_path_string_same_children(sn, c, sub);
            let old_path = seq![0usize] + sub;
            assert(old_path.drop_first() =~= sub);
            assert(path_string_list(seq![sn], old_path) == Some(sn.edge@ + rest));
            let sub2 = lemma_inserted_keeps_paths(seq![sn], d.children@, tokens, blocks, pos + m, blk + (m - 1) / bs + 1, bs, tick(c0), c1, old_path);
            lemma_path_string_list(d, sub2);
            let rest2 = path_string(d, sub2)->0;
            let path2 = seq![k as usize] + sub2;
            assert(path2.drop_first() =~= sub2);
            assert(path_string_list(b, path2) == Some(d.edge@ + rest2));
            assert(c.edge@ =~= c.edge@.take(m) + c.edge@.skip(m));
            assert((d.edge@ + rest2).take(s.len() as int) =~= s) by {
                assert(rest2.take((sn.edge@.len() + rest.len()) as int) == sn.edge@ + rest);
                assert forall|j: int| 0 <= j < s.len() implies #[trigger] (d.edge@ + rest2).take(s.len() as int)[j] == s[j] by {
                    if j < m {
                    } else {
                        assert(rest2[j - m] == rest2.take((sn.edge@.len() + rest.len()) as int)[j - m]);
                        assert((sn.edge@ + rest)[j - m] == s[j]);
                    }
                }
            }
            path2
        }
    } else {
        assert(b.take(a.len() as int) == a);
        assert(b[i] == b.take(a.len() as int)[i]);
        assert(s.take(s.len() as int) =~= s);
        path
    }
}

/// An insert keeps every stored prefix: whatever a path of the tree spelled
/// before is still a prefix of what some path spells afterwards, so no later
/// lookup matches fewer tokens for it.
pub proof fn insert_keeps_stored_prefixes(
    a: RadixNode,
    b: RadixNode,
    tokens: Seq<TokenId>,
    blocks: Seq<BlockId>,
    bs: int,
    c0: u64,
    c1: u64,
    p: Seq<TokenId>,
)
    requires
        inserted_root(a, b, tokens, blocks, bs, c0, c1),
        stored_prefix(a, p),
    ensures
        stored_prefix(b, p),
{
    let path = choose|path: Seq<usize>| #[trigger] path_string(a, path) matches Some(s) && p.len() <= s.len() && s.take(p.len() as int) == p;
    lemma_path_string_list(a, path);
    let path2 = lemma_inserted_keeps_paths(a.children@, b.children@, tokens, blocks, 0, 0, bs, c0, c1, path);
    lemma_path_string_list(b, path2);
    let s = path_string(a, path)->0;
    let s2 = path_string(b, path2)->0;
    assert(s2.take(p.len() as int) =~= p) by {
        assert forall|j: int| 0 <= j < p.len() implies #[trigger] s2.take(p.len() as int)[j] == p[j] by {
            assert(s2[j] == s2.take(s.len() as int)[j]);
            assert(s[j] == s.take(p.len() as int)[j]);
        }
    }
    assert(path_string(b, path2) matches Some(t) && p.len() <= t.len() && t.take(p.len() as int) == p);
}

/// The block ids stored at `n` and below, with their multiplicities.
pub closed spec fn stored_blocks(n: RadixNode) -> Multiset<BlockId>
    decreases n, 1nat, 0int,
{
    n.blocks@.to_multiset().add(stored_blocks_seq(n.children@, n.children@.len() as int))
}

/// The block ids stored in the first `i` subtrees of `s`.
pub closed spec fn stored_blocks_seq(s: Seq<RadixNode>, i: int) -> Multiset<BlockId>
    decreases s, 0nat, i,
{
    if i <= 0 || i > s.len() {
        Multiset::empty()
    } else {
        stored_blocks_seq(s, i - 1).add(stored_blocks(s[i - 1]))
    }
}

/// The blocks of `blocks` from `blk` on.
pub open spec fn blocks_from(blocks: Seq<BlockId>, blk: int) -> Seq<BlockId> {
    if 0 <= blk < blocks.len() { blocks.subrange(blk, blocks.len() as int) } else { Seq::empty() }
}

proof fn lemma_stored_seq_update(s: Seq<RadixNode>, k: int, x: RadixNode, i: int)
    requires
        0 <= k < s.len(),
        0 <= i <= s.len(),
    ensures
        k < i ==> stored_blocks_seq(s.update(k, x), i).add(stored_blocks(s[k])) =~= stored_blocks_seq(s, i).add(stored_blocks(x)),
        i <= k ==> stored_blocks_seq(s.update(k, x), i) =~= stored_blocks_seq(s, i),
    decreases i,
{
    broadcast use vstd::multiset::group_multiset_axioms;
    if i > 0 {
        lemma_stored_seq_update(s, k, x, i - 1);
        let t = s.update(k, x);
        assert(t[i - 1] == (if i - 1 == k { x } else { s[i - 1] }));
        assert(stored_blocks_seq(t, i) == stored_blocks_seq(t, i - 1).add(stored_blocks(t[i - 1])));
        assert(stored_blocks_seq(s, i) == stored_blocks_seq(s, i - 1).add(stored_blocks(s[i - 1])));
        if k < i {
            let lhs = stored_blocks_seq(t, i).add(stored_blocks(s[k]));
            let rhs = stored_blocks_seq(s, i).add(stored_blocks(x));
            if k < i - 1 {
                let l0 = stored_blocks_seq(t, i - 1).add(stored_blocks(s[k]));
                let r0 = stored_blocks_seq(s, i - 1).add(stored_blocks(x));
                assert(l0 == r0);
                assert forall|v: BlockId| lhs.count(v) == rhs.count(v) by {
                    assert(l0.count(v) == r0.count(v));
                }
            } else {
                assert forall|v: BlockId| lhs.count(v) == rhs.count(v) by {}
            }
            assert(lhs =~= rhs);
        }
    }
}

proof fn lemma_stored_seq_push(s: Seq<RadixNode>, x: RadixNode, i: int)
    requires
        0 <= i <= s.len(),
    ensures
        stored_blocks_seq(s.push(x), i) =~= stored_blocks_seq(s, i),
    decreases i,
{
    if i > 0 {
        lemma_stored_seq_push(s, x, i - 1);
        assert(s.push(x)[i - 1] == s[i - 1]);
    }
}

proof fn lemma_blocks_from_split(blocks: Seq<BlockId>, blk: int, e: int)
    requires
        0 <= blk <= e,
        blk < blocks.len(),
    ensures
        e <= blocks.len() ==> blocks_from(blocks, blk).to_multiset() =~= blocks.subrange(blk, e).to_multiset().add(blocks_from(blocks, e).to_multiset()),
        e >= blocks.len() ==> blocks_from(blocks, e).len() == 0,
{
    broadcast use vstd::multiset::group_multiset_axioms;
    if e <= blocks.len() {
        if e < blocks.len() {
            assert(blocks_from(blocks, blk) =~= blocks.subrange(blk, e) + blocks_from(blocks, e));
        } else {
            assert(blocks_from(blocks, blk) =~= blocks.subrange(blk, e) + blocks_from(blocks, e));
        }
        vstd::seq_lib::lemma_multiset_commutative(blocks.subrange(blk, e), blocks_from(blocks, e));
    }
}

/// Inserting into a child list adds blocks taken from `blocks[blk..]` and
/// drops none.
proof fn lemma_inserted_blocks(
    a: Seq<RadixNode>,
    b: Seq<RadixNode>,
    tokens: Seq<TokenId>,
    blocks: Seq<BlockId>,
    pos: int,
    blk: int,
    bs: int,
    c0: u64,
    c1: u64,
) -> (extra: Multiset<BlockId>)
    requires
        inserted(a, b, tokens, blocks, pos, blk, bs, c0, c1),
    ensures
        stored_blocks_seq(b, b.len() as int) =~= stored_blocks_seq(a, a.len() as int).add(extra),
        extra.subset_of(blocks_from(blocks, blk).to_multiset()),
    decreases tokens.len() - pos,
{
    broadcast use vstd::multiset::group_multiset_axioms;
    if pos < 0 || pos >= tokens.len() || blk < 0 || blk >= blocks.len() || bs <= 0 {
        return Multiset::empty();
    }
    let k = child_for(a, tokens[pos]);
    if 0 <= k < a.len() {
        let c = a[k];
        let m = common_len(c.edge@, tokens.skip(pos));
        lemma_common_len(c.edge@, tokens.skip(pos));
        let nb = (m - 1) / bs + 1;
        let d = b[k];
        assert(b =~= a.update(k, d));
        lemma_stored_seq_update(a, k, d, a.len() as int);
        if m == c.edge@.len() {
            let e1 = lemma_inserted_blocks(c.children@, d.children@, tokens, blocks, pos + m, blk + nb, bs, tick(c0), c1);
            assert(d.blocks@ == c.blocks@);
            let sd = stored_blocks(d);
            let sc = stored_blocks(c);
            assert(sd == d.blocks@.to_multiset().add(stored_blocks_seq(d.children@, d.children@.len() as int)));
            assert(sc == c.blocks@.to_multiset().add(stored_blocks_seq(c.children@, c.children@.len() as int)));
            assert forall|v: BlockId| sd.count(v) == sc.add(e1).count(v) by {}
            assert(sd =~= sc.add(e1));
            let u_l = stored_blocks_seq(b, b.len() as int).add(sc);
            let u_r = stored_blocks_seq(a, a.len() as int).add(sd);
            assert(u_l == u_r);
            assert forall|v: BlockId| stored_blocks_seq(b, b.len() as int).count(v) == stored_blocks_seq(a, a.len() as int).add(e1).count(v) by {
                assert(u_l.count(v) == u_r.count(v));
            }
            lemma_blocks_from_split(blocks, blk, blk + nb);
            assert forall|v: BlockId| e1.count(v) <= blocks_from(blocks, blk).to_multiset().count(v) by {
                assert(e1.count(v) <= blocks_from(blocks, blk + nb).to_multiset().count(v));
                if blk + nb >= blocks.len() {
                    vstd::seq_lib::to_multiset_len(blocks_from(blocks, blk + nb));
                    vstd::multiset::lemma_multiset_empty_len(blocks_from(blocks, blk + nb).to_multiset());
                }
            }
            e1
        } else {
            let sn = d.children[0];
            let e1 = lemma_inserted_blocks(seq![sn], d.children@, tokens, blocks, pos + m, blk + nb, bs, tick(c0), c1);
            let e = if blk + nb < blocks.len() { blk + nb } else { blocks.len() as int };
            assert(seq![sn][0] == sn);
            assert(stored_blocks_seq(seq![sn], 0) =~= Multiset::empty());
            assert(stored_blocks_seq(seq![sn], 1) == stored_blocks_seq(seq![sn], 0).add(stored_blocks(seq![sn][0])));
            assert(stored_blocks_seq(seq![sn], 1) =~= Multiset::empty().add(stored_blocks(sn)));
            assert(stored_blocks(sn) =~= stored_blocks(c));
            let fresh = blocks.subrange(blk, e).to_multiset();
            assert(d.blocks@ == blocks.subrange(blk, e));
            assert(sn.blocks@ == c.blocks@ && sn.children@ == c.children@);
            let sd = stored_blocks(d);
            let sc = stored_blocks(c);
            assert(sd == d.blocks@.to_multiset().add(stored_blocks_seq(d.children@, d.children@.len() as int)));
            assert(stored_blocks(sn) == sn.blocks@.to_multiset().add(stored_blocks_seq(sn.children@, sn.children@.len() as int)));
            assert forall|v: BlockId| sd.count(v) == sc.add(fresh.add(e1)).count(v) by {}
            let u_l = stored_blocks_seq(b, b.len() as int).add(sc);
            let u_r = stored_blocks_seq(a, a.len() as int).add(sd);
            assert(u_l == u_r);
            assert forall|v: BlockId| stored_blocks_seq(b, b.len() as int).count(v) == stored_blocks_seq(a, a.len() as int).add(fresh.add(e1)).count(v) by {
                assert(u_l.count(v) == u_r.count(v));
            }
            lemma_blocks_from_split(blocks, blk, e);
            lemma_blocks_from_split(blocks, blk, blk + nb);
            assert forall|v: BlockId| fresh.add(e1).count(v) <= blocks_from(blocks, blk).to_multiset().count(v) by {
                assert(e1.count(v) <= blocks_from(blocks, blk + nb).to_multiset().count(v));
                if blk + nb >= blocks.len() {
                    vstd::seq_lib::to_multiset_len(blocks_from(blocks, blk + nb));
                    vstd::multiset::lemma_multiset_empty_len(blocks_from(blocks, blk + nb).to_multiset());
                } else {
                    assert(e == blk + nb);
                }
            }
            fresh.add(e1)
        }
    } else {
        let leaf = b[a.len() as int];
        assert(b =~= a.push(leaf));
        let e1 = lemma_inserted_blocks(Seq::empty(), leaf.children@, tokens, blocks, pos + (if bs < tokens.len() - pos { bs } else { tokens.len() - pos }), blk + 1, bs, tick(c0), c1);
        assert(stored_blocks_seq(Seq::<RadixNode>::empty(), 0) =~= Multiset::empty());
        lemma_stored_seq_push(a, leaf, a.len() as int);
        let fresh = blocks.subrange(blk, blk + 1).to_multiset();
        assert(stored_blocks(leaf) =~= fresh.add(e1));
        lemma_blocks_from_split(blocks, blk, blk + 1);
        fresh.add(e1)
    }
}

/// An insert keeps every stored block: the blocks stored afterwards are
/// those stored before plus some of the blocks given, each at most as often
/// as it was given.
pub proof fn insert_keeps_stored_blocks(
    a: RadixNode,
    b: RadixNode,
    tokens: Seq<TokenId>,
    blocks: Seq<BlockId>,
    bs: int,
    c0: u64,
    c1: u64,
)
    requires
        inserted_root(a, b, tokens, blocks, bs, c0, c1),
    ensures
        stored_blocks(a).subset_of(stored_blocks(b)),
        forall|id: BlockId| #[trigger] stored_blocks(b).count(id) <= stored_blocks(a).count(id) + blocks.to_multiset().count(id),
{
    broadcast use vstd::multiset::group_multiset_axioms;
    let extra = lemma_inserted_blocks(a.children@, b.children@, tokens, blocks, 0, 0, bs, c0, c1);
    assert(stored_blocks(b) =~= stored_blocks(a).add(extra));
    if blocks.len() > 0 {
        assert(blocks_from(blocks, 0) =~= blocks);
    }
}

/// A lookup returns the longest stored prefix of the query: what it
/// matches is a prefix of the tokens along some path of the tree, and no
/// longer prefix of the query is.
pub proof fn lookup_matches_the_longest_stored_prefix(root: RadixNode, q: Seq<TokenId>)
    requires
        node_wf(root),
    ensures
        stored_prefix(root, q.take(walk(root, q, 0).0)),
        forall|p: Seq<TokenId>| #[trigger] stored_prefix(root, p) && p.len() <= q.len() && p == q.take(p.len() as int)
            ==> p.len() <= walk(root, q, 0).0,
{
    let path = lemma_walk_is_stored(root, q, 0);
    lemma_walk_bounds(root, q, 0);
    let w = walk(root, q, 0).0;
    assert(q.subrange(0, w) =~= q.take(w));
    assert(q.take(w).len() == w);
    assert(path_string(root, path) matches Some(s) && q.take(w).len() <= s.len() && s.take(q.take(w).len() as int) == q.take(w));
    assert forall|p: Seq<TokenId>| #[trigger] stored_prefix(root, p) && p.len() <= q.len() && p == q.take(p.len() as int)
        implies p.len() <= walk(root, q, 0).0 by {
        let pa = choose|pa: Seq<usize>| #[trigger] path_string(root, pa) matches Some(s) && p.len() <= s.len() && s.take(p.len() as int) == p;
        assert(q.take(p.len() as int) =~= q.subrange(0, p.len() as int));
        lemma_walk_is_longest(root, q, 0, pa, p.len() as int);
    }
}

/// A lookup never matches more tokens than it was given.
pub proof fn match_is_bounded(root: RadixNode, tokens: Seq<TokenId>)
    ensures
        0 <= walk(root, tokens, 0).0 <= tokens.len(),
{
    lemma_walk_bounds(root, tokens, 0);
}


/// A tree with nothing below its root.
pub closed spec fn bare(n: RadixNode) -> bool {
    n.children.len() == 0
}

/// `x / d` rounded up.
pub open spec fn ceil_div(x: int, d: int) -> int {
    (x + d - 1) / d
}

proof fn lemma_fresh_chain_walk(
    b: RadixNode,
    tokens: Seq<TokenId>,
    blocks: Seq<BlockId>,
    pos: int,
    blk: int,
    bs: int,
    c0: u64,
    c1: u64,
)
    requires
        inserted(Seq::empty(), b.children@, tokens, blocks, pos, blk, bs, c0, c1),
        0 <= pos <= tokens.len(),
        0 <= blk <= blocks.len(),
        bs > 0,
    ensures
        walk(b, tokens, pos).0 == (if tokens.len() - pos < (blocks.len() - blk) * bs {
            tokens.len() - pos
        } else {
            (blocks.len() - blk) * bs
        }),
        walk(b, tokens, pos).1 == blocks.subrange(blk, blk + (if blocks.len() - blk < ceil_div(tokens.len() - pos, bs) {
            blocks.len() - blk
        } else {
            ceil_div(tokens.len() - pos, bs)
        })),
    decreases tokens.len() - pos,
{
    let l = tokens.len() - pos;
    let r = blocks.len() - blk;
    if pos >= tokens.len() || blk >= blocks.len() {
        assert(b.children@ == Seq::<RadixNode>::empty());
        assert(r * bs >= 0) by (nonlinear_arith)
            requires
                r >= 0,
                bs > 0,
        ;
        if pos >= tokens.len() {
            assert(ceil_div(0, bs) == 0) by (nonlinear_arith)
                requires
                    bs > 0,
            ;
        } else {
            assert(r == 0);
            assert(r * bs == 0) by (nonlinear_arith)
                requires
                    r == 0,
            ;
            assert(ceil_div(l, bs) >= 0) by (nonlinear_arith)
                requires
                    bs > 0,
                    l > 0,
            ;
        }
        assert(blocks.subrange(blk, blk) =~= Seq::<BlockId>::empty());
    } else {
        let ch = b.children@;
        let chunk = if bs < l { bs } else { l };
        let leaf = ch[0];
        assert(ch.len() == 1);
        assert(child_starts(ch, 0, tokens[pos]));
        lemma_child_for_is(ch, tokens[pos], 0);
        assert(is_common_len(leaf.edge@, tokens.skip(pos), chunk));
        lemma_common_len_is(leaf.edge@, tokens.skip(pos), chunk);
        lemma_fresh_chain_walk(leaf, tokens, blocks, pos + chunk, blk + 1, bs, tick(c0), c1);
        let rest_l = l - chunk;
        if chunk == bs {
            assert(bs + (if rest_l < (r - 1) * bs { rest_l } else { (r - 1) * bs }) == (if l < r * bs { l } else { r * bs })) by (nonlinear_arith)
                requires
                    rest_l == l - bs,
                    r >= 1,
                    bs > 0,
            ;
            assert(ceil_div(rest_l, bs) == ceil_div(l, bs) - 1) by (nonlinear_arith)
                requires
                    rest_l == l - bs,
                    bs > 0,
            ;
        } else {
            assert(chunk == l);
            assert((r - 1) * bs >= 0) by (nonlinear_arith)
                requires
                    r >= 1,
                    bs > 0,
            ;
            assert(l <= r * bs) by (nonlinear_arith)
                requires
                    l <= bs,
                    r >= 1,
                    bs > 0,
            ;
            assert(ceil_div(0, bs) == 0) by (nonlinear_arith)
                requires
                    bs > 0,
            ;
            assert(ceil_div(l, bs) == 1) by (nonlinear_arith)
                requires
                    1 <= l <= bs,
            ;
        }
        let n1 = if r - 1 < ceil_div(rest_l, bs) { r - 1 } else { ceil_div(rest_l, bs) };
        assert(seq![blocks[blk]] + blocks.subrange(blk + 1, blk + 1 + n1) =~= blocks.subrange(blk, blk + 1 + n1));
        assert(leaf.blocks@ =~= seq![blocks[blk]]);
    }
}

proof fn lemma_fresh_chain_count(
    b: RadixNode,
    tokens: Seq<TokenId>,
    blocks: Seq<BlockId>,
    pos: int,
    blk: int,
    bs: int,
    c0: u64,
    c1: u64,
)
    requires
        inserted(Seq::empty(), b.children@, tokens, blocks, pos, blk, bs, c0, c1),
        0 <= pos <= tokens.len(),
        0 <= blk <= blocks.len(),
        bs > 0,
    ensures
        count_seq(b.children@, b.children@.len() as int) == (if blocks.len() - blk < ceil_div(tokens.len() - pos, bs) {
            blocks.len() - blk
        } else {
            ceil_div(tokens.len() - pos, bs)
        }),
    decreases tokens.len() - pos,
{
    let l = tokens.len() - pos;
    let r = blocks.len() - blk;
    if pos >= tokens.len() || blk >= blocks.len() {
        assert(b.children@ == Seq::<RadixNode>::empty());
        if pos >= tokens.len() {
            assert(ceil_div(0, bs) == 0) by (nonlinear_arith)
                requires
                    bs > 0,
            ;
        } else {
            assert(ceil_div(l, bs) >= 0) by (nonlinear_arith)
                requires
                    bs > 0,
                    l > 0,
            ;
        }
    } else {
        let ch = b.children@;
        let chunk = if bs < l { bs } else { l };
        let leaf = ch[0];
        assert(ch.len() == 1);
        lemma_fresh_chain_count(leaf, tokens, blocks, pos + chunk, blk + 1, bs, tick(c0), c1);
        assert(leaf.blocks@ =~= seq![blocks[blk]]);
        assert(count_blocks(leaf) == 1 + count_seq(leaf.children@, leaf.children@.len() as int));
        assert(count_seq(ch, 0) == 0);
        assert(count_seq(ch, 1) == count_blocks(leaf));
        let rest_l = l - chunk;
        if chunk == bs {
            assert(ceil_div(rest_l, bs) == ceil_div(l, bs) - 1) by (nonlinear_arith)
                requires
                    rest_l == l - bs,
                    bs > 0,
            ;
        } else {
            assert(ceil_div(0, bs) == 0) by (nonlinear_arith)
                requires
                    bs > 0,
            ;
            assert(ceil_div(l, bs) == 1) by (nonlinear_arith)
                requires
                    1 <= l <= bs,
            ;
        }
    }
}

/// After a fresh insert into an empty cache, the cache holds one block per
/// started `bs` tokens, as far as the blocks given reach, besides what the
/// root holds itself.
pub proof fn fresh_insert_stores_the_blocks_it_uses(
    root: RadixNode,
    mid: RadixNode,
    tokens: Seq<TokenId>,
    blocks: Seq<BlockId>,
    bs: int,
    c0: u64,
    c1: u64,
)
    requires
        bare(root),
        bs > 0,
        inserted_root(root, mid, tokens, blocks, bs, c0, c1),
    ensures
        count_blocks(mid) == count_blocks(root) + (if blocks.len() < ceil_div(tokens.len() as int, bs) {
            blocks.len() as int
        } else {
            ceil_div(tokens.len() as int, bs)
        }),
{
    assert(root.children@ =~= Seq::<RadixNode>::empty());
    assert(count_seq(root.children@, 0) == 0);
    lemma_fresh_chain_count(mid, tokens, blocks, 0, 0, bs, c0, c1);
}

/// What a write gives back: after inserting `tokens` with `blocks` into an
/// empty cache (`bs` tokens per block), looking the same tokens up matches
/// as many tokens as the blocks cover and returns those blocks, in order.
pub proof fn fresh_insert_is_found(
    root: RadixNode,
    mid: RadixNode,
    tokens: Seq<TokenId>,
    blocks: Seq<BlockId>,
    bs: int,
    c0: u64,
    c1: u64,
)
    requires
        bare(root),
        bs > 0,
        inserted_root(root, mid, tokens, blocks, bs, c0, c1),
    ensures
        walk(mid, tokens, 0).0 == (if tokens.len() < blocks.len() * bs { tokens.len() as int } else { blocks.len() * bs }),
        walk(mid, tokens, 0).1 == blocks.take(if blocks.len() < ceil_div(tokens.len() as int, bs) {
            blocks.len() as int
        } else {
            ceil_div(tokens.len() as int, bs)
        }),
{
    assert(root.children@ =~= Seq::<RadixNode>::empty());
    lemma_fresh_chain_walk(mid, tokens, blocks, 0, 0, bs, c0, c1);
    let n = if blocks.len() < ceil_div(tokens.len() as int, bs) { blocks.len() as int } else { ceil_div(tokens.len() as int, bs) };
    assert(blocks.subrange(0, n) =~= blocks.take(n));
}

} // verus!

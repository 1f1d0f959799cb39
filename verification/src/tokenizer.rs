//! Byte-level BPE tokenizer for the HuggingFace `tokenizer.json` format.
//!
//! The vocabulary maps byte strings to token ids (the `Ġ`/`Ċ`/`ĉ` escapes of
//! the JSON are turned back into space, newline and tab); merges are applied
//! in priority order; decoding concatenates the bytes of each id.

use vstd::prelude::*;
use vstd::utf8::{encode_utf8, valid_utf8, decode_utf8};
use rustc_hash::FxHashMap;

verus! {

// ── The byte vocabulary ──────────────────────────────────────────────────────

/// Byte string → token id.
pub type ByteVocab = FxHashMap<Vec<u8>, u32>;

/// What a byte vocabulary holds: byte strings (by content) to ids.
pub uninterp spec fn byte_vocab(m: ByteVocab) -> Map<Seq<u8>, u32>;

/// `FxHashMap::default()`: an empty vocabulary.
#[verifier::external_body]
fn vocab_new() -> (r: ByteVocab)
    ensures
        byte_vocab(r).dom() == Set::<Seq<u8>>::empty(),
{
    FxHashMap::default()
}

/// `HashMap::insert`: `k` (by content) now maps to `v`.  Keys are compared
/// by `Vec`'s `Eq`, which compares contents, and hashed by the
/// deterministic `FxHasher`.
#[verifier::external_body]
fn vocab_insert(m: &mut ByteVocab, k: Vec<u8>, v: u32)
    ensures
        byte_vocab(*final(m)) == byte_vocab(*old(m)).insert(k@, v),
{
    m.insert(k, v);
}

/// `HashMap::get` with a byte-slice key: the id stored for those bytes.
#[verifier::external_body]
fn vocab_get(m: &ByteVocab, k: &[u8]) -> (r: Option<u32>)
    ensures
        r == (if byte_vocab(*m).contains_key(k@) { Some(byte_vocab(*m)[k@]) } else { None }),
{
    m.get(k).copied()
}

/// `HashMap::iter`, copied out in the table's walk order: every entry once.
#[verifier::external_body]
fn vocab_entries(m: &ByteVocab) -> (r: Vec<(Vec<u8>, u32)>)
    ensures
        forall|i: int| 0 <= i < r@.len() ==> byte_vocab(*m).contains_key((#[trigger] r@[i]).0@)
            && byte_vocab(*m)[r@[i].0@] == r@[i].1,
        forall|i: int, j: int| 0 <= i < j < r@.len() ==> (#[trigger] r@[i]).0@ != (#[trigger] r@[j]).0@,
        forall|k: Seq<u8>| #[trigger] byte_vocab(*m).contains_key(k) ==> exists|i: int| 0 <= i < r@.len() && r@[i].0@ == k,
{
    m.iter().map(|(k, v)| (k.clone(), *v)).collect()
}

// ── Characters and bytes ─────────────────────────────────────────────────────

/// `str::chars`, collected: the characters of `s` in order.
#[verifier::external_body]
fn str_chars(s: &str) -> (r: Vec<char>)
    ensures
        r@ == s@,
{
    s.chars().collect()
}

/// `char::encode_utf8`: the UTF-8 encoding of `c`.
#[verifier::external_body]
fn char_utf8(c: char) -> (r: Vec<u8>)
    ensures
        r@ == encode_utf8(seq![c]),
{
    let mut buf = [0u8; 4];
    c.encode_utf8(&mut buf).as_bytes().to_vec()
}

/// What `String::from_utf8_lossy` makes of `bytes`.
pub uninterp spec fn spec_utf8_lossy(bytes: Seq<u8>) -> Seq<char>;

/// `String::from_utf8_lossy(..).into_owned()`: valid UTF-8 is decoded as
/// is; each invalid sequence becomes U+FFFD (the exact replacement rule is
/// left to the name).
#[verifier::external_body]
fn utf8_lossy(bytes: &[u8]) -> (r: String)
    ensures
        r@ == spec_utf8_lossy(bytes@),
        valid_utf8(bytes@) ==> r@ == decode_utf8(bytes@),
{
    String::from_utf8_lossy(bytes).into_owned()
}

/// The bytes one character of a `tokenizer.json` token stands for: `Ġ`,
/// `Ċ` and `ĉ` are space, newline and tab; other characters below 256 are
/// that byte; the rest are their UTF-8 encoding.
pub open spec fn hf_char_bytes(c: char) -> Seq<u8> {
    if c == '\u{120}' {
        seq![32u8]
    } else if c == '\u{10a}' {
        seq![10u8]
    } else if c == '\u{109}' {
        seq![9u8]
    } else if (c as u32) < 256 {
        seq![c as u8]
    } else {
        encode_utf8(seq![c])
    }
}

/// The bytes a `tokenizer.json` token stands for.
pub open spec fn decode_hf(cs: Seq<char>) -> Seq<u8>
    decreases cs.len(),
{
    if cs.len() == 0 {
        Seq::empty()
    } else {
        decode_hf(cs.drop_last()) + hf_char_bytes(cs.last())
    }
}

/// HF `tokenizer.json` stores tokens with `Ġ`/`Ċ`/`ĉ` escapes; turn one
/// back into its bytes.
pub fn decode_hf_token(tok: &str) -> (r: Vec<u8>)
    ensures
        r@ == decode_hf(tok@),
{
    let chars = str_chars(tok);
    let mut bytes: Vec<u8> = Vec::new();
    let mut i: usize = 0;
    while i < chars.len()
        invariant
            chars@ == tok@,
            i <= chars@.len(),
            bytes@ == decode_hf(chars@.take(i as int)),
        decreases chars@.len() - i,
    {
        let ch = chars[i];
        let ghost before = bytes@;
        proof {
            assert(chars@.take(i + 1).drop_last() =~= chars@.take(i as int));
        }
        if ch == '\u{120}' {
            bytes.push(32u8);
        } else if ch == '\u{10a}' {
            bytes.push(10u8);
        } else if ch == '\u{109}' {
            bytes.push(9u8);
        } else if (ch as u32) < 256 {
            bytes.push(ch as u8);
        } else {
            let enc = char_utf8(ch);
            let mut j: usize = 0;
            while j < enc.len()
                invariant
                    j <= enc@.len(),
                    bytes@ == before + enc@.take(j as int),
                decreases enc@.len() - j,
            {
                bytes.push(enc[j]);
                proof {
                    assert(bytes@ =~= before + enc@.take(j + 1));
                }
                j = j + 1;
            }
            proof {
                assert(enc@.take(enc@.len() as int) =~= enc@);
            }
        }
        proof {
            assert(bytes@ =~= before + hf_char_bytes(ch));
        }
        i = i + 1;
    }
    proof {
        assert(chars@.take(chars@.len() as int) =~= chars@);
    }
    bytes
}

// ── Building the tokenizer ───────────────────────────────────────────────────

/// The vocabulary after the JSON vocabulary entries were entered in order,
/// each under the bytes its token stands for (later entries win).
pub open spec fn vocab_fold(m: Map<Seq<u8>, u32>, entries: Seq<(Seq<char>, u32)>) -> Map<Seq<u8>, u32>
    decreases entries.len(),
{
    if entries.len() == 0 {
        m
    } else {
        vocab_fold(m, entries.drop_last()).insert(decode_hf(entries.last().0), entries.last().1)
    }
}

/// The vocabulary after the added tokens were entered in order, each under
/// the UTF-8 bytes of its content.
pub open spec fn added_fold(m: Map<Seq<u8>, u32>, added: Seq<(u32, Seq<char>)>) -> Map<Seq<u8>, u32>
    decreases added.len(),
{
    if added.len() == 0 {
        m
    } else {
        added_fold(m, added.drop_last()).insert(encode_utf8(added.last().1), added.last().0)
    }
}

/// Index of the first space in `cs`, or -1.
pub open spec fn first_space(cs: Seq<char>) -> int
    decreases cs.len(),
{
    if cs.len() == 0 {
        -1
    } else {
        let p = first_space(cs.drop_last());
        if p >= 0 { p } else if cs.last() == ' ' { cs.len() - 1 } else { -1 }
    }
}

/// The merge rule a line `"left right"` stands for: the ids of the left
/// part, the right part and their concatenation, looked up by the UTF-8
/// bytes of the line's text; none when a part is missing from `m`.
pub open spec fn merge_rule(m: Map<Seq<u8>, u32>, line: Seq<char>) -> Option<(u32, u32, u32)> {
    let i = first_space(line);
    if i < 0 {
        None
    } else {
        let l = encode_utf8(line.take(i));
        let r = encode_utf8(line.skip(i + 1));
        if m.contains_key(l) && m.contains_key(r) && m.contains_key(l + r) {
            Some((m[l], m[r], m[l + r]))
        } else {
            None
        }
    }
}

/// The merge rules of `lines`, in order, skipping lines that give none.
pub open spec fn merge_rules(m: Map<Seq<u8>, u32>, lines: Seq<Seq<char>>) -> Seq<(u32, u32, u32)>
    decreases lines.len(),
{
    if lines.len() == 0 {
        Seq::empty()
    } else {
        let prev = merge_rules(m, lines.drop_last());
        match merge_rule(m, lines.last()) {
            Some(x) => prev.push(x),
            None => prev,
        }
    }
}

/// The id of `k` in `m`, or `default`.
pub open spec fn id_or(m: Map<Seq<u8>, u32>, k: Seq<u8>, default: u32) -> u32 {
    if m.contains_key(k) { m[k] } else { default }
}

/// The id of `k1`, else of `k2`, else `default`.
pub open spec fn id_or2(m: Map<Seq<u8>, u32>, k1: Seq<u8>, k2: Seq<u8>, default: u32) -> u32 {
    if m.contains_key(k1) { m[k1] } else { id_or(m, k2, default) }
}

pub open spec fn unk_bytes() -> Seq<u8> { seq![60u8, 117, 110, 107, 62] }
pub open spec fn bos_bytes() -> Seq<u8> { seq![60u8, 115, 62] }
pub open spec fn bos_alt_bytes() -> Seq<u8> { seq![60u8, 124, 98, 101, 103, 105, 110, 95, 111, 102, 95, 116, 101, 120, 116, 124, 62] }
pub open spec fn eos_bytes() -> Seq<u8> { seq![60u8, 47, 115, 62] }
pub open spec fn eos_alt_bytes() -> Seq<u8> { seq![60u8, 124, 101, 110, 100, 95, 111, 102, 95, 116, 101, 120, 116, 124, 62] }

/// A byte string of the vocabulary for `id`, or `[0]` when no byte string
/// has that id.
pub open spec fn rev_entry_ok(m: Map<Seq<u8>, u32>, id: int, bytes: Seq<u8>) -> bool {
    if exists|k: Seq<u8>| m.contains_key(k) && m[k] == id {
        m.contains_key(bytes) && m[bytes] == id
    } else {
        bytes == seq![0u8]
    }
}

pub struct Tokenizer {
    /// Bytes → token id.
    vocab: ByteVocab,
    /// Token id → bytes.
    vocab_rev: Vec<Vec<u8>>,
    /// (left, right, merged), highest priority first.
    merges: Vec<(u32, u32, u32)>,
    pub vocab_size: usize,
    unk_id: u32,
    bos_id: u32,
    eos_id: u32,
}

/// Copy a byte slice into a vector.
fn bytes_to_vec(v: &[u8]) -> (r: Vec<u8>)
    ensures
        r@ == v@,
{
    let mut r: Vec<u8> = Vec::new();
    let mut i: usize = 0;
    while i < v.len()
        invariant
            i <= v@.len(),
            r@ == v@.take(i as int),
        decreases v@.len() - i,
    {
        r.push(v[i]);
        proof {
            assert(r@ =~= v@.take(i + 1));
        }
        i = i + 1;
    }
    proof {
        assert(v@.take(v@.len() as int) =~= v@);
    }
    r
}

impl Tokenizer {
    /// Bytes → token id.
    pub closed spec fn vocab_map(&self) -> Map<Seq<u8>, u32> {
        byte_vocab(self.vocab)
    }

    /// Token id → bytes.
    pub closed spec fn rev_table(&self) -> Seq<Seq<u8>> {
        self.vocab_rev@.map_values(|v: Vec<u8>| v@)
    }

    /// Merge rules, highest priority first.
    pub closed spec fn merge_list(&self) -> Seq<(u32, u32, u32)> {
        self.merges@
    }

    /// (unknown, begin-of-sequence, end-of-sequence) ids.
    pub closed spec fn special_ids(&self) -> (u32, u32, u32) {
        (self.unk_id, self.bos_id, self.eos_id)
    }

    pub closed spec fn size(&self) -> usize {
        self.vocab_size
    }

    pub closed spec fn wf(&self) -> bool {
        self.merges@.len() <= u32::MAX
    }

    /// Build the tokenizer from the parts of a `tokenizer.json`: the model
    /// vocabulary (token text, id), the merge lines, and the added tokens
    /// (id, content).
    pub fn from_parts(vocab: &Vec<(String, u32)>, merges: &Vec<String>, added_tokens: &Vec<(u32, String)>) -> (t: Self)
        requires
            vocab@.len() + added_tokens@.len() <= usize::MAX,
            merges@.len() <= u32::MAX,
        ensures
            t.wf(),
            t.size() == vocab@.len() + added_tokens@.len(),
            t.vocab_map() == added_fold(
                vocab_fold(Map::empty(), vocab@.map_values(|e: (String, u32)| (e.0@, e.1))),
                added_tokens@.map_values(|e: (u32, String)| (e.0, e.1@)),
            ),
            t.rev_table().len() == t.size(),
            forall|id: int| 0 <= id < t.size() ==> #[trigger] rev_entry_ok(t.vocab_map(), id, t.rev_table()[id]),
            t.merge_list() == merge_rules(t.vocab_map(), merges@.map_values(|s: String| s@)),
            t.special_ids() == (
                id_or(t.vocab_map(), unk_bytes(), 0),
                id_or2(t.vocab_map(), bos_bytes(), bos_alt_bytes(), 1),
                id_or2(t.vocab_map(), eos_bytes(), eos_alt_bytes(), 2),
            ),
    {
        let vocab_size = vocab.len() + added_tokens.len();
        let ghost ventries = vocab@.map_values(|e: (String, u32)| (e.0@, e.1));
        let ghost aentries = added_tokens@.map_values(|e: (u32, String)| (e.0, e.1@));
        let mut map = vocab_new();
        proof {
            assert(byte_vocab(map) =~= Map::<Seq<u8>, u32>::empty());
            assert(ventries.take(0) =~= Seq::<(Seq<char>, u32)>::empty());
        }
        let mut i: usize = 0;
        while i < vocab.len()
            invariant
                i <= vocab@.len(),
                ventries == vocab@.map_values(|e: (String, u32)| (e.0@, e.1)),
                byte_vocab(map) == vocab_fold(Map::empty(), ventries.take(i as int)),
            decreases vocab@.len() - i,
        {
            let (tok, id) = &vocab[i];
            let bytes = decode_hf_token(tok.as_str());
            vocab_insert(&mut map, bytes, *id);
            proof {
                assert(ventries.take(i + 1).drop_last() =~= ventries.take(i as int));
            }
            i = i + 1;
        }
        proof {
            assert(ventries.take(vocab@.len() as int) =~= ventries);
            assert(aentries.take(0) =~= Seq::<(u32, Seq<char>)>::empty());
        }
        let ghost base = byte_vocab(map);
        let mut j: usize = 0;
        while j < added_tokens.len()
            invariant
                j <= added_tokens@.len(),
                aentries == added_tokens@.map_values(|e: (u32, String)| (e.0, e.1@)),
                byte_vocab(map) == added_fold(base, aentries.take(j as int)),
            decreases added_tokens@.len() - j,
        {
            let (id, content) = &added_tokens[j];
            let bytes = bytes_to_vec(content.as_str().as_bytes());
            vocab_insert(&mut map, bytes, *id);
            proof {
                assert(aentries.take(j + 1).drop_last() =~= aentries.take(j as int));
            }
            j = j + 1;
        }
        proof {
            assert(aentries.take(added_tokens@.len() as int) =~= aentries);
        }
        let ghost m = byte_vocab(map);
        // Reverse table: id → bytes.
        let mut vocab_rev: Vec<Vec<u8>> = Vec::new();
        let mut k: usize = 0;
        while k < vocab_size
            invariant
                k <= vocab_size,
                vocab_rev@.len() == k,
                forall|q: int| 0 <= q < k ==> (#[trigger] vocab_rev@[q])@ == seq![0u8],
            decreases vocab_size - k,
        {
            let mut z: Vec<u8> = Vec::new();
            z.push(0u8);
            vocab_rev.push(z);
            k = k + 1;
        }
        let entries = vocab_entries(&map);
        let ghost filled: Set<int> = Set::empty();
        let mut e: usize = 0;
        while e < entries.len()
            invariant
                m == byte_vocab(map),
                e <= entries@.len(),
                vocab_rev@.len() == vocab_size,
                forall|i: int| 0 <= i < entries@.len() ==> m.contains_key((#[trigger] entries@[i]).0@) && m[entries@[i].0@] == entries@[i].1,
                forall|k: Seq<u8>| #[trigger] m.contains_key(k) ==> exists|i: int| 0 <= i < entries@.len() && entries@[i].0@ == k,
                forall|q: int| 0 <= q < vocab_size ==> {
                    let v = (#[trigger] vocab_rev@[q])@;
                    if exists|i: int| 0 <= i < e && entries@[i].1 == q {
                        m.contains_key(v) && m[v] == q
                    } else {
                        v == seq![0u8]
                    }
                },
            decreases entries@.len() - e,
        {
            let (bytes, id) = &entries[e];
            if (*id as usize) < vocab_size {
                let ghost old_rev = vocab_rev@;
                let copy = bytes_to_vec(bytes.as_slice());
                vocab_rev.set(*id as usize, copy);
                proof {
                    assert forall|q: int| 0 <= q < vocab_size implies {
                        let v = (#[trigger] vocab_rev@[q])@;
                        if exists|i: int| 0 <= i < e + 1 && entries@[i].1 == q {
                            m.contains_key(v) && m[v] == q
                        } else {
                            v == seq![0u8]
                        }
                    } by {
                        if q == *id as int {
                            assert(0 <= e < e + 1 && entries@[e as int].1 == q);
                        } else {
                            assert(vocab_rev@[q] == old_rev[q]);
                            if exists|i: int| 0 <= i < e + 1 && entries@[i].1 == q {
                                let i = choose|i: int| 0 <= i < e + 1 && entries@[i].1 == q;
                                assert(i < e);
                            }
                        }
                    }
                }
            } else {
                proof {
                    assert forall|q: int| 0 <= q < vocab_size implies {
                        let v = (#[trigger] vocab_rev@[q])@;
                        if exists|i: int| 0 <= i < e + 1 && entries@[i].1 == q {
                            m.contains_key(v) && m[v] == q
                        } else {
                            v == seq![0u8]
                        }
                    } by {
                        if exists|i: int| 0 <= i < e + 1 && entries@[i].1 == q {
                            let i = choose|i: int| 0 <= i < e + 1 && entries@[i].1 == q;
                            assert(i < e);
                        }
                    }
                }
            }
            e = e + 1;
        }
        proof {
            let ghost rt = vocab_rev@.map_values(|v: Vec<u8>| v@);
            assert forall|q: int| 0 <= q < vocab_size implies #[trigger] rev_entry_ok(m, q, rt[q]) by {
                let v = vocab_rev@[q]@;
                if exists|k: Seq<u8>| m.contains_key(k) && m[k] == q {
                    let k = choose|k: Seq<u8>| m.contains_key(k) && m[k] == q;
                    let i = choose|i: int| 0 <= i < entries@.len() && entries@[i].0@ == k;
                    assert(entries@[i].1 == q);
                } else if exists|i: int| 0 <= i < entries@.len() && entries@[i].1 == q {
                    let i = choose|i: int| 0 <= i < entries@.len() && entries@[i].1 == q;
                    assert(m.contains_key(entries@[i].0@));
                }
            }
        }
        let merge_list = Self::parse_merges(&map, merges);
        proof {
            lemma_merge_rules_len(m, merges@.map_values(|s: String| s@));
        }
        let unk_id = match vocab_get(&map, vec![60u8, 117, 110, 107, 62].as_slice()) {
            Some(x) => x,
            None => 0,
        };
        let bos_id = match vocab_get(&map, vec![60u8, 115, 62].as_slice()) {
            Some(x) => x,
            None => match vocab_get(&map, vec![60u8, 124, 98, 101, 103, 105, 110, 95, 111, 102, 95, 116, 101, 120, 116, 124, 62].as_slice()) {
                Some(x) => x,
                None => 1,
            },
        };
        let eos_id = match vocab_get(&map, vec![60u8, 47, 115, 62].as_slice()) {
            Some(x) => x,
            None => match vocab_get(&map, vec![60u8, 124, 101, 110, 100, 95, 111, 102, 95, 116, 101, 120, 116, 124, 62].as_slice()) {
                Some(x) => x,
                None => 2,
            },
        };
        Tokenizer { vocab: map, vocab_rev, merges: merge_list, vocab_size, unk_id, bos_id, eos_id }
    }

    /// The merge rules of `lines`, looked up in `map`.
    fn parse_merges(map: &ByteVocab, lines: &Vec<String>) -> (r: Vec<(u32, u32, u32)>)
        ensures
            r@ == merge_rules(byte_vocab(*map), lines@.map_values(|s: String| s@)),
    {
        let ghost ls = lines@.map_values(|s: String| s@);
        let ghost m = byte_vocab(*map);
        let mut out: Vec<(u32, u32, u32)> = Vec::new();
        let mut i: usize = 0;
        proof {
            assert(ls.take(0) =~= Seq::<Seq<char>>::empty());
        }
        while i < lines.len()
            invariant
                i <= lines@.len(),
                ls == lines@.map_values(|s: String| s@),
                m == byte_vocab(*map),
                out@ == merge_rules(m, ls.take(i as int)),
            decreases lines@.len() - i,
        {
            let rule = Self::merge_line(map, lines[i].as_str());
            proof {
                assert(ls.take(i + 1).drop_last() =~= ls.take(i as int));
                assert(ls.take(i + 1).last() == lines@[i as int]@);
            }
            match rule {
                Some(x) => out.push(x),
                None => {},
            }
            i = i + 1;
        }
        proof {
            assert(ls.take(lines@.len() as int) =~= ls);
        }
        out
    }

    /// The merge rule of one line `"left right"`.
    fn merge_line(map: &ByteVocab, line: &str) -> (r: Option<(u32, u32, u32)>)
        ensures
            r == merge_rule(byte_vocab(*map), line@),
    {
        let chars = str_chars(line);
        let n = chars.len();
        let mut i: usize = 0;
        while i < n && chars[i] != ' '
            invariant
                chars@ == line@,
                n == chars@.len(),
                i <= n,
                first_space(chars@.take(i as int)) == -1,
            decreases n - i,
        {
            proof {
                assert(chars@.take(i + 1).drop_last() =~= chars@.take(i as int));
            }
            i = i + 1;
        }
        if i == n {
            proof {
                assert(chars@.take(n as int) =~= chars@);
            }
            return None;
        }
        proof {
            assert(chars@.take(i + 1).drop_last() =~= chars@.take(i as int));
            assert(first_space(chars@.take(i + 1)) == i);
            lemma_first_space_prefix(chars@, i as int);
        }
        let left = line.substring_char(0, i);
        let right = line.substring_char(i + 1, n);
        let lb = left.as_bytes();
        let rb = right.as_bytes();
        proof {
            assert(left@ == line@.take(i as int));
            assert(right@ =~= line@.skip(i + 1));
        }
        let lid = match vocab_get(map, lb) {
            Some(x) => x,
            None => return None,
        };
        let rid = match vocab_get(map, rb) {
            Some(x) => x,
            None => return None,
        };
        let mut both = bytes_to_vec(lb);
        let mut q: usize = 0;
        let ghost lv = both@;
        while q < rb.len()
            invariant
                q <= rb@.len(),
                both@ == lv + rb@.take(q as int),
            decreases rb@.len() - q,
        {
            both.push(rb[q]);
            proof {
                assert(both@ =~= lv + rb@.take(q + 1));
            }
            q = q + 1;
        }
        proof {
            assert(rb@.take(rb@.len() as int) =~= rb@);
        }
        let mid = match vocab_get(map, both.as_slice()) {
            Some(x) => x,
            None => return None,
        };
        Some((lid, rid, mid))
    }
}

// ── BPE ──────────────────────────────────────────────────────────────────────

/// The priority (index) of the first merge rule for the pair `(l, r)`, or -1.
pub open spec fn first_rule(merges: Seq<(u32, u32, u32)>, l: u32, r: u32) -> int
    decreases merges.len(),
{
    if merges.len() == 0 {
        -1
    } else {
        let p = first_rule(merges.drop_last(), l, r);
        if p >= 0 {
            p
        } else if merges.last().0 == l && merges.last().1 == r {
            merges.len() - 1
        } else {
            -1
        }
    }
}

/// The best mergeable pair among the pairs starting before position `n`:
/// (position, priority) of the pair whose rule has the highest priority,
/// the leftmost one among equals; (-1, -1) when none can be merged.
pub open spec fn best_pair(symbols: Seq<u32>, merges: Seq<(u32, u32, u32)>, n: int) -> (int, int)
    decreases n,
{
    if n <= 0 || n >= symbols.len() {
        (-1, -1)
    } else {
        let prev = best_pair(symbols, merges, n - 1);
        let f = first_rule(merges, symbols[n - 1], symbols[n]);
        if f >= 0 && (prev.0 < 0 || f < prev.1) { (n - 1, f) } else { prev }
    }
}

/// Merge the best pair, again and again, until no pair can be merged.
pub open spec fn bpe_merge(symbols: Seq<u32>, merges: Seq<(u32, u32, u32)>) -> Seq<u32>
    decreases symbols.len(),
{
    if symbols.len() < 2 {
        symbols
    } else {
        let b = best_pair(symbols, merges, symbols.len() - 1);
        if 0 <= b.0 < symbols.len() - 1 && 0 <= b.1 < merges.len() {
            bpe_merge(symbols.update(b.0, merges[b.1].2).remove(b.0 + 1), merges)
        } else {
            symbols
        }
    }
}

/// The byte-level tokens of `bytes`: each byte's own id, or `unk`.
pub open spec fn initial_symbols(m: Map<Seq<u8>, u32>, unk: u32, bytes: Seq<u8>) -> Seq<u32> {
    Seq::new(bytes.len(), |i: int| id_or(m, seq![bytes[i]], unk))
}

/// What encoding gives for `bytes` without a leading BOS.
pub open spec fn spec_bpe(m: Map<Seq<u8>, u32>, unk: u32, merges: Seq<(u32, u32, u32)>, bytes: Seq<u8>) -> Seq<u32> {
    bpe_merge(initial_symbols(m, unk, bytes), merges)
}

/// The bytes of the ids of `ids` that have an entry in `rev`, concatenated.
pub open spec fn decoded_bytes(rev: Seq<Seq<u8>>, ids: Seq<u32>) -> Seq<u8>
    decreases ids.len(),
{
    if ids.len() == 0 {
        Seq::empty()
    } else {
        let prev = decoded_bytes(rev, ids.drop_last());
        if (ids.last() as int) < rev.len() { prev + rev[ids.last() as int] } else { prev }
    }
}

proof fn lemma_best_pair_range(symbols: Seq<u32>, merges: Seq<(u32, u32, u32)>, n: int)
    ensures
        best_pair(symbols, merges, n).0 < 0 || (0 <= best_pair(symbols, merges, n).0 < n
            && 0 <= best_pair(symbols, merges, n).1
            && best_pair(symbols, merges, n).1 == first_rule(merges, symbols[best_pair(symbols, merges, n).0], symbols[best_pair(symbols, merges, n).0 + 1])),
    decreases n,
{
    if n > 0 && n < symbols.len() {
        lemma_best_pair_range(symbols, merges, n - 1);
    }
}

proof fn lemma_first_rule_range(merges: Seq<(u32, u32, u32)>, l: u32, r: u32)
    ensures
        -1 <= first_rule(merges, l, r) < merges.len(),
        first_rule(merges, l, r) >= 0 ==> merges[first_rule(merges, l, r)].0 == l && merges[first_rule(merges, l, r)].1 == r,
        first_rule(merges, l, r) < 0 ==> forall|j: int| 0 <= j < merges.len() ==> !(merges[j].0 == l && merges[j].1 == r),
    decreases merges.len(),
{
    if merges.len() > 0 {
        lemma_first_rule_range(merges.drop_last(), l, r);
        if first_rule(merges, l, r) < 0 {
            assert forall|j: int| 0 <= j < merges.len() implies !(merges[j].0 == l && merges[j].1 == r) by {
                if j < merges.len() - 1 {
                    assert(merges.drop_last()[j] == merges[j]);
                }
            }
        }
    }
}

/// The first rule of a pair is that of the shortest prefix that holds one.
proof fn lemma_first_rule_prefix(merges: Seq<(u32, u32, u32)>, l: u32, r: u32, k: int)
    requires
        0 <= k <= merges.len(),
    ensures
        first_rule(merges.take(k), l, r) >= 0 ==> first_rule(merges, l, r) == first_rule(merges.take(k), l, r),
        first_rule(merges.take(k), l, r) < 0 && k < merges.len() && merges[k].0 == l && merges[k].1 == r
            ==> first_rule(merges, l, r) == k,
    decreases merges.len() - k,
{
    if k < merges.len() {
        assert(merges.take(k + 1).drop_last() =~= merges.take(k));
        lemma_first_rule_prefix(merges, l, r, k + 1);
    } else {
        assert(merges.take(k) =~= merges);
    }
}

/// Merging never makes the token sequence longer.
pub proof fn bpe_never_lengthens(symbols: Seq<u32>, merges: Seq<(u32, u32, u32)>)
    ensures
        bpe_merge(symbols, merges).len() <= symbols.len(),
    decreases symbols.len(),
{
    if symbols.len() >= 2 {
        let b = best_pair(symbols, merges, symbols.len() - 1);
        if 0 <= b.0 < symbols.len() - 1 && 0 <= b.1 < merges.len() {
            bpe_never_lengthens(symbols.update(b.0, merges[b.1].2).remove(b.0 + 1), merges);
        }
    }
}

impl Tokenizer {
    /// Encode a single string to token ids, with a leading BOS if asked.
    pub fn encode(&self, text: &str, add_bos: bool) -> (r: Vec<u32>)
        requires
            self.wf(),
        ensures
            r@ == (if add_bos { seq![self.special_ids().1] } else { Seq::empty() })
                + spec_bpe(self.vocab_map(), self.special_ids().0, self.merge_list(), encode_utf8(text@)),
    {
        let mut ids: Vec<u32> = Vec::new();
        if add_bos {
            ids.push(self.bos_id);
        }
        let body = self.bpe_encode(text.as_bytes());
        let ghost before = ids@;
        let mut i: usize = 0;
        while i < body.len()
            invariant
                i <= body@.len(),
                ids@ == before + body@.take(i as int),
            decreases body@.len() - i,
        {
            ids.push(body[i]);
            proof {
                assert(ids@ =~= before + body@.take(i + 1));
            }
            i = i + 1;
        }
        proof {
            assert(body@.take(body@.len() as int) =~= body@);
            assert(before =~= (if add_bos { seq![self.special_ids().1] } else { Seq::empty() }));
        }
        ids
    }

    /// Decode token ids to a string (best effort): the bytes of every known
    /// id, concatenated, read as UTF-8 with invalid sequences replaced.
    pub fn decode(&self, ids: &[u32]) -> (r: String)
        ensures
            r@ == spec_utf8_lossy(decoded_bytes(self.rev_table(), ids@)),
            valid_utf8(decoded_bytes(self.rev_table(), ids@)) ==> r@ == decode_utf8(decoded_bytes(self.rev_table(), ids@)),
    {
        let mut bytes: Vec<u8> = Vec::new();
        let mut i: usize = 0;
        proof {
            assert(ids@.take(0) =~= Seq::<u32>::empty());
        }
        while i < ids.len()
            invariant
                i <= ids@.len(),
                bytes@ == decoded_bytes(self.rev_table(), ids@.take(i as int)),
            decreases ids@.len() - i,
        {
            let id = ids[i];
            proof {
                assert(ids@.take(i + 1).drop_last() =~= ids@.take(i as int));
            }
            if (id as usize) < self.vocab_rev.len() {
                let entry = &self.vocab_rev[id as usize];
                let ghost before = bytes@;
                let mut j: usize = 0;
                while j < entry.len()
                    invariant
                        j <= entry@.len(),
                        bytes@ == before + entry@.take(j as int),
                    decreases entry@.len() - j,
                {
                    bytes.push(entry[j]);
                    proof {
                        assert(bytes@ =~= before + entry@.take(j + 1));
                    }
                    j = j + 1;
                }
                proof {
                    assert(entry@.take(entry@.len() as int) =~= entry@);
                }
            }
            i = i + 1;
        }
        proof {
            assert(ids@.take(ids@.len() as int) =~= ids@);
        }
        utf8_lossy(bytes.as_slice())
    }

    pub fn bos_id(&self) -> (r: u32)
        ensures
            r == self.special_ids().1,
    {
        self.bos_id
    }

    pub fn eos_id(&self) -> (r: u32)
        ensures
            r == self.special_ids().2,
    {
        self.eos_id
    }

    /// The priority of the first merge rule for the pair `(l, r)`.
    fn find_rule(&self, l: u32, r: u32) -> (res: Option<usize>)
        ensures
            match res {
                Some(j) => first_rule(self.merges@, l, r) == j,
                None => first_rule(self.merges@, l, r) < 0,
            },
    {
        let ghost merges = self.merges@;
        let mut j: usize = 0;
        proof {
            assert(merges.take(0) =~= Seq::<(u32, u32, u32)>::empty());
        }
        while j < self.merges.len()
            invariant
                j <= merges.len(),
                merges == self.merges@,
                first_rule(merges.take(j as int), l, r) < 0,
            decreases merges.len() - j,
        {
            let (ml, mr, _mm) = self.merges[j];
            if ml == l && mr == r {
                proof {
                    lemma_first_rule_prefix(merges, l, r, j as int);
                }
                return Some(j);
            }
            proof {
                assert(merges.take(j + 1).drop_last() =~= merges.take(j as int));
            }
            j = j + 1;
        }
        proof {
            assert(merges.take(j as int) =~= merges);
        }
        None
    }

    /// Byte-level BPE: start from one token per byte, then merge the best
    /// pair (highest-priority rule, leftmost) until none is left.
    fn bpe_encode(&self, bytes: &[u8]) -> (r: Vec<u32>)
        requires
            self.wf(),
        ensures
            r@ == spec_bpe(self.vocab_map(), self.special_ids().0, self.merge_list(), bytes@),
    {
        let ghost m = self.vocab_map();
        let ghost merges = self.merges@;
        if bytes.len() == 0 {
            let r: Vec<u32> = Vec::new();
            proof {
                assert(initial_symbols(m, self.unk_id, bytes@) =~= Seq::<u32>::empty());
            }
            return r;
        }
        let mut symbols: Vec<u32> = Vec::new();
        let mut i: usize = 0;
        while i < bytes.len()
            invariant
                i <= bytes@.len(),
                m == self.vocab_map(),
                symbols@ == initial_symbols(m, self.unk_id, bytes@).take(i as int),
            decreases bytes@.len() - i,
        {
            let mut one: Vec<u8> = Vec::new();
            one.push(bytes[i]);
            let id = match vocab_get(&self.vocab, one.as_slice()) {
                Some(x) => x,
                None => self.unk_id,
            };
            symbols.push(id);
            proof {
                assert(one@ =~= seq![bytes@[i as int]]);
                assert(symbols@ =~= initial_symbols(m, self.unk_id, bytes@).take(i + 1));
            }
            i = i + 1;
        }
        proof {
            assert(initial_symbols(m, self.unk_id, bytes@).take(bytes@.len() as int) =~= initial_symbols(m, self.unk_id, bytes@));
        }
        assert(symbols@ == initial_symbols(m, self.unk_id, bytes@));
        let ghost target = spec_bpe(m, self.unk_id, merges, bytes@);
        loop
            invariant
                self.wf(),
                merges == self.merges@,
                target == bpe_merge(symbols@, merges),
            ensures
                target == symbols@,
            decreases symbols@.len(),
        {
            let mut found = false;
            let mut best_pos: usize = 0;
            let mut best_pri: usize = 0;
            let n = symbols.len().saturating_sub(1);
            let mut p: usize = 0;
            while p < n
                invariant
                    n == (if symbols@.len() > 0 { symbols@.len() - 1 } else { 0 }),
                    p <= n,
                    merges == self.merges@,
                    found == (best_pair(symbols@, merges, p as int).0 >= 0),
                    found ==> best_pair(symbols@, merges, p as int) == (best_pos as int, best_pri as int),
                decreases n - p,
            {
                let l = symbols[p];
                let r = symbols[p + 1];
                match self.find_rule(l, r) {
                    Some(j) => {
                        if !found || j < best_pri {
                            found = true;
                            best_pos = p;
                            best_pri = j;
                        }
                    },
                    None => {},
                }
                proof {
                    lemma_best_pair_range(symbols@, merges, p as int);
                }
                p = p + 1;
            }
            proof {
                lemma_best_pair_range(symbols@, merges, n as int);
                if found {
                    lemma_first_rule_range(merges, symbols@[best_pos as int], symbols@[best_pos + 1]);
                }
            }
            if !found {
                proof {
                    assert(bpe_merge(symbols@, merges) == symbols@);
                }
                break;
            }
            let merged = self.merges[best_pri].2;
            let ghost before = symbols@;
            symbols.set(best_pos, merged);
            symbols.remove(best_pos + 1);
            proof {
                assert(symbols@ =~= before.update(best_pos as int, merges[best_pri as int].2).remove(best_pos + 1));
            }
        }
        symbols
    }
}

/// There are no more merge rules than lines.
proof fn lemma_merge_rules_len(m: Map<Seq<u8>, u32>, lines: Seq<Seq<char>>)
    ensures
        merge_rules(m, lines).len() <= lines.len(),
    decreases lines.len(),
{
    if lines.len() > 0 {
        lemma_merge_rules_len(m, lines.drop_last());
    }
}

/// The first space of a sequence is the first space of any prefix that
/// already holds it.
proof fn lemma_first_space_prefix(cs: Seq<char>, i: int)
    requires
        0 <= i < cs.len(),
        first_space(cs.take(i + 1)) == i,
    ensures
        first_space(cs) == i,
    decreases cs.len(),
{
    if cs.len() > i + 1 {
        assert(cs.drop_last().take(i + 1) =~= cs.take(i + 1));
        lemma_first_space_prefix(cs.drop_last(), i);
    } else {
        assert(cs.take(i + 1) =~= cs);
    }
}

/// Merge rule `g` applies to the pair at position `j`.
pub open spec fn rule_fits(symbols: Seq<u32>, merges: Seq<(u32, u32, u32)>, j: int, g: int) -> bool {
    &&& 0 <= j < symbols.len() - 1
    &&& 0 <= g < merges.len()
    &&& merges[g].0 == symbols[j]
    &&& merges[g].1 == symbols[j + 1]
}

proof fn lemma_first_rule_least(merges: Seq<(u32, u32, u32)>, l: u32, r: u32, g: int)
    requires
        0 <= g < merges.len(),
        merges[g].0 == l && merges[g].1 == r,
    ensures
        0 <= first_rule(merges, l, r) <= g,
    decreases merges.len(),
{
    lemma_first_rule_range(merges, l, r);
    if g < merges.len() - 1 {
        assert(merges.drop_last()[g] == merges[g]);
        lemma_first_rule_least(merges.drop_last(), l, r, g);
    }
}

proof fn lemma_best_pair_is(symbols: Seq<u32>, merges: Seq<(u32, u32, u32)>, i: int, f: int, n: int)
    requires
        rule_fits(symbols, merges, i, f),
        forall|j: int, g: int| rule_fits(symbols, merges, j, g) ==> f < g || (f == g && i <= j),
        0 <= n <= symbols.len() - 1,
    ensures
        n <= i ==> best_pair(symbols, merges, n).0 < 0 || best_pair(symbols, merges, n).1 > f,
        n > i ==> best_pair(symbols, merges, n) == (i, f),
    decreases n,
{
    if n > 0 {
        lemma_best_pair_is(symbols, merges, i, f, n - 1);
        let l = symbols[n - 1];
        let r = symbols[n];
        let f2 = first_rule(merges, l, r);
        lemma_first_rule_range(merges, l, r);
        if f2 >= 0 {
            assert(rule_fits(symbols, merges, n - 1, f2));
        }
        if n - 1 == i {
            lemma_first_rule_least(merges, l, r, f);
        }
    }
}

proof fn lemma_best_pair_none(symbols: Seq<u32>, merges: Seq<(u32, u32, u32)>, n: int)
    requires
        forall|j: int, g: int| !rule_fits(symbols, merges, j, g),
        0 <= n,
    ensures
        best_pair(symbols, merges, n).0 < 0,
    decreases n,
{
    if n > 0 && n < symbols.len() {
        lemma_best_pair_none(symbols, merges, n - 1);
        let l = symbols[n - 1];
        let r = symbols[n];
        lemma_first_rule_range(merges, l, r);
        let f2 = first_rule(merges, l, r);
        if f2 >= 0 {
            assert(rule_fits(symbols, merges, n - 1, f2));
        }
    }
}

/// Merges apply in priority order: the pair merged first is one whose rule
/// comes earliest in the merge list among all adjacent pairs that have a
/// rule, and among pairs with that same rule, the leftmost.  Encoding then
/// goes on from the merged sequence.
pub proof fn bpe_merges_the_best_pair_first(symbols: Seq<u32>, merges: Seq<(u32, u32, u32)>, i: int, f: int)
    requires
        rule_fits(symbols, merges, i, f),
        forall|j: int, g: int| rule_fits(symbols, merges, j, g) ==> f < g || (f == g && i <= j),
    ensures
        bpe_merge(symbols, merges) == bpe_merge(symbols.update(i, merges[f].2).remove(i + 1), merges),
{
    lemma_best_pair_is(symbols, merges, i, f, symbols.len() - 1);
}

/// Merging stops when no adjacent pair has a rule.
pub proof fn bpe_stops_without_a_rule(symbols: Seq<u32>, merges: Seq<(u32, u32, u32)>)
    requires
        forall|j: int, g: int| !rule_fits(symbols, merges, j, g),
    ensures
        bpe_merge(symbols, merges) == symbols,
{
    if symbols.len() >= 2 {
        lemma_best_pair_none(symbols, merges, symbols.len() - 1);
    }
}

// ── Round trip ───────────────────────────────────────────────────────────────

/// The reverse table undoes the vocabulary: every id of `m` has an entry in
/// `rev`, and that entry is the byte string filed under it.
pub open spec fn rev_inverts(m: Map<Seq<u8>, u32>, rev: Seq<Seq<u8>>) -> bool {
    forall|k: Seq<u8>| #[trigger] m.contains_key(k) ==> m[k] < rev.len() && rev[m[k] as int] == k
}

/// Every merge rule joins two known tokens into the token of their
/// concatenated bytes.
pub open spec fn merges_concat(rev: Seq<Seq<u8>>, merges: Seq<(u32, u32, u32)>) -> bool {
    forall|i: int| 0 <= i < merges.len() ==> {
        let x = #[trigger] merges[i];
        &&& x.0 < rev.len()
        &&& x.1 < rev.len()
        &&& x.2 < rev.len()
        &&& rev[x.2 as int] == rev[x.0 as int] + rev[x.1 as int]
    }
}

/// All ids of `s` have an entry in `rev`.
pub open spec fn known_ids(rev: Seq<Seq<u8>>, s: Seq<u32>) -> bool {
    forall|i: int| 0 <= i < s.len() ==> (#[trigger] s[i]) < rev.len()
}

proof fn lemma_merge_rules_concat(m: Map<Seq<u8>, u32>, rev: Seq<Seq<u8>>, lines: Seq<Seq<char>>)
    requires
        rev_inverts(m, rev),
    ensures
        merges_concat(rev, merge_rules(m, lines)),
    decreases lines.len(),
{
    if lines.len() > 0 {
        lemma_merge_rules_concat(m, rev, lines.drop_last());
        let prev = merge_rules(m, lines.drop_last());
        match merge_rule(m, lines.last()) {
            Some(x) => {
                let i = first_space(lines.last());
                let l = encode_utf8(lines.last().take(i));
                let r = encode_utf8(lines.last().skip(i + 1));
                assert(m.contains_key(l) && m.contains_key(r) && m.contains_key(l + r));
                let all = prev.push(x);
                assert forall|j: int| 0 <= j < all.len() implies {
                    let y = #[trigger] all[j];
                    &&& y.0 < rev.len()
                    &&& y.1 < rev.len()
                    &&& y.2 < rev.len()
                    &&& rev[y.2 as int] == rev[y.0 as int] + rev[y.1 as int]
                } by {
                    if j < prev.len() {
                        assert(all[j] == prev[j]);
                    }
                }
            },
            None => {},
        }
    }
}

proof fn lemma_decoded_concat(rev: Seq<Seq<u8>>, a: Seq<u32>, b: Seq<u32>)
    ensures
        decoded_bytes(rev, a + b) == decoded_bytes(rev, a) + decoded_bytes(rev, b),
    decreases b.len(),
{
    if b.len() == 0 {
        assert(a + b =~= a);
        assert(decoded_bytes(rev, a) + Seq::<u8>::empty() =~= decoded_bytes(rev, a));
    } else {
        lemma_decoded_concat(rev, a, b.drop_last());
        assert((a + b).drop_last() =~= a + b.drop_last());
        assert((a + b).last() == b.last());
        let x = decoded_bytes(rev, a);
        let y = decoded_bytes(rev, b.drop_last());
        if (b.last() as int) < rev.len() {
            assert(x + y + rev[b.last() as int] =~= x + (y + rev[b.last() as int]));
        }
    }
}

proof fn lemma_initial_decodes(m: Map<Seq<u8>, u32>, rev: Seq<Seq<u8>>, unk: u32, bytes: Seq<u8>)
    requires
        rev_inverts(m, rev),
        forall|i: int| 0 <= i < bytes.len() ==> m.contains_key(seq![#[trigger] bytes[i]]),
    ensures
        known_ids(rev, initial_symbols(m, unk, bytes)),
        decoded_bytes(rev, initial_symbols(m, unk, bytes)) == bytes,
    decreases bytes.len(),
{
    let s = initial_symbols(m, unk, bytes);
    assert forall|i: int| 0 <= i < s.len() implies (#[trigger] s[i]) < rev.len() by {
        assert(m.contains_key(seq![bytes[i]]));
    }
    if bytes.len() > 0 {
        let b2 = bytes.drop_last();
        assert forall|i: int| 0 <= i < b2.len() implies m.contains_key(seq![#[trigger] b2[i]]) by {
            assert(b2[i] == bytes[i]);
        }
        lemma_initial_decodes(m, rev, unk, b2);
        assert(s.drop_last() =~= initial_symbols(m, unk, b2));
        let last = bytes.last();
        assert(m.contains_key(seq![last]));
        assert(s.last() == m[seq![last]]);
        assert(rev[s.last() as int] == seq![last]);
        assert(b2 + seq![last] =~= bytes);
    } else {
        assert(s.len() == 0);
    }
}

proof fn lemma_bpe_decodes(rev: Seq<Seq<u8>>, symbols: Seq<u32>, merges: Seq<(u32, u32, u32)>)
    requires
        known_ids(rev, symbols),
        merges_concat(rev, merges),
    ensures
        decoded_bytes(rev, bpe_merge(symbols, merges)) == decoded_bytes(rev, symbols),
    decreases symbols.len(),
{
    if symbols.len() >= 2 {
        let b = best_pair(symbols, merges, symbols.len() - 1);
        if 0 <= b.0 < symbols.len() - 1 && 0 <= b.1 < merges.len() {
            let i = b.0;
            lemma_best_pair_range(symbols, merges, symbols.len() - 1);
            lemma_first_rule_range(merges, symbols[i], symbols[i + 1]);
            let rule = merges[b.1];
            assert(rule.0 == symbols[i] && rule.1 == symbols[i + 1]);
            let next = symbols.update(i, rule.2).remove(i + 1);
            let front = symbols.take(i);
            let back = symbols.skip(i + 2);
            assert(symbols =~= front + seq![rule.0, rule.1] + back);
            assert(next =~= front + seq![rule.2] + back);
            lemma_decoded_concat(rev, front + seq![rule.0, rule.1], back);
            lemma_decoded_concat(rev, front, seq![rule.0, rule.1]);
            lemma_decoded_concat(rev, front + seq![rule.2], back);
            lemma_decoded_concat(rev, front, seq![rule.2]);
            assert(seq![rule.0, rule.1].drop_last() =~= seq![rule.0]);
            assert(seq![rule.0].drop_last() =~= Seq::<u32>::empty());
            assert(seq![rule.2].drop_last() =~= Seq::<u32>::empty());
            assert(symbols[i] < rev.len() && symbols[i + 1] < rev.len());
            assert(decoded_bytes(rev, Seq::<u32>::empty()) == Seq::<u8>::empty());
            assert(seq![rule.0].last() == rule.0);
            assert(Seq::<u8>::empty() + rev[rule.0 as int] =~= rev[rule.0 as int]);
            assert(decoded_bytes(rev, seq![rule.0]) =~= rev[rule.0 as int]);
            assert(decoded_bytes(rev, seq![rule.0, rule.1]) =~= rev[rule.0 as int] + rev[rule.1 as int]);
            assert(decoded_bytes(rev, seq![rule.2]) =~= rev[rule.2 as int]);
            assert forall|j: int| 0 <= j < next.len() implies (#[trigger] next[j]) < rev.len() by {
                if j < i {
                    assert(next[j] == symbols[j]);
                } else if j > i {
                    assert(next[j] == symbols[j + 1]);
                }
            }
            lemma_bpe_decodes(rev, next, merges);
        }
    }
}

/// Decoding undoes encoding: when every byte of the text has a one-byte
/// token, distinct byte strings have distinct ids below the vocabulary size
/// and the merge rules come from the vocabulary (as `from_parts` builds
/// them), the bytes of the encoded ids are the text's UTF-8 bytes, which
/// decode back to the text.
pub proof fn decode_undoes_encode(t: &Tokenizer, lines: Seq<Seq<char>>, text: Seq<char>)
    requires
        t.rev_table().len() == t.size(),
        forall|id: int| 0 <= id < t.size() ==> #[trigger] rev_entry_ok(t.vocab_map(), id, t.rev_table()[id]),
        forall|k: Seq<u8>| #[trigger] t.vocab_map().contains_key(k) ==> t.vocab_map()[k] < t.size(),
        forall|k1: Seq<u8>, k2: Seq<u8>| #[trigger] t.vocab_map().contains_key(k1) && #[trigger] t.vocab_map().contains_key(k2)
            && t.vocab_map()[k1] == t.vocab_map()[k2] ==> k1 == k2,
        t.merge_list() == merge_rules(t.vocab_map(), lines),
        forall|i: int| 0 <= i < encode_utf8(text).len() ==> t.vocab_map().contains_key(seq![#[trigger] encode_utf8(text)[i]]),
    ensures
        decoded_bytes(t.rev_table(), spec_bpe(t.vocab_map(), t.special_ids().0, t.merge_list(), encode_utf8(text))) == encode_utf8(text),
        valid_utf8(encode_utf8(text)),
        decode_utf8(encode_utf8(text)) == text,
{
    let m = t.vocab_map();
    let rev = t.rev_table();
    assert forall|k: Seq<u8>| #[trigger] m.contains_key(k) implies m[k] < rev.len() && rev[m[k] as int] == k by {
        let id = m[k] as int;
        assert(rev_entry_ok(m, id, rev[id]));
        assert(m.contains_key(k) && m[k] == id);
    }
    lemma_merge_rules_concat(m, rev, lines);
    let bytes = encode_utf8(text);
    lemma_initial_decodes(m, rev, t.special_ids().0, bytes);
    lemma_bpe_decodes(rev, initial_symbols(m, t.special_ids().0, bytes), t.merge_list());
    vstd::utf8::encode_utf8_valid_utf8(text);
    vstd::utf8::encode_utf8_decode_utf8(text);
}

} // verus!

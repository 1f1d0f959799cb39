//! Model weights in memory-mapped safetensors files: the tensor table of
//! each file, the table of all shards, and the bytes of one tensor.

use vstd::prelude::*;
use vstd::bytes::u64_from_le_bytes;
use vstd::slice::slice_subrange;
use memmap2::Mmap;
use crate::json::{JsonValue, parse_json, spec_parse_json, spec_index, str_eq};
use crate::quantization::{header_len, offset_value, shape_values};

verus! {

/// Element types of a tensor.
#[derive(Debug, Clone, Copy, PartialEq, Eq, Structural)]
pub enum DType {
    F32,
    F16,
    BF16,
    I8,
    I4,
}

/// Where one tensor lies in a mapped file.
#[derive(Debug, Clone)]
pub struct TensorInfo {
    pub name: String,
    pub shape: Vec<usize>,
    pub dtype: DType,
    /// Byte offset in the mapped file.
    pub offset: usize,
    pub nbytes: usize,
}

/// A `TensorInfo` as plain values.
pub struct TensorInfoView {
    pub name: Seq<char>,
    pub shape: Seq<usize>,
    pub dtype: DType,
    pub offset: usize,
    pub nbytes: usize,
}

impl View for TensorInfo {
    type V = TensorInfoView;

    open spec fn view(&self) -> TensorInfoView {
        TensorInfoView {
            name: self.name@,
            shape: self.shape@,
            dtype: self.dtype,
            offset: self.offset,
            nbytes: self.nbytes,
        }
    }
}

impl TensorInfo {
    /// A copy of this entry.
    pub fn duplicate(&self) -> (r: Self)
        ensures
            r@ == self@,
    {
        let mut shape: Vec<usize> = Vec::new();
        let mut i: usize = 0;
        while i < self.shape.len()
            invariant
                i <= self.shape@.len(),
                shape@ == self.shape@.take(i as int),
            decreases self.shape@.len() - i,
        {
            shape.push(self.shape[i]);
            proof {
                assert(shape@ =~= self.shape@.take(i + 1));
            }
            i = i + 1;
        }
        proof {
            assert(self.shape@.take(self.shape@.len() as int) =~= self.shape@);
        }
        TensorInfo { name: self.name.clone(), shape, dtype: self.dtype, offset: self.offset, nbytes: self.nbytes }
    }
}

/// The views of a list of tensors.
pub open spec fn infos_view(v: Seq<TensorInfo>) -> Seq<TensorInfoView> {
    v.map_values(|t: TensorInfo| t@)
}

/// A memory map of a weight file.
#[verifier::external_type_specification]
#[verifier::external_body]
pub struct ExMmap(Mmap);

/// The bytes a memory map shows.
pub uninterp spec fn mmap_contents(m: Mmap) -> Seq<u8>;

/// `Mmap::deref`: the mapped bytes.
#[verifier::external_body]
fn mmap_bytes(m: &Mmap) -> (r: &[u8])
    ensures
        r@ == mmap_contents(*m),
{
    &m[..]
}

/// Why a weight file could not be read.
#[derive(Debug, Clone, Copy, PartialEq, Eq, Structural)]
pub enum LoadError {
    /// Fewer than the eight bytes of the length field.
    TooSmall,
    /// The header length runs past the end of the file.
    HeaderOverflow,
    /// The header is not valid JSON.
    InvalidJson,
}

impl LoadError {
    /// The message for this error.
    pub fn message(&self) -> (r: &'static str)
        ensures
            r@ == (match *self {
                LoadError::TooSmall => "file too small to be safetensors"@,
                LoadError::HeaderOverflow => "safetensors header length overflows file"@,
                LoadError::InvalidJson => "parsing safetensors JSON header"@,
            }),
    {
        match self {
            LoadError::TooSmall => "file too small to be safetensors",
            LoadError::HeaderOverflow => "safetensors header length overflows file",
            LoadError::InvalidJson => "parsing safetensors JSON header",
        }
    }
}

/// The element type a header names; F32 for any other name.
pub open spec fn dtype_named(s: Seq<char>) -> DType {
    if s == "F32"@ || s == "f32"@ {
        DType::F32
    } else if s == "F16"@ || s == "f16"@ {
        DType::F16
    } else if s == "BF16"@ || s == "bf16"@ {
        DType::BF16
    } else if s == "I8"@ || s == "i8"@ {
        DType::I8
    } else {
        DType::F32
    }
}

/// `v[i]` of a JSON value: the element of an array, `Null` otherwise.
pub open spec fn json_at(v: JsonValue, i: int) -> JsonValue {
    match v {
        JsonValue::Array(a) => if 0 <= i < a@.len() {
            a@[i]
        } else {
            JsonValue::Null
        },
        _ => JsonValue::Null,
    }
}

/// The entry for tensor `name` with metadata `meta`, its data offsets
/// counted from `base` (wrapping, as in a release build).
pub open spec fn info_entry(name: Seq<char>, meta: JsonValue, base: usize) -> TensorInfoView {
    let dtype = match spec_index(meta, "dtype"@) {
        JsonValue::Str(s) => dtype_named(s@),
        _ => DType::F32,
    };
    let shape = match spec_index(meta, "shape"@) {
        JsonValue::Array(a) => shape_values(a@),
        _ => seq![],
    };
    let offs = spec_index(meta, "data_offsets"@);
    let start = offset_value(json_at(offs, 0)).wrapping_add(base);
    let end = offset_value(json_at(offs, 1)).wrapping_add(base);
    TensorInfoView { name, shape, dtype, offset: start, nbytes: end.wrapping_sub(start) }
}

/// The entries of a header object's members, in order, without
/// `__metadata__`.
pub open spec fn infos_of(members: Seq<(String, JsonValue)>, base: usize) -> Seq<TensorInfoView>
    decreases members.len(),
{
    if members.len() == 0 {
        seq![]
    } else {
        let rest = infos_of(members.drop_last(), base);
        let name = members.last().0@;
        if name == "__metadata__"@ {
            rest
        } else {
            rest.push(info_entry(name, members.last().1, base))
        }
    }
}

/// The entries a parsed header lists; none unless it is an object.
pub open spec fn header_infos(v: JsonValue, base: usize) -> Seq<TensorInfoView> {
    match v {
        JsonValue::Object(members) => infos_of(members@, base),
        _ => seq![],
    }
}

/// The element type a header names.
fn dtype_from(s: &str) -> (r: DType)
    ensures
        r == dtype_named(s@),
{
    if str_eq(s, "F32") || str_eq(s, "f32") {
        DType::F32
    } else if str_eq(s, "F16") || str_eq(s, "f16") {
        DType::F16
    } else if str_eq(s, "BF16") || str_eq(s, "bf16") {
        DType::BF16
    } else if str_eq(s, "I8") || str_eq(s, "i8") {
        DType::I8
    } else {
        DType::F32
    }
}

/// The offset entry `i` of `offs`, or zero.
fn offset_at(offs: Option<&JsonValue>, i: usize) -> (r: usize)
    ensures
        r == offset_value(
            json_at(
                match offs {
                    Some(o) => *o,
                    None => JsonValue::Null,
                },
                i as int,
            ),
        ),
{
    match offs {
        Some(o) => match o.as_array() {
            Some(a) => if i < a.len() {
                match a[i].as_u64() {
                    Some(n) => n as usize,
                    None => 0,
                }
            } else {
                0
            },
            None => 0,
        },
        None => 0,
    }
}

/// The `u64` entries of `items`, as `usize`.
fn shape_list(items: &Vec<JsonValue>) -> (r: Vec<usize>)
    ensures
        r@ == shape_values(items@),
{
    let mut r: Vec<usize> = Vec::new();
    let mut i: usize = 0;
    while i < items.len()
        invariant
            i <= items@.len(),
            r@ == shape_values(items@.take(i as int)),
        decreases items@.len() - i,
    {
        proof {
            assert(items@.take(i + 1).drop_last() =~= items@.take(i as int));
            assert(items@.take(i + 1).last() == items@[i as int]);
        }
        match items[i].as_u64() {
            Some(n) => r.push(n as usize),
            None => {},
        }
        i = i + 1;
    }
    proof {
        assert(items@.take(items@.len() as int) =~= items@);
    }
    r
}

/// The entry for one member of a header.
fn info_from(name: &String, meta: &JsonValue, base: usize) -> (r: TensorInfo)
    ensures
        r@ == info_entry(name@, *meta, base),
{
    let dtype = match meta.get("dtype") {
        Some(d) => match d.as_str() {
            Some(s) => dtype_from(s),
            None => DType::F32,
        },
        None => DType::F32,
    };
    let shape = match meta.get("shape") {
        Some(a) => match a.as_array() {
            Some(items) => shape_list(items),
            None => Vec::new(),
        },
        None => Vec::new(),
    };
    let offs = meta.get("data_offsets");
    let start = offset_at(offs, 0).wrapping_add(base);
    let end = offset_at(offs, 1).wrapping_add(base);
    let r = TensorInfo { name: name.clone(), shape, dtype, offset: start, nbytes: end.wrapping_sub(start) };
    proof {
        assert(r@.shape =~= info_entry(name@, *meta, base).shape);
    }
    r
}

/// The tensors a parsed safetensors header lists, with data offsets
/// counted from `base`.
pub fn infos_from_header(v: &JsonValue, base: usize) -> (r: Vec<TensorInfo>)
    ensures
        infos_view(r@) == header_infos(*v, base),
{
    let mut r: Vec<TensorInfo> = Vec::new();
    match v.as_object() {
        Some(members) => {
            let mut i: usize = 0;
            while i < members.len()
                invariant
                    *v == JsonValue::Object(*members),
                    i <= members@.len(),
                    infos_view(r@) == infos_of(members@.take(i as int), base),
                decreases members@.len() - i,
            {
                proof {
                    assert(members@.take(i + 1).drop_last() =~= members@.take(i as int));
                    assert(members@.take(i + 1).last() == members@[i as int]);
                }
                let name = &members[i].0;
                if !str_eq(name.as_str(), "__metadata__") {
                    let t = info_from(name, &members[i].1, base);
                    let ghost before = r@;
                    r.push(t);
                    proof {
                        assert(infos_view(r@) =~= infos_view(before).push(t@));
                    }
                }
                i = i + 1;
            }
            proof {
                assert(members@.take(members@.len() as int) =~= members@);
            }
        },
        None => {
            proof {
                assert(infos_view(r@) =~= seq![]);
            }
        },
    }
    r
}

/// What reading the tensor table of `bytes` gives: too small without the
/// length field, an overflow when the header runs past the end, invalid
/// JSON when the header does not parse, else the tensors it lists.
pub open spec fn header_outcome(bytes: Seq<u8>, r: Result<Vec<TensorInfo>, LoadError>) -> bool {
    &&& (bytes.len() < 8 <==> r == Err::<Vec<TensorInfo>, LoadError>(LoadError::TooSmall))
    &&& ((bytes.len() >= 8 && 8 + header_len(bytes) > bytes.len())
        <==> r == Err::<Vec<TensorInfo>, LoadError>(LoadError::HeaderOverflow))
    &&& ((bytes.len() >= 8 + header_len(bytes) && spec_parse_json(bytes.subrange(8, 8 + header_len(bytes))) is None)
        <==> r == Err::<Vec<TensorInfo>, LoadError>(LoadError::InvalidJson))
    &&& match r {
        Ok(ts) => infos_view(ts@) == header_infos(
            spec_parse_json(bytes.subrange(8, 8 + header_len(bytes)))->0,
            (8 + header_len(bytes)) as usize,
        ),
        Err(_) => true,
    }
}

/// Read the tensor table of a safetensors file's bytes.
pub fn parse_header(bytes: &[u8]) -> (r: Result<Vec<TensorInfo>, LoadError>)
    ensures
        header_outcome(bytes@, r),
{
    if bytes.len() < 8 {
        return Err(LoadError::TooSmall);
    }
    let len_bytes = slice_subrange(bytes, 0, 8);
    proof {
        assert(len_bytes@ =~= bytes@.take(8));
    }
    let header_size = u64_from_le_bytes(len_bytes) as usize;
    let end = match 8usize.checked_add(header_size) {
        Some(e) => e,
        None => {
            return Err(LoadError::HeaderOverflow);
        },
    };
    if end > bytes.len() {
        return Err(LoadError::HeaderOverflow);
    }
    let json_bytes = slice_subrange(bytes, 8, end);
    match parse_json(json_bytes) {
        Ok(v) => Ok(infos_from_header(&v, end)),
        Err(_) => Err(LoadError::InvalidJson),
    }
}

/// Read the tensor table of a mapped safetensors file.
pub fn parse_safetensors_header(mmap: &Mmap) -> (r: Result<Vec<TensorInfo>, LoadError>)
    ensures
        header_outcome(mmap_contents(*mmap), r),
{
    parse_header(mmap_bytes(mmap))
}


/// No two entries share a name.
pub open spec fn names_unique(v: Seq<TensorInfoView>) -> bool {
    forall|i: int, j: int| 0 <= i < j < v.len() ==> v[i].name != v[j].name
}

/// The table of `v` by name, later entries replacing earlier ones.
pub open spec fn info_map(v: Seq<TensorInfoView>) -> Map<Seq<char>, TensorInfoView>
    decreases v.len(),
{
    if v.len() == 0 {
        Map::empty()
    } else {
        info_map(v.drop_last()).insert(v.last().name, v.last())
    }
}

/// `m` with the entries of `v` put in, in order.
pub open spec fn insert_all(m: Map<Seq<char>, TensorInfoView>, v: Seq<TensorInfoView>) -> Map<Seq<char>, TensorInfoView>
    decreases v.len(),
{
    if v.len() == 0 {
        m
    } else {
        insert_all(m, v.drop_last()).insert(v.last().name, v.last())
    }
}

/// The table of all shards: each shard's entries put in, shard by shard.
pub open spec fn merged_table(shards: Seq<Seq<TensorInfoView>>) -> Map<Seq<char>, TensorInfoView>
    decreases shards.len(),
{
    if shards.len() == 0 {
        Map::empty()
    } else {
        insert_all(merged_table(shards.drop_last()), shards.last())
    }
}

/// Whether shard `sh` lists a tensor called `name`.
pub open spec fn shard_lists(sh: Seq<TensorInfoView>, name: Seq<char>) -> bool {
    exists|i: int| 0 <= i < sh.len() && #[trigger] sh[i].name == name
}

/// The last shard that lists `name`, whose entry the table keeps; -1 when
/// none does.
pub open spec fn shard_of(shards: Seq<Seq<TensorInfoView>>, name: Seq<char>) -> int
    decreases shards.len(),
{
    if shards.len() == 0 {
        -1
    } else if shard_lists(shards.last(), name) {
        shards.len() - 1
    } else {
        shard_of(shards.drop_last(), name)
    }
}

/// The bytes of tensor `t` in the mapped file `shard`, when that file exists
/// and holds them.
pub open spec fn tensor_bytes(contents: Seq<Seq<u8>>, t: TensorInfoView, shard: int) -> Option<Seq<u8>> {
    if 0 <= shard < contents.len() && t.offset + t.nbytes <= contents[shard].len() {
        Some(contents[shard].subrange(t.offset as int, t.offset + t.nbytes))
    } else {
        None
    }
}

/// The shard recorded for the entry called `n`.
pub open spec fn owner_at(v: Seq<TensorInfoView>, owners: Seq<usize>, n: Seq<char>) -> usize {
    owners[choose|i: int| 0 <= i < v.len() && v[i].name == n]
}

proof fn lemma_owner_at(v: Seq<TensorInfoView>, owners: Seq<usize>, i: int)
    requires
        names_unique(v),
        0 <= i < v.len(),
    ensures
        owner_at(v, owners, v[i].name) == owners[i],
{
    let c = choose|c: int| 0 <= c < v.len() && v[c].name == v[i].name;
    assert(0 <= i < v.len() && v[i].name == v[i].name);
    assert(c == i);
}

proof fn lemma_info_map_at(v: Seq<TensorInfoView>, i: int)
    requires
        names_unique(v),
        0 <= i < v.len(),
    ensures
        info_map(v).contains_key(v[i].name),
        info_map(v)[v[i].name] == v[i],
    decreases v.len(),
{
    if i < v.len() - 1 {
        let w = v.drop_last();
        assert(names_unique(w));
        assert(w[i] == v[i]);
        assert(v[i].name != v[v.len() - 1].name);
        lemma_info_map_at(w, i);
    }
}

proof fn lemma_info_map_key(v: Seq<TensorInfoView>, k: Seq<char>)
    requires
        info_map(v).contains_key(k),
    ensures
        exists|i: int| 0 <= i < v.len() && #[trigger] v[i].name == k,
    decreases v.len(),
{
    if v.len() > 0 {
        if k == v.last().name {
            assert(v[v.len() - 1].name == k);
        } else {
            let w = v.drop_last();
            lemma_info_map_key(w, k);
            let i = choose|i: int| 0 <= i < w.len() && #[trigger] w[i].name == k;
            assert(v[i].name == k);
        }
    }
}

proof fn lemma_info_map_entries(v: Seq<TensorInfoView>)
    requires
        names_unique(v),
    ensures
        forall|i: int| 0 <= i < v.len() ==> #[trigger] info_map(v).contains_key(v[i].name) && info_map(v)[v[i].name] == v[i],
        forall|k: Seq<char>| info_map(v).contains_key(k) ==> exists|i: int| 0 <= i < v.len() && #[trigger] v[i].name == k,
{
    assert forall|i: int| 0 <= i < v.len() implies #[trigger] info_map(v).contains_key(v[i].name) && info_map(v)[v[i].name] == v[i] by {
        lemma_info_map_at(v, i);
    }
    assert forall|k: Seq<char>| info_map(v).contains_key(k) implies exists|i: int| 0 <= i < v.len() && #[trigger] v[i].name == k by {
        lemma_info_map_key(v, k);
    }
}

proof fn lemma_info_map_replace(v: Seq<TensorInfoView>, i: int, x: TensorInfoView)
    requires
        names_unique(v),
        0 <= i < v.len(),
        v[i].name == x.name,
    ensures
        names_unique(v.update(i, x)),
        info_map(v.update(i, x)) == info_map(v).insert(x.name, x),
{
    let w = v.update(i, x);
    assert(names_unique(w));
    lemma_info_map_entries(v);
    lemma_info_map_entries(w);
    assert forall|k: Seq<char>| info_map(w).contains_key(k) <==> info_map(v).insert(x.name, x).contains_key(k) by {
        if info_map(w).contains_key(k) {
            let j = choose|j: int| 0 <= j < w.len() && #[trigger] w[j].name == k;
            if j != i {
                assert(v[j].name == k);
            }
        }
        if info_map(v).contains_key(k) && k != x.name {
            let j = choose|j: int| 0 <= j < v.len() && #[trigger] v[j].name == k;
            assert(w[j].name == k);
        }
        if k == x.name {
            assert(w[i].name == k);
        }
    }
    assert forall|k: Seq<char>| #[trigger] info_map(w).contains_key(k) implies info_map(w)[k] == info_map(v).insert(x.name, x)[k] by {
        let j = choose|j: int| 0 <= j < w.len() && #[trigger] w[j].name == k;
        if j != i {
            assert(v[j] == w[j]);
        }
    }
    assert(info_map(w) =~= info_map(v).insert(x.name, x));
}

proof fn lemma_owner_update(v: Seq<TensorInfoView>, o: Seq<usize>, i: int, x: TensorInfoView, sh: usize)
    requires
        names_unique(v),
        o.len() == v.len(),
        0 <= i < v.len(),
        v[i].name == x.name,
    ensures
        forall|n: Seq<char>| #[trigger] info_map(v.update(i, x)).contains_key(n) ==>
            owner_at(v.update(i, x), o.update(i, sh), n) == (if n == x.name { sh } else { owner_at(v, o, n) }),
{
    let w = v.update(i, x);
    lemma_info_map_replace(v, i, x);
    lemma_info_map_entries(w);
    assert forall|n: Seq<char>| #[trigger] info_map(w).contains_key(n) implies
        owner_at(w, o.update(i, sh), n) == (if n == x.name { sh } else { owner_at(v, o, n) }) by {
        let j = choose|j: int| 0 <= j < w.len() && #[trigger] w[j].name == n;
        lemma_owner_at(w, o.update(i, sh), j);
        if n == x.name {
            assert(j == i);
        } else {
            assert(w[j] == v[j]);
            lemma_owner_at(v, o, j);
        }
    }
}

proof fn lemma_owner_push(v: Seq<TensorInfoView>, o: Seq<usize>, x: TensorInfoView, sh: usize)
    requires
        names_unique(v.push(x)),
        o.len() == v.len(),
    ensures
        forall|n: Seq<char>| #[trigger] info_map(v.push(x)).contains_key(n) ==>
            owner_at(v.push(x), o.push(sh), n) == (if n == x.name { sh } else { owner_at(v, o, n) }),
{
    let w = v.push(x);
    assert(names_unique(v)) by {
        assert forall|a: int, b: int| 0 <= a < b < v.len() implies v[a].name != v[b].name by {
            assert(w[a] == v[a] && w[b] == v[b]);
        }
    }
    lemma_info_map_entries(w);
    assert forall|n: Seq<char>| #[trigger] info_map(w).contains_key(n) implies
        owner_at(w, o.push(sh), n) == (if n == x.name { sh } else { owner_at(v, o, n) }) by {
        let j = choose|j: int| 0 <= j < w.len() && #[trigger] w[j].name == n;
        lemma_owner_at(w, o.push(sh), j);
        if n == x.name {
            assert(w[v.len() as int].name == n);
            assert(j == v.len());
        } else {
            assert(j < v.len());
            assert(w[j] == v[j]);
            lemma_owner_at(v, o, j);
        }
    }
}

proof fn lemma_insert_all_push(m: Map<Seq<char>, TensorInfoView>, v: Seq<TensorInfoView>, x: TensorInfoView)
    ensures
        insert_all(m, v.push(x)) == insert_all(m, v).insert(x.name, x),
{
    assert(v.push(x).drop_last() =~= v);
}

/// The weights of a model: the table of its tensors by name and the
/// mapped files that hold them.
pub struct WeightMap {
    tensors: Vec<TensorInfo>,
    shards: Vec<usize>,
    mmaps: Vec<Mmap>,
}

impl WeightMap {
    /// The tensors by name.
    pub closed spec fn table(&self) -> Map<Seq<char>, TensorInfoView> {
        info_map(infos_view(self.tensors@))
    }

    /// The bytes of each mapped file, in order.
    pub closed spec fn contents(&self) -> Seq<Seq<u8>> {
        self.mmaps@.map_values(|m: Mmap| mmap_contents(m))
    }

    /// For each tensor, the index of the mapped file that holds it.
    pub closed spec fn owners(&self) -> Map<Seq<char>, usize> {
        Map::new(
            |n: Seq<char>| self.table().contains_key(n),
            |n: Seq<char>| owner_at(infos_view(self.tensors@), self.shards@, n),
        )
    }

    /// The internal invariant: one entry per name, one shard per entry.
    pub closed spec fn wf(&self) -> bool {
        &&& names_unique(infos_view(self.tensors@))
        &&& self.shards@.len() == self.tensors@.len()
    }

    /// Put `info`, held by mapped file `shard`, into the table, replacing
    /// an entry of the same name.
    fn put(&mut self, info: TensorInfo, shard: usize)
        requires
            old(self).wf(),
        ensures
            final(self).wf(),
            final(self).table() == old(self).table().insert(info@.name, info@),
            final(self).owners() == old(self).owners().insert(info@.name, shard),
            final(self).contents() == old(self).contents(),
    {
        let ghost v = infos_view(self.tensors@);
        let ghost o = self.shards@;
        let mut i: usize = 0;
        while i < self.tensors.len()
            invariant
                *self == *old(self),
                v == infos_view(self.tensors@),
                o == self.shards@,
                o.len() == v.len(),
                names_unique(v),
                i <= v.len(),
                forall|j: int| 0 <= j < i ==> v[j].name != info@.name,
            decreases v.len() - i,
        {
            if str_eq(self.tensors[i].name.as_str(), info.name.as_str()) {
                proof {
                    lemma_info_map_replace(v, i as int, info@);
                    lemma_owner_update(v, o, i as int, info@, shard);
                }
                let ghost x = info@;
                self.tensors.set(i, info);
                self.shards.set(i, shard);
                proof {
                    assert(infos_view(self.tensors@) =~= v.update(i as int, x));
                    assert(self.owners() =~= old(self).owners().insert(x.name, shard));
                }
                return;
            }
            i = i + 1;
        }
        let ghost x = info@;
        self.tensors.push(info);
        self.shards.push(shard);
        proof {
            assert(infos_view(self.tensors@) =~= v.push(x));
            assert(v.push(x).drop_last() =~= v);
            assert(names_unique(v.push(x))) by {
                assert forall|a: int, b: int| 0 <= a < b < v.len() + 1 implies v.push(x)[a].name != v.push(x)[b].name by {
                    if b == v.len() {
                        assert(v.push(x)[a] == v[a]);
                    } else {
                        assert(v.push(x)[a] == v[a] && v.push(x)[b] == v[b]);
                    }
                }
            }
            lemma_owner_push(v, o, x, shard);
            assert(self.owners() =~= old(self).owners().insert(x.name, shard));
        }
    }

    /// The weights of parsed shards: each shard's tensors put into the
    /// table in order (a later name replaces an earlier one), and the maps.
    pub fn from_parsed(infos: &Vec<Vec<TensorInfo>>, mmaps: Vec<Mmap>) -> (r: Self)
        ensures
            r.wf(),
            r.table() == merged_table(infos@.map_values(|s: Vec<TensorInfo>| infos_view(s@))),
            r.owners().dom() == r.table().dom(),
            forall|n: Seq<char>| #[trigger] r.table().contains_key(n) ==>
                r.owners()[n] == shard_of(infos@.map_values(|s: Vec<TensorInfo>| infos_view(s@)), n),
            r.contents() == mmaps@.map_values(|m: Mmap| mmap_contents(m)),
    {
        let ghost shards = infos@.map_values(|s: Vec<TensorInfo>| infos_view(s@));
        let mut w = WeightMap { tensors: Vec::new(), shards: Vec::new(), mmaps };
        proof {
            assert(infos_view(w.tensors@) =~= seq![]);
            assert(shards.take(0) =~= seq![]);
        }
        let mut k: usize = 0;
        while k < infos.len()
            invariant
                shards == infos@.map_values(|s: Vec<TensorInfo>| infos_view(s@)),
                k <= infos@.len(),
                w.wf(),
                w.table() == merged_table(shards.take(k as int)),
                forall|n: Seq<char>| #[trigger] w.table().contains_key(n) ==> w.owners()[n] == shard_of(shards.take(k as int), n),
                w.contents() == mmaps@.map_values(|m: Mmap| mmap_contents(m)),
            decreases infos@.len() - k,
        {
            let shard = &infos[k];
            let ghost start = w.table();
            let ghost before = shards.take(k as int);
            let ghost sv = infos_view(shard@);
            let mut j: usize = 0;
            while j < shard.len()
                invariant
                    j <= shard@.len(),
                    sv == infos_view(shard@),
                    w.wf(),
                    w.table() == insert_all(start, sv.take(j as int)),
                    forall|n: Seq<char>| #[trigger] w.table().contains_key(n) ==>
                        w.owners()[n] == (if shard_lists(sv.take(j as int), n) { k as int } else { shard_of(before, n) }),
                    w.contents() == mmaps@.map_values(|m: Mmap| mmap_contents(m)),
                decreases shard@.len() - j,
            {
                let t = shard[j].duplicate();
                let ghost old_table = w.table();
                let ghost old_owners = w.owners();
                proof {
                    assert(sv.take(j + 1) =~= sv.take(j as int).push(t@));
                    lemma_insert_all_push(start, sv.take(j as int), t@);
                }
                w.put(t, k);
                proof {
                    assert forall|n: Seq<char>| #[trigger] w.table().contains_key(n) implies
                        w.owners()[n] == (if shard_lists(sv.take(j + 1), n) { k as int } else { shard_of(before, n) }) by {
                        let p = sv.take(j + 1);
                        assert(p[j as int] == t@);
                        if n == t@.name {
                            assert(shard_lists(p, n));
                        } else {
                            assert(old_table.contains_key(n));
                            if shard_lists(p, n) {
                                let q = choose|q: int| 0 <= q < p.len() && #[trigger] p[q].name == n;
                                assert(q < j);
                                assert(sv.take(j as int)[q] == p[q]);
                                assert(shard_lists(sv.take(j as int), n));
                            }
                            if shard_lists(sv.take(j as int), n) {
                                let q = choose|q: int| 0 <= q < j && #[trigger] sv.take(j as int)[q].name == n;
                                assert(sv.take(j as int)[q] == p[q]);
                                assert(shard_lists(p, n));
                            }
                        }
                    }
                }
                j = j + 1;
            }
            proof {
                assert(sv.take(shard@.len() as int) =~= sv);
                assert(shards.take(k + 1).drop_last() =~= shards.take(k as int));
                assert(shards.take(k + 1).last() == sv);
            }
            k = k + 1;
        }
        proof {
            assert(shards.take(infos@.len() as int) =~= shards);
            assert(w.owners().dom() =~= w.table().dom());
        }
        w
    }

    /// The names of all tensors, each once.
    pub fn names(&self) -> (r: Vec<String>)
        requires
            self.wf(),
        ensures
            r@.map_values(|s: String| s@).no_duplicates(),
            r@.map_values(|s: String| s@).to_set() == self.table().dom(),
    {
        let ghost v = infos_view(self.tensors@);
        let mut r: Vec<String> = Vec::new();
        let mut i: usize = 0;
        while i < self.tensors.len()
            invariant
                v == infos_view(self.tensors@),
                i <= v.len(),
                r@.len() == i,
                forall|j: int| 0 <= j < i ==> #[trigger] r@[j]@ == v[j].name,
            decreases v.len() - i,
        {
            r.push(self.tensors[i].name.clone());
            i = i + 1;
        }
        proof {
            let names = r@.map_values(|s: String| s@);
            lemma_info_map_entries(v);
            assert forall|a: int, b: int| 0 <= a < names.len() && 0 <= b < names.len() && a != b implies names[a] != names[b] by {
                assert(names[a] == v[a].name);
                assert(names[b] == v[b].name);
            }
            assert forall|k: Seq<char>| names.to_set().contains(k) <==> self.table().dom().contains(k) by {
                if names.to_set().contains(k) {
                    let j = choose|j: int| 0 <= j < names.len() && names[j] == k;
                    assert(r@[j]@ == v[j].name);
                    assert(info_map(v).contains_key(v[j].name));
                }
                if self.table().dom().contains(k) {
                    let j = choose|j: int| 0 <= j < v.len() && #[trigger] v[j].name == k;
                    assert(r@[j]@ == v[j].name);
                    assert(names[j] == k);
                }
            }
            assert(names.to_set() =~= self.table().dom());
        }
        r
    }

    /// The entry of tensor `name`.
    pub fn info(&self, name: &str) -> (r: Option<&TensorInfo>)
        requires
            self.wf(),
        ensures
            match r {
                Some(t) => self.table().contains_key(name@) && self.table()[name@] == t@,
                None => !self.table().contains_key(name@),
            },
    {
        let ghost v = infos_view(self.tensors@);
        proof {
            lemma_info_map_entries(v);
        }
        let mut i: usize = 0;
        while i < self.tensors.len()
            invariant
                v == infos_view(self.tensors@),
                names_unique(v),
                i <= v.len(),
                forall|j: int| 0 <= j < i ==> v[j].name != name@,
            decreases v.len() - i,
        {
            if str_eq(self.tensors[i].name.as_str(), name) {
                proof {
                    assert(v[i as int].name == name@);
                    lemma_info_map_entries(v);
                    assert(info_map(v).contains_key(v[i as int].name));
                }
                return Some(&self.tensors[i]);
            }
            i = i + 1;
        }
        None
    }

    /// The bytes of tensor `name`: its range in the mapped file of the shard
    /// that listed it, when that file holds the range.
    pub fn raw_bytes(&self, name: &str) -> (r: Option<&[u8]>)
        requires
            self.wf(),
            self.table().contains_key(name@) ==> self.table()[name@].offset + self.table()[name@].nbytes <= usize::MAX,
        ensures
            match r {
                Some(b) => self.table().contains_key(name@)
                    && tensor_bytes(self.contents(), self.table()[name@], self.owners()[name@] as int) == Some(b@),
                None => !self.table().contains_key(name@)
                    || tensor_bytes(self.contents(), self.table()[name@], self.owners()[name@] as int) is None,
            },
    {
        let ghost v = infos_view(self.tensors@);
        proof {
            lemma_info_map_entries(v);
        }
        let mut i: usize = 0;
        while i < self.tensors.len()
            invariant
                v == infos_view(self.tensors@),
                names_unique(v),
                self.shards@.len() == v.len(),
                self.table() == info_map(v),
                self.table().contains_key(name@) ==> self.table()[name@].offset + self.table()[name@].nbytes <= usize::MAX,
                i <= v.len(),
                forall|j: int| 0 <= j < i ==> v[j].name != name@,
            decreases v.len() - i,
        {
            if str_eq(self.tensors[i].name.as_str(), name) {
                proof {
                    lemma_info_map_entries(v);
                    lemma_info_map_at(v, i as int);
                    lemma_owner_at(v, self.shards@, i as int);
                }
                let info = &self.tensors[i];
                let shard = self.shards[i];
                let start = info.offset;
                let end = start + info.nbytes;
                if shard >= self.mmaps.len() {
                    return None;
                }
                let bytes = mmap_bytes(&self.mmaps[shard]);
                if end <= bytes.len() {
                    return Some(slice_subrange(bytes, start, end));
                }
                return None;
            }
            i = i + 1;
        }
        None
    }
}


proof fn lemma_insert_all_keys(m: Map<Seq<char>, TensorInfoView>, v: Seq<TensorInfoView>, k: Seq<char>)
    ensures
        insert_all(m, v).contains_key(k) <==> (m.contains_key(k) || exists|i: int| 0 <= i < v.len() && #[trigger] v[i].name == k),
    decreases v.len(),
{
    if v.len() > 0 {
        let w = v.drop_last();
        lemma_insert_all_keys(m, w, k);
        if exists|i: int| 0 <= i < v.len() && #[trigger] v[i].name == k {
            let i = choose|i: int| 0 <= i < v.len() && #[trigger] v[i].name == k;
            if i < v.len() - 1 {
                assert(w[i].name == k);
            }
        }
        if exists|i: int| 0 <= i < w.len() && #[trigger] w[i].name == k {
            let i = choose|i: int| 0 <= i < w.len() && #[trigger] w[i].name == k;
            assert(v[i].name == k);
        }
    }
}

proof fn lemma_insert_all_last(m: Map<Seq<char>, TensorInfoView>, v: Seq<TensorInfoView>, i: int)
    requires
        0 <= i < v.len(),
        forall|j: int| i < j < v.len() ==> #[trigger] v[j].name != v[i].name,
    ensures
        insert_all(m, v)[v[i].name] == v[i],
    decreases v.len(),
{
    if i < v.len() - 1 {
        let w = v.drop_last();
        assert forall|j: int| i < j < w.len() implies #[trigger] w[j].name != w[i].name by {
            assert(w[j] == v[j]);
        }
        lemma_insert_all_last(m, w, i);
        assert(v[v.len() - 1].name != v[i].name);
    }
}

proof fn lemma_insert_all_untouched(m: Map<Seq<char>, TensorInfoView>, v: Seq<TensorInfoView>, k: Seq<char>)
    requires
        forall|j: int| 0 <= j < v.len() ==> #[trigger] v[j].name != k,
    ensures
        insert_all(m, v).contains_key(k) == m.contains_key(k),
        m.contains_key(k) ==> insert_all(m, v)[k] == m[k],
    decreases v.len(),
{
    if v.len() > 0 {
        lemma_insert_all_untouched(m, v.drop_last(), k);
        assert(v[v.len() - 1].name != k);
    }
}

/// The table of all shards holds exactly the names some shard lists.
pub proof fn merged_table_has_every_shard_name(shards: Seq<Seq<TensorInfoView>>, k: Seq<char>)
    ensures
        merged_table(shards).contains_key(k) <==> exists|s: int, i: int|
            0 <= s < shards.len() && 0 <= i < shards[s].len() && #[trigger] shards[s][i].name == k,
    decreases shards.len(),
{
    if shards.len() > 0 {
        let rest = shards.drop_last();
        merged_table_has_every_shard_name(rest, k);
        lemma_insert_all_keys(merged_table(rest), shards.last(), k);
        if exists|s: int, i: int| 0 <= s < shards.len() && 0 <= i < shards[s].len() && #[trigger] shards[s][i].name == k {
            let (s, i) = choose|s: int, i: int| 0 <= s < shards.len() && 0 <= i < shards[s].len() && #[trigger] shards[s][i].name == k;
            if s < shards.len() - 1 {
                assert(rest[s][i].name == k);
            } else {
                assert(shards.last()[i].name == k);
            }
        }
        if merged_table(shards).contains_key(k) {
            if merged_table(rest).contains_key(k) {
                let (s, i) = choose|s: int, i: int| 0 <= s < rest.len() && 0 <= i < rest[s].len() && #[trigger] rest[s][i].name == k;
                assert(shards[s][i].name == k);
            } else {
                let i = choose|i: int| 0 <= i < shards.last().len() && #[trigger] shards.last()[i].name == k;
                assert(shards[shards.len() - 1][i].name == k);
            }
        }
    }
}

/// A tensor listed in the last shard that names it, at the last position
/// there, is the one the table keeps: later shards replace earlier ones.
pub proof fn later_shards_replace_earlier(shards: Seq<Seq<TensorInfoView>>, s: int, i: int)
    requires
        0 <= s < shards.len(),
        0 <= i < shards[s].len(),
        forall|j: int| i < j < shards[s].len() ==> #[trigger] shards[s][j].name != shards[s][i].name,
        forall|t: int, j: int| s < t < shards.len() && 0 <= j < shards[t].len() ==> #[trigger] shards[t][j].name
            != shards[s][i].name,
    ensures
        merged_table(shards).contains_key(shards[s][i].name),
        merged_table(shards)[shards[s][i].name] == shards[s][i],
    decreases shards.len(),
{
    let k = shards[s][i].name;
    let rest = shards.drop_last();
    if s == shards.len() - 1 {
        lemma_insert_all_keys(merged_table(rest), shards.last(), k);
        assert(shards.last()[i].name == k);
        lemma_insert_all_last(merged_table(rest), shards.last(), i);
    } else {
        assert forall|t: int, j: int| s < t < rest.len() && 0 <= j < rest[t].len() implies #[trigger] rest[t][j].name
            != rest[s][i].name by {
            assert(rest[t] == shards[t]);
        }
        later_shards_replace_earlier(rest, s, i);
        assert forall|j: int| 0 <= j < shards.last().len() implies #[trigger] shards.last()[j].name != k by {
            assert(shards[shards.len() - 1][j].name != k);
        }
        lemma_insert_all_untouched(merged_table(rest), shards.last(), k);
    }
}

} // verus!

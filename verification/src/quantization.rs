//! Quantised weight formats: scheme names, tensor sizes and the
//! safetensors header.

use vstd::prelude::*;
use vstd::bytes::{spec_u64_from_le_bytes, u64_from_le_bytes};
use vstd::slice::slice_subrange;
use vstd::utf8::is_ascii_chars;
use crate::json::{JsonValue, parse_json, spec_parse_json, spec_get, spec_index, str_eq};

verus! {

/// How the weights of a model are stored.
#[derive(Debug, Clone, Copy, PartialEq, Eq, Structural)]
pub enum QuantScheme {
    /// Full precision BF16.
    BFloat16,
    /// FP8 E4M3.
    Float8,
    /// Activation-aware 4-bit weights.
    Int4Awq,
    /// GPTQ 4-bit, per group.
    Int4Gptq,
    /// SmoothQuant INT8.
    Int8Sq,
}

impl Default for QuantScheme {
    fn default() -> (r: Self)
        ensures
            r == QuantScheme::BFloat16,
    {
        QuantScheme::BFloat16
    }
}

/// Bits one element takes on disk.
pub open spec fn spec_bits_per_element(s: QuantScheme) -> u32 {
    match s {
        QuantScheme::BFloat16 => 16,
        QuantScheme::Float8 => 8,
        QuantScheme::Int4Awq => 4,
        QuantScheme::Int4Gptq => 4,
        QuantScheme::Int8Sq => 8,
    }
}

/// The scheme a lower-case name stands for.
pub open spec fn scheme_named(name: Seq<char>) -> Option<QuantScheme> {
    if name == "bf16"@ || name == "bfloat16"@ {
        Some(QuantScheme::BFloat16)
    } else if name == "fp8"@ || name == "float8"@ {
        Some(QuantScheme::Float8)
    } else if name == "awq"@ || name == "int4_awq"@ {
        Some(QuantScheme::Int4Awq)
    } else if name == "gptq"@ || name == "int4_gptq"@ {
        Some(QuantScheme::Int4Gptq)
    } else if name == "sq"@ || name == "int8_sq"@ {
        Some(QuantScheme::Int8Sq)
    } else {
        None
    }
}

/// What `str::to_lowercase` makes of a string.
pub uninterp spec fn spec_to_lowercase(s: Seq<char>) -> Seq<char>;

/// The ASCII lower case of `c`; other characters stay.
pub open spec fn ascii_lower(c: char) -> char {
    if 'A' <= c && c <= 'Z' {
        ((c as u32) + 32) as char
    } else {
        c
    }
}

/// `str::to_lowercase`: the Unicode lower case of `s`. On ASCII text it
/// lowers `A`..`Z` and keeps every other character.
#[verifier::external_body]
fn to_lowercase(s: &str) -> (r: String)
    ensures
        r@ == spec_to_lowercase(s@),
        is_ascii_chars(s@) ==> r@ == s@.map_values(|c: char| ascii_lower(c)),
{
    s.to_lowercase()
}

/// The scheme named by `s`, in any case.
pub open spec fn spec_scheme_from_str(s: Seq<char>) -> Option<QuantScheme> {
    scheme_named(spec_to_lowercase(s))
}

impl QuantScheme {
    /// Bits per element on disk (BF16 16, FP8 8, INT4 4, INT8 8).
    pub fn bits_per_element(&self) -> (r: u32)
        ensures
            r == spec_bits_per_element(*self),
    {
        match self {
            QuantScheme::BFloat16 => 16,
            QuantScheme::Float8 => 8,
            QuantScheme::Int4Awq => 4,
            QuantScheme::Int4Gptq => 4,
            QuantScheme::Int8Sq => 8,
        }
    }

    /// The scheme named by `s`, compared after lowering its case.
    pub fn from_str(s: &str) -> (r: Option<Self>)
        ensures
            r == spec_scheme_from_str(s@),
            is_ascii_chars(s@) ==> r == scheme_named(s@.map_values(|c: char| ascii_lower(c))),
    {
        let lower = to_lowercase(s);
        Self::from_lowercase_name(lower.as_str())
    }

    /// The scheme a lower-case name stands for.
    pub fn from_lowercase_name(name: &str) -> (r: Option<Self>)
        ensures
            r == scheme_named(name@),
    {
        if str_eq(name, "bf16") || str_eq(name, "bfloat16") {
            Some(QuantScheme::BFloat16)
        } else if str_eq(name, "fp8") || str_eq(name, "float8") {
            Some(QuantScheme::Float8)
        } else if str_eq(name, "awq") || str_eq(name, "int4_awq") {
            Some(QuantScheme::Int4Awq)
        } else if str_eq(name, "gptq") || str_eq(name, "int4_gptq") {
            Some(QuantScheme::Int4Gptq)
        } else if str_eq(name, "sq") || str_eq(name, "int8_sq") {
            Some(QuantScheme::Int8Sq)
        } else {
            None
        }
    }
}

/// AWQ quantisation settings.
#[derive(Debug, Clone)]
pub struct AwqConfig {
    /// Group size, typically 128.
    pub group_size: usize,
    /// Whether zero points are stored.
    pub zero_point: bool,
    /// AWQ version (1 or 2).
    pub version: u8,
}

/// GPTQ quantisation settings.
#[derive(Debug, Clone)]
pub struct GptqConfig {
    /// Bits per weight, typically 4.
    pub bits: u32,
    /// -1 for per-column, else the group size.
    pub group_size: i32,
    /// Activation reordering.
    pub desc_act: bool,
    /// Symmetric quantisation.
    pub sym: bool,
}

/// What a kernel needs to dequantise one linear layer.
#[derive(Debug, Clone)]
pub struct WeightTensor {
    pub name: String,
    pub scheme: QuantScheme,
    /// Address of the data in the mapped weight file.
    pub data_ptr: usize,
    pub data_len: usize,
    pub rows: usize,
    pub cols: usize,
    pub scales_ptr: Option<usize>,
    pub zeros_ptr: Option<usize>,
    pub group_size: Option<usize>,
}

/// Bytes that `n` elements take in scheme `s`: two per element for BF16,
/// one for the 8-bit schemes, and half a byte (rounded up) for the 4-bit ones.
pub open spec fn spec_size_bytes(n: nat, s: QuantScheme) -> nat {
    match s {
        QuantScheme::BFloat16 => 2 * n,
        QuantScheme::Float8 | QuantScheme::Int8Sq => n,
        QuantScheme::Int4Awq | QuantScheme::Int4Gptq => (n + 1) / 2,
    }
}

/// What a byte count must fit in for `size_bytes`: the element count, and
/// for BF16 its double.
pub open spec fn size_fits(rows: usize, cols: usize, s: QuantScheme) -> bool {
    &&& rows * cols <= usize::MAX
    &&& spec_size_bytes((rows * cols) as nat, s) <= usize::MAX
}

impl WeightTensor {
    /// Size in bytes of the quantised data, computed exactly from the
    /// element count.
    pub fn size_bytes(&self) -> (r: usize)
        requires
            size_fits(self.rows, self.cols, self.scheme),
        ensures
            r == spec_size_bytes((self.rows * self.cols) as nat, self.scheme),
    {
        let elements = self.rows * self.cols;
        match self.scheme {
            QuantScheme::BFloat16 => elements * 2,
            QuantScheme::Float8 | QuantScheme::Int8Sq => elements,
            QuantScheme::Int4Awq | QuantScheme::Int4Gptq => elements / 2 + elements % 2,
        }
    }

    /// Address and length of the data.
    pub fn as_raw(&self) -> (r: (usize, usize))
        ensures
            r == (self.data_ptr, self.data_len),
    {
        (self.data_ptr, self.data_len)
    }
}


/// Where one tensor lies in a safetensors file.
#[derive(Debug, Clone)]
pub struct TensorMeta {
    pub name: String,
    pub dtype: String,
    pub data_start: usize,
    pub data_end: usize,
    pub shape: Vec<usize>,
}

/// A `TensorMeta` as plain values.
pub struct TensorMetaView {
    pub name: Seq<char>,
    pub dtype: Seq<char>,
    pub data_start: usize,
    pub data_end: usize,
    pub shape: Seq<usize>,
}

impl View for TensorMeta {
    type V = TensorMetaView;

    open spec fn view(&self) -> TensorMetaView {
        TensorMetaView {
            name: self.name@,
            dtype: self.dtype@,
            data_start: self.data_start,
            data_end: self.data_end,
            shape: self.shape@,
        }
    }
}

/// Why a safetensors header could not be read.
#[derive(Debug, Clone, Copy, PartialEq, Eq, Structural)]
pub enum HeaderError {
    /// Fewer than the eight bytes of the length field.
    TooSmall,
    /// The length field points past the end of the file.
    Truncated,
    /// The header is not valid JSON.
    InvalidJson,
}

impl HeaderError {
    /// The message for this error.
    pub fn message(&self) -> (r: &'static str)
        ensures
            r@ == (match *self {
                HeaderError::TooSmall => "safetensors too small"@,
                HeaderError::Truncated => "safetensors header truncated"@,
                HeaderError::InvalidJson => "safetensors header is not valid JSON"@,
            }),
    {
        match self {
            HeaderError::TooSmall => "safetensors too small",
            HeaderError::Truncated => "safetensors header truncated",
            HeaderError::InvalidJson => "safetensors header is not valid JSON",
        }
    }
}

/// The value of a JSON number that is a `u64`.
pub open spec fn json_u64(v: JsonValue) -> Option<u64> {
    match v {
        JsonValue::Number(n) => n,
        _ => None,
    }
}

/// An offset entry: its `u64` value as a `usize`, else zero.
pub open spec fn offset_value(v: JsonValue) -> usize {
    match json_u64(v) {
        Some(n) => n as usize,
        None => 0,
    }
}

/// The `u64` entries of a shape array, as `usize`, others dropped.
pub open spec fn shape_values(items: Seq<JsonValue>) -> Seq<usize>
    decreases items.len(),
{
    if items.len() == 0 {
        seq![]
    } else {
        let rest = shape_values(items.drop_last());
        match json_u64(items.last()) {
            Some(n) => rest.push(n as usize),
            None => rest,
        }
    }
}

/// The entry for tensor `name` with metadata `meta`, whose data offsets
/// count from `base`: present when `meta` has a string `dtype` and an
/// array `data_offsets`.
pub open spec fn tensor_entry(name: Seq<char>, meta: JsonValue, base: usize) -> Option<TensorMetaView> {
    match (spec_index(meta, "dtype"@), spec_index(meta, "data_offsets"@)) {
        (JsonValue::Str(dtype), JsonValue::Array(offs)) => {
            let start: usize = if offs@.len() > 0 { offset_value(offs@[0]) } else { 0 };
            let end: usize = if offs@.len() > 0 { offset_value(offs@.last()) } else { 0 };
            let shape = match spec_index(meta, "shape"@) {
                JsonValue::Array(a) => shape_values(a@),
                _ => seq![],
            };
            Some(TensorMetaView {
                name,
                dtype: dtype@,
                data_start: base.wrapping_add(start),
                data_end: base.wrapping_add(end),
                shape,
            })
        },
        _ => None,
    }
}

/// The tensors of a header object's members, in order, without
/// `__metadata__`.
pub open spec fn tensors_of(members: Seq<(String, JsonValue)>, base: usize) -> Seq<TensorMetaView>
    decreases members.len(),
{
    if members.len() == 0 {
        seq![]
    } else {
        let rest = tensors_of(members.drop_last(), base);
        let name = members.last().0@;
        if name == "__metadata__"@ {
            rest
        } else {
            match tensor_entry(name, members.last().1, base) {
                Some(t) => rest.push(t),
                None => rest,
            }
        }
    }
}

/// The tensors a parsed header lists; none unless it is an object.
pub open spec fn header_tensors(v: JsonValue, base: usize) -> Seq<TensorMetaView> {
    match v {
        JsonValue::Object(members) => tensors_of(members@, base),
        _ => seq![],
    }
}

/// The header length that the first eight bytes give, little-endian.
pub open spec fn header_len(bytes: Seq<u8>) -> usize {
    spec_u64_from_le_bytes(bytes.take(8)) as usize
}

/// The views of a list of tensors.
pub open spec fn metas_view(v: Seq<TensorMeta>) -> Seq<TensorMetaView> {
    v.map_values(|t: TensorMeta| t@)
}

/// The `u64` entries of `items`, as `usize`.
fn shape_from(items: &Vec<JsonValue>) -> (r: Vec<usize>)
    ensures
        r@ == shape_values(items@),
{
    let mut r: Vec<usize> = Vec::new();
    let mut i: usize = 0;
    while i < items.len()
        invariant
            i <= items@.len(),
            r@ == shape_values(items@.take(i as int)),
        decreases items@.len() - i,
    {
        proof {
            assert(items@.take(i + 1).drop_last() =~= items@.take(i as int));
            assert(items@.take(i + 1).last() == items@[i as int]);
        }
        match items[i].as_u64() {
            Some(n) => r.push(n as usize),
            None => {},
        }
        i = i + 1;
    }
    proof {
        assert(items@.take(items@.len() as int) =~= items@);
    }
    r
}

/// An offset entry's value, or zero.
fn offset_from(v: Option<&JsonValue>) -> (r: usize)
    ensures
        r == (match v {
            Some(x) => offset_value(*x),
            None => 0,
        }),
{
    match v {
        Some(x) => match x.as_u64() {
            Some(n) => n as usize,
            None => 0,
        },
        None => 0,
    }
}

/// The entry for one member of a header.
fn tensor_from(name: &String, meta: &JsonValue, base: usize) -> (r: Option<TensorMeta>)
    ensures
        match r {
            Some(t) => tensor_entry(name@, *meta, base) == Some(t@),
            None => tensor_entry(name@, *meta, base) is None,
        },
{
    let dtype = match meta.get("dtype") {
        Some(d) => d.as_str(),
        None => None,
    };
    let offs = match meta.get("data_offsets") {
        Some(o) => o.as_array(),
        None => None,
    };
    match (dtype, offs) {
        (Some(dtype), Some(offs)) => {
            let start = if offs.len() > 0 { offset_from(Some(&offs[0])) } else { 0 };
            let end = if offs.len() > 0 { offset_from(Some(&offs[offs.len() - 1])) } else { 0 };
            let shape = match meta.get("shape") {
                Some(a) => match a.as_array() {
                    Some(items) => shape_from(items),
                    None => Vec::new(),
                },
                None => Vec::new(),
            };
            let t = TensorMeta {
                name: name.clone(),
                dtype: String::from_str(dtype),
                data_start: base.wrapping_add(start),
                data_end: base.wrapping_add(end),
                shape,
            };
            Some(t)
        },
        _ => None,
    }
}

/// The tensors a parsed safetensors header lists, with data offsets
/// counted from `base` (wrapping).
pub fn tensors_from_header(v: &JsonValue, base: usize) -> (r: Vec<TensorMeta>)
    ensures
        metas_view(r@) == header_tensors(*v, base),
{
    let mut r: Vec<TensorMeta> = Vec::new();
    match v.as_object() {
        Some(members) => {
            let mut i: usize = 0;
            while i < members.len()
                invariant
                    *v == JsonValue::Object(*members),
                    i <= members@.len(),
                    metas_view(r@) == tensors_of(members@.take(i as int), base),
                decreases members@.len() - i,
            {
                proof {
                    assert(members@.take(i + 1).drop_last() =~= members@.take(i as int));
                    assert(members@.take(i + 1).last() == members@[i as int]);
                }
                let name = &members[i].0;
                if !str_eq(name.as_str(), "__metadata__") {
                    match tensor_from(name, &members[i].1, base) {
                        Some(t) => {
                            let ghost before = r@;
                            r.push(t);
                            proof {
                                assert(metas_view(r@) =~= metas_view(before).push(t@));
                            }
                        },
                        None => {},
                    }
                }
                i = i + 1;
            }
            proof {
                assert(members@.take(members@.len() as int) =~= members@);
            }
        },
        None => {
            proof {
                assert(metas_view(r@) =~= seq![]);
            }
        },
    }
    r
}

/// Read the tensor table of a safetensors file: the little-endian length
/// in the first eight bytes, then that many bytes of JSON.
pub fn parse_safetensors_header(mmap: &[u8]) -> (r: Result<Vec<TensorMeta>, HeaderError>)
    ensures
        mmap@.len() < 8 <==> r == Err::<Vec<TensorMeta>, HeaderError>(HeaderError::TooSmall),
        (mmap@.len() >= 8 && mmap@.len() < 8 + header_len(mmap@))
            <==> r == Err::<Vec<TensorMeta>, HeaderError>(HeaderError::Truncated),
        (mmap@.len() >= 8 + header_len(mmap@) && spec_parse_json(
            mmap@.subrange(8, 8 + header_len(mmap@)),
        ) is None) <==> r == Err::<Vec<TensorMeta>, HeaderError>(HeaderError::InvalidJson),
        match r {
            Ok(ts) => metas_view(ts@) == header_tensors(
                spec_parse_json(mmap@.subrange(8, 8 + header_len(mmap@)))->0,
                (8 + header_len(mmap@)) as usize,
            ),
            Err(_) => true,
        },
{
    if mmap.len() < 8 {
        return Err(HeaderError::TooSmall);
    }
    let len_bytes = slice_subrange(mmap, 0, 8);
    proof {
        assert(len_bytes@ =~= mmap@.take(8));
    }
    let header_size = u64_from_le_bytes(len_bytes) as usize;
    let end = match 8usize.checked_add(header_size) {
        Some(e) => e,
        None => {
            return Err(HeaderError::Truncated);
        },
    };
    if mmap.len() < end {
        return Err(HeaderError::Truncated);
    }
    let header_json = slice_subrange(mmap, 8, end);
    match parse_json(header_json) {
        Ok(v) => Ok(tensors_from_header(&v, end)),
        Err(_) => Err(HeaderError::InvalidJson),
    }
}


/// The scheme name a `quantization_config` block gives: its string
/// `quant_type`, else its string `quant_method`, else empty.
pub open spec fn quant_type_of(qc: JsonValue) -> Seq<char> {
    match spec_index(qc, "quant_type"@) {
        JsonValue::Str(t) => t@,
        _ => match spec_index(qc, "quant_method"@) {
            JsonValue::Str(m) => m@,
            _ => Seq::empty(),
        },
    }
}

/// The scheme a model's `config.json` declares: the one named by its
/// `quantization_config`, else the one named by its `torch_dtype`, else BF16.
pub open spec fn spec_detect_quant_scheme(cfg: JsonValue) -> QuantScheme {
    let from_block = match spec_get(cfg, "quantization_config"@) {
        Some(qc) => spec_scheme_from_str(quant_type_of(qc)),
        None => None,
    };
    match from_block {
        Some(s) => s,
        None => match spec_index(cfg, "torch_dtype"@) {
            JsonValue::Str(d) => match spec_scheme_from_str(d@) {
                Some(s) => s,
                None => QuantScheme::BFloat16,
            },
            _ => QuantScheme::BFloat16,
        },
    }
}

/// The string member `key` of `v`, if `v` is an object that has one.
fn str_member<'a>(v: &'a JsonValue, key: &str) -> (r: Option<&'a str>)
    ensures
        match spec_index(*v, key@) {
            JsonValue::Str(s) => r is Some && r->0@ == s@,
            _ => r is None,
        },
{
    match v.get(key) {
        Some(x) => x.as_str(),
        None => None,
    }
}

/// The quantisation scheme a model's `config.json` declares.
pub fn detect_quant_scheme(config_json: &JsonValue) -> (r: QuantScheme)
    ensures
        r == spec_detect_quant_scheme(*config_json),
{
    match config_json.get("quantization_config") {
        Some(qc) => {
            let quant_type: &str = match str_member(qc, "quant_type") {
                Some(t) => t,
                None => match str_member(qc, "quant_method") {
                    Some(m) => m,
                    None => "",
                },
            };
            proof {
                reveal_strlit("");
                assert(quant_type@ =~= quant_type_of(*qc));
            }
            match QuantScheme::from_str(quant_type) {
                Some(s) => {
                    return s;
                },
                None => {},
            }
        },
        None => {},
    }
    match str_member(config_json, "torch_dtype") {
        Some(dtype) => match QuantScheme::from_str(dtype) {
            Some(s) => s,
            None => QuantScheme::BFloat16,
        },
        None => QuantScheme::BFloat16,
    }
}


/// A tensor takes its element count times the scheme's bits per element,
/// in whole bytes rounded up.
pub proof fn size_is_bits_in_whole_bytes(n: nat, s: QuantScheme)
    ensures
        spec_size_bytes(n, s) == (n * spec_bits_per_element(s) + 7) / 8,
{
    match s {
        QuantScheme::BFloat16 => {
            assert((n * 16 + 7) / 8 == 2 * n) by (nonlinear_arith);
        },
        QuantScheme::Float8 | QuantScheme::Int8Sq => {
            assert((n * 8 + 7) / 8 == n) by (nonlinear_arith);
        },
        QuantScheme::Int4Awq | QuantScheme::Int4Gptq => {
            assert((n * 4 + 7) / 8 == (n + 1) / 2) by (nonlinear_arith);
        },
    }
}

} // verus!

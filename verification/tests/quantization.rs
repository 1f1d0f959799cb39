use voidweb::json::read_json;
use voidweb::quantization::{
    detect_quant_scheme, parse_safetensors_header, HeaderError, QuantScheme,
    WeightTensor,
};

fn with_header(json: &str, data: &[u8]) -> Vec<u8> {
    let mut v = (json.len() as u64).to_le_bytes().to_vec();
    v.extend_from_slice(json.as_bytes());
    v.extend_from_slice(data);
    v
}

fn tensor(rows: usize, cols: usize, scheme: QuantScheme) -> WeightTensor {
    WeightTensor {
        name: "w".to_string(),
        scheme,
        data_ptr: 4096,
        data_len: 77,
        rows,
        cols,
        scales_ptr: None,
        zeros_ptr: Some(8),
        group_size: Some(128),
    }
}

#[test]
fn scheme_names_in_any_case() {
    assert_eq!(QuantScheme::from_str("bf16"), Some(QuantScheme::BFloat16));
    assert_eq!(QuantScheme::from_str("BFloat16"), Some(QuantScheme::BFloat16));
    assert_eq!(QuantScheme::from_str("FP8"), Some(QuantScheme::Float8));
    assert_eq!(QuantScheme::from_str("float8"), Some(QuantScheme::Float8));
    assert_eq!(QuantScheme::from_str("AWQ"), Some(QuantScheme::Int4Awq));
    assert_eq!(QuantScheme::from_str("int4_awq"), Some(QuantScheme::Int4Awq));
    assert_eq!(QuantScheme::from_str("gptq"), Some(QuantScheme::Int4Gptq));
    assert_eq!(QuantScheme::from_str("Int4_GPTQ"), Some(QuantScheme::Int4Gptq));
    assert_eq!(QuantScheme::from_str("sq"), Some(QuantScheme::Int8Sq));
    assert_eq!(QuantScheme::from_str("INT8_SQ"), Some(QuantScheme::Int8Sq));
    assert_eq!(QuantScheme::from_str("float16"), None);
    assert_eq!(QuantScheme::from_str(""), None);
}

#[test]
fn lowercase_names_are_matched_exactly() {
    assert_eq!(QuantScheme::from_lowercase_name("awq"), Some(QuantScheme::Int4Awq));
    assert_eq!(QuantScheme::from_lowercase_name("AWQ"), None);
    assert_eq!(QuantScheme::from_lowercase_name(" awq"), None);
}

#[test]
fn default_scheme_is_bf16() {
    assert_eq!(QuantScheme::default(), QuantScheme::BFloat16);
}

#[test]
fn bits_per_element() {
    assert_eq!(QuantScheme::BFloat16.bits_per_element(), 16);
    assert_eq!(QuantScheme::Float8.bits_per_element(), 8);
    assert_eq!(QuantScheme::Int4Awq.bits_per_element(), 4);
    assert_eq!(QuantScheme::Int4Gptq.bits_per_element(), 4);
    assert_eq!(QuantScheme::Int8Sq.bits_per_element(), 8);
}

#[test]
fn size_bytes_uses_whole_bytes_per_element() {
    assert_eq!(tensor(3, 4, QuantScheme::BFloat16).size_bytes(), 24);
    assert_eq!(tensor(3, 4, QuantScheme::Float8).size_bytes(), 12);
    assert_eq!(tensor(3, 4, QuantScheme::Int4Awq).size_bytes(), 6);
    assert_eq!(tensor(3, 4, QuantScheme::Int4Gptq).size_bytes(), 6);
    assert_eq!(tensor(3, 4, QuantScheme::Int8Sq).size_bytes(), 12);
    assert_eq!(tensor(0, 4, QuantScheme::BFloat16).size_bytes(), 0);
}

#[test]
fn size_bytes_is_exact_for_large_tensors() {
    assert_eq!(tensor(16_777_217, 1, QuantScheme::Float8).size_bytes(), 16_777_217);
    assert_eq!(tensor(16_777_219, 1, QuantScheme::Float8).size_bytes(), 16_777_219);
    assert_eq!(tensor(16_777_217, 1, QuantScheme::BFloat16).size_bytes(), 33_554_434);
}

#[test]
fn size_bytes_of_four_bit_tensors_rounds_up() {
    assert_eq!(tensor(4, 4, QuantScheme::Int4Awq).size_bytes(), 8);
    assert_eq!(tensor(3, 3, QuantScheme::Int4Gptq).size_bytes(), 5);
    assert_eq!(tensor(1, 1, QuantScheme::Int4Awq).size_bytes(), 1);
    assert_eq!(tensor(0, 1, QuantScheme::Int4Awq).size_bytes(), 0);
}

#[test]
fn as_raw_gives_address_and_length() {
    assert_eq!(tensor(1, 1, QuantScheme::Float8).as_raw(), (4096, 77));
}

#[test]
fn safetensors_header_lists_tensors() {
    let json = r#"{"a":{"dtype":"F16","shape":[2,3],"data_offsets":[0,12]},"__metadata__":{"format":"pt"},"b":{"dtype":"BF16","shape":[4],"data_offsets":[12,20]},"c":{"shape":[1]}}"#;
    let bytes = with_header(json, &[0u8; 20]);
    let base = 8 + json.len();
    let ts = parse_safetensors_header(&bytes).unwrap();
    assert_eq!(ts.len(), 2);
    assert_eq!(ts[0].name, "a");
    assert_eq!(ts[0].dtype, "F16");
    assert_eq!(ts[0].shape, vec![2, 3]);
    assert_eq!(ts[0].data_start, base);
    assert_eq!(ts[0].data_end, base + 12);
    assert_eq!(ts[1].name, "b");
    assert_eq!(ts[1].dtype, "BF16");
    assert_eq!(ts[1].shape, vec![4]);
    assert_eq!(ts[1].data_start, base + 12);
    assert_eq!(ts[1].data_end, base + 20);
}

#[test]
fn odd_offsets_and_shapes() {
    let json = r#"{"t":{"dtype":"I8","shape":[3,"x",-1,5],"data_offsets":[4]},"u":{"dtype":"F32","data_offsets":[]}}"#;
    let bytes = with_header(json, &[]);
    let base = 8 + json.len();
    let ts = parse_safetensors_header(&bytes).unwrap();
    assert_eq!(ts.len(), 2);
    assert_eq!(ts[0].shape, vec![3, 5]);
    assert_eq!(ts[0].data_start, base + 4);
    assert_eq!(ts[0].data_end, base + 4);
    assert_eq!(ts[1].shape, Vec::<usize>::new());
    assert_eq!(ts[1].data_start, base);
    assert_eq!(ts[1].data_end, base);
}

#[test]
fn safetensors_header_errors() {
    assert_eq!(parse_safetensors_header(&[1, 2, 3]).unwrap_err(), HeaderError::TooSmall);
    assert_eq!(parse_safetensors_header(&[]).unwrap_err(), HeaderError::TooSmall);
    let mut truncated = 100u64.to_le_bytes().to_vec();
    truncated.extend_from_slice(b"{}");
    assert_eq!(parse_safetensors_header(&truncated).unwrap_err(), HeaderError::Truncated);
    let bad = with_header("{not json", &[]);
    assert_eq!(parse_safetensors_header(&bad).unwrap_err(), HeaderError::InvalidJson);
    let list = with_header("[1,2]", &[]);
    assert!(parse_safetensors_header(&list).unwrap().is_empty());
    assert_eq!(HeaderError::Truncated.message(), "safetensors header truncated");
}

#[test]
fn detect_scheme_from_config() {
    let check = |text: &str, want: QuantScheme| {
        let v = read_json(text.as_bytes()).unwrap();
        assert_eq!(detect_quant_scheme(&v), want, "for {}", text);
    };
    check(r#"{"quantization_config":{"quant_method":"awq"}}"#, QuantScheme::Int4Awq);
    check(r#"{"quantization_config":{"quant_type":"fp8","quant_method":"awq"}}"#, QuantScheme::Float8);
    check(r#"{"quantization_config":{"quant_type":"GPTQ"},"torch_dtype":"bf16"}"#, QuantScheme::Int4Gptq);
    check(r#"{"quantization_config":{"quant_type":"xx"},"torch_dtype":"int8_sq"}"#, QuantScheme::Int8Sq);
    check(r#"{"quantization_config":{"quant_type":7,"quant_method":"sq"}}"#, QuantScheme::Int8Sq);
    check(r#"{"torch_dtype":"bfloat16"}"#, QuantScheme::BFloat16);
    check(r#"{"torch_dtype":"float16"}"#, QuantScheme::BFloat16);
    check(r#"{"torch_dtype":"Float8"}"#, QuantScheme::Float8);
    check(r#"{}"#, QuantScheme::BFloat16);
    check(r#"[1]"#, QuantScheme::BFloat16);
}

#[test]
fn header_length_past_the_address_space_is_truncated() {
    let mut bytes = u64::MAX.to_le_bytes().to_vec();
    bytes.extend_from_slice(b"{}");
    assert_eq!(parse_safetensors_header(&bytes).unwrap_err(), HeaderError::Truncated);
}

use memmap2::{Mmap, MmapOptions};
use voidweb::loader::{parse_header, parse_safetensors_header, DType, LoadError, TensorInfo, WeightMap};

fn with_header(json: &str, data: &[u8]) -> Vec<u8> {
    let mut v = (json.len() as u64).to_le_bytes().to_vec();
    v.extend_from_slice(json.as_bytes());
    v.extend_from_slice(data);
    v
}

fn mapped(bytes: &[u8]) -> Mmap {
    let mut m = MmapOptions::new().len(bytes.len()).map_anon().unwrap();
    m.copy_from_slice(bytes);
    m.make_read_only().unwrap()
}

fn info(name: &str, offset: usize, nbytes: usize) -> TensorInfo {
    TensorInfo { name: name.to_string(), shape: vec![nbytes], dtype: DType::I8, offset, nbytes }
}

#[test]
fn header_entries() {
    let json = r#"{"w":{"dtype":"BF16","shape":[2,2],"data_offsets":[0,8]},"__metadata__":{"x":"y"},"v":{"dtype":"f16","data_offsets":[8,10]},"z":{}}"#;
    let bytes = with_header(json, &[7u8; 10]);
    let base = 8 + json.len();
    let ts = parse_header(&bytes).unwrap();
    assert_eq!(ts.len(), 3);
    assert_eq!(ts[0].name, "v");
    assert_eq!(ts[0].dtype, DType::F16);
    assert_eq!(ts[0].offset, base + 8);
    assert_eq!(ts[0].nbytes, 2);
    assert!(ts[0].shape.is_empty());
    assert_eq!(ts[1].name, "w");
    assert_eq!(ts[1].dtype, DType::BF16);
    assert_eq!(ts[1].shape, vec![2, 2]);
    assert_eq!(ts[1].offset, base);
    assert_eq!(ts[1].nbytes, 8);
    assert_eq!(ts[2].name, "z");
    assert_eq!(ts[2].dtype, DType::F32);
    assert_eq!(ts[2].offset, base);
    assert_eq!(ts[2].nbytes, 0);
}

#[test]
fn dtype_names() {
    let json = r#"{"a":{"dtype":"F32"},"b":{"dtype":"i8"},"c":{"dtype":"I4"},"d":{"dtype":"BF16"},"e":{"dtype":3}}"#;
    let ts = parse_header(&with_header(json, &[])).unwrap();
    let d: Vec<DType> = ts.iter().map(|t| t.dtype).collect();
    assert_eq!(d, vec![DType::F32, DType::I8, DType::F32, DType::BF16, DType::F32]);
}

#[test]
fn header_errors() {
    assert_eq!(parse_header(&[0u8; 7]).unwrap_err(), LoadError::TooSmall);
    let mut short = 3u64.to_le_bytes().to_vec();
    short.extend_from_slice(b"{}");
    assert_eq!(parse_header(&short).unwrap_err(), LoadError::HeaderOverflow);
    assert_eq!(parse_header(&with_header("{\"a\":", &[])).unwrap_err(), LoadError::InvalidJson);
    assert_eq!(LoadError::TooSmall.message(), "file too small to be safetensors");
}

#[test]
fn mapped_file_header() {
    let json = r#"{"t":{"dtype":"I8","shape":[3],"data_offsets":[0,3]}}"#;
    let m = mapped(&with_header(json, &[1, 2, 3]));
    let ts = parse_safetensors_header(&m).unwrap();
    assert_eq!(ts.len(), 1);
    assert_eq!(ts[0].offset, 8 + json.len());
    assert_eq!(ts[0].nbytes, 3);
}

#[test]
fn weights_of_shards() {
    let m0 = mapped(&[0, 1, 2, 3, 4, 5]);
    let m1 = mapped(&[10, 11, 12, 13, 14, 15, 16, 17, 18, 19]);
    let infos = vec![
        vec![info("a", 0, 2), info("b", 2, 3)],
        vec![info("b", 6, 4), info("c", 1, 1)],
    ];
    let w = WeightMap::from_parsed(&infos, vec![m0, m1]);
    let mut names = w.names();
    names.sort();
    assert_eq!(names, vec!["a".to_string(), "b".to_string(), "c".to_string()]);
    assert_eq!(w.info("b").unwrap().offset, 6);
    assert_eq!(w.info("b").unwrap().nbytes, 4);
    assert!(w.info("d").is_none());
    assert_eq!(w.raw_bytes("a"), Some(&[0u8, 1][..]));
    assert_eq!(w.raw_bytes("c"), Some(&[11u8][..]));
    assert_eq!(w.raw_bytes("b"), Some(&[16u8, 17, 18, 19][..]));
    assert_eq!(w.raw_bytes("d"), None);
}

#[test]
fn bytes_past_every_map_are_absent() {
    let w = WeightMap::from_parsed(&vec![vec![info("big", 4, 100)]], vec![mapped(&[0u8; 16])]);
    assert_eq!(w.raw_bytes("big"), None);
    assert!(w.info("big").is_some());
}

#[test]
fn bytes_come_from_the_owning_shard() {
    let m0 = mapped(&[0, 1, 2, 3]);
    let m1 = mapped(&[10, 11, 12, 13, 14, 15, 16, 17]);
    let infos = vec![vec![info("late", 5, 2)], vec![info("x", 0, 1)], vec![info("gone", 0, 1)]];
    let w = WeightMap::from_parsed(&infos, vec![m0, m1]);
    assert_eq!(w.raw_bytes("late"), None);
    assert_eq!(w.raw_bytes("x"), Some(&[10u8][..]));
    assert_eq!(w.raw_bytes("gone"), None);
    assert!(w.info("gone").is_some());
}

#[test]
fn header_length_past_the_address_space_overflows() {
    let mut bytes = u64::MAX.to_le_bytes().to_vec();
    bytes.extend_from_slice(b"{}");
    assert_eq!(parse_header(&bytes).unwrap_err(), LoadError::HeaderOverflow);
}

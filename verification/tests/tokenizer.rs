use voidweb::tokenizer::{decode_hf_token, Tokenizer};

fn small() -> Tokenizer {
    let vocab: Vec<(String, u32)> = vec![
        ("<unk>".to_string(), 0),
        ("<s>".to_string(), 1),
        ("</s>".to_string(), 2),
        ("a".to_string(), 3),
        ("b".to_string(), 4),
        ("ab".to_string(), 5),
        ("Ġ".to_string(), 6),
    ];
    let merges: Vec<String> = vec!["a b".to_string(), "x y".to_string()];
    let added: Vec<(u32, String)> = vec![];
    Tokenizer::from_parts(&vocab, &merges, &added)
}

#[test]
fn special_ids_come_from_the_vocabulary() {
    let t = small();
    assert_eq!(t.bos_id(), 1);
    assert_eq!(t.eos_id(), 2);
    assert_eq!(t.vocab_size, 7);
}

#[test]
fn special_ids_fall_back_to_defaults() {
    let vocab: Vec<(String, u32)> = vec![("a".to_string(), 0)];
    let t = Tokenizer::from_parts(&vocab, &vec![], &vec![]);
    assert_eq!(t.bos_id(), 1);
    assert_eq!(t.eos_id(), 2);
    let vocab2: Vec<(String, u32)> = vec![("<|begin_of_text|>".to_string(), 7), ("<|end_of_text|>".to_string(), 8)];
    let t2 = Tokenizer::from_parts(&vocab2, &vec![], &vec![]);
    assert_eq!(t2.bos_id(), 7);
    assert_eq!(t2.eos_id(), 8);
}

#[test]
fn encode_applies_merges() {
    let t = small();
    assert_eq!(t.encode("ab", true), vec![1, 5]);
    assert_eq!(t.encode("aab", false), vec![3, 5]);
    assert_eq!(t.encode("abab", false), vec![5, 5]);
    assert_eq!(t.encode("", false), Vec::<u32>::new());
    assert_eq!(t.encode("", true), vec![1]);
}

#[test]
fn unknown_bytes_become_unk() {
    let t = small();
    assert_eq!(t.encode("acb", false), vec![3, 0, 4]);
}

#[test]
fn decode_concatenates_token_bytes() {
    let t = small();
    assert_eq!(t.decode(&[3, 5]), "aab");
    assert_eq!(t.decode(&[5, 99, 4]), "abb");
    assert_eq!(t.decode(&[6, 3]), " a");
    assert_eq!(t.decode(&[]), "");
}

#[test]
fn encode_then_decode_gives_the_text_back() {
    let t = small();
    let ids = t.encode("babba", false);
    assert_eq!(t.decode(&ids), "babba");
    assert!(ids.len() <= 5);
}

#[test]
fn added_tokens_take_their_bytes_verbatim() {
    let vocab: Vec<(String, u32)> = vec![("a".to_string(), 0)];
    let added: Vec<(u32, String)> = vec![(1, "<s>".to_string()), (2, "</s>".to_string())];
    let t = Tokenizer::from_parts(&vocab, &vec![], &added);
    assert_eq!(t.bos_id(), 1);
    assert_eq!(t.eos_id(), 2);
    assert_eq!(t.vocab_size, 3);
    assert_eq!(t.decode(&[1, 0, 2]), "<s>a</s>");
}

#[test]
fn hf_escapes_decode_to_bytes() {
    assert_eq!(decode_hf_token("Ġa"), vec![b' ', b'a']);
    assert_eq!(decode_hf_token("Ċ"), vec![b'\n']);
    assert_eq!(decode_hf_token("ĉ"), vec![b'\t']);
    assert_eq!(decode_hf_token("é"), vec![0xe9]);
    assert_eq!(decode_hf_token("中"), "中".as_bytes().to_vec());
    assert_eq!(decode_hf_token(""), Vec::<u8>::new());
}

#[test]
fn invalid_utf8_decodes_lossily() {
    let vocab: Vec<(String, u32)> = vec![("é".to_string(), 0)];
    let t = Tokenizer::from_parts(&vocab, &vec![], &vec![]);
    assert_eq!(t.decode(&[0]), "\u{fffd}");
}

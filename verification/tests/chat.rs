use voidweb::chat::{
    build_prompt, completion_id, finish_reason_of, model_config_from_json, request_params, take_finished, ChatMessage,
    FinishReason,
};
use voidweb::json::read_json;
use voidweb::quantization::QuantScheme;

fn msg(role: &str, content: &str) -> ChatMessage {
    ChatMessage { role: role.to_string(), content: content.to_string() }
}

#[test]
fn chatml_prompt() {
    let p = build_prompt(&[msg("system", "Be brief."), msg("user", "Hi")]);
    assert_eq!(
        p,
        "<|im_start|>system\nBe brief.<|im_end|>\n<|im_start|>user\nHi<|im_end|>\n<|im_start|>assistant\n"
    );
    assert_eq!(build_prompt(&[]), "<|im_start|>assistant\n");
}

#[test]
fn completion_ids() {
    assert_eq!(completion_id(0), "chatcmpl-0");
    assert_eq!(completion_id(42), "chatcmpl-42");
    assert_eq!(completion_id(u64::MAX), "chatcmpl-18446744073709551615");
}

#[test]
fn finished_output_of_one_request() {
    let list = vec![(3u64, vec![1u32]), (5, vec![2, 3]), (5, vec![9])];
    assert_eq!(
        take_finished(list.clone(), 5),
        (Some(vec![2, 3]), vec![(3u64, vec![1u32]), (5, vec![9])])
    );
    assert_eq!(
        take_finished(list.clone(), 3),
        (Some(vec![1]), vec![(5u64, vec![2u32, 3]), (5, vec![9])])
    );
    assert_eq!(take_finished(list.clone(), 4), (None, list));
    assert_eq!(take_finished(vec![], 1), (None, vec![]));
}

#[test]
fn model_config_with_defaults() {
    let v = read_json(b"{}").unwrap();
    let c = model_config_from_json(&v, "/models/m", 1, 2);
    assert_eq!(c.model_type, "oracle");
    assert_eq!(c.hidden_size, 4096);
    assert_eq!(c.num_heads, 32);
    assert_eq!(c.num_kv_heads, 8);
    assert_eq!(c.num_layers, 32);
    assert_eq!(c.head_dim, 0);
    assert_eq!(c.vocab_size, 32000);
    assert_eq!(c.max_seq_len, 8192);
    assert_eq!(c.rope_theta_bits, 1);
    assert_eq!(c.rms_norm_eps_bits, 2);
    assert_eq!(c.quant_scheme, QuantScheme::BFloat16);
    assert_eq!(c.weights_path, "/models/m");
    assert!(c.tokenizer_path.is_none());
}

#[test]
fn model_config_from_values() {
    let v = read_json(
        br#"{"model_type":"qwen2","hidden_size":3584,"num_attention_heads":28,"num_key_value_heads":4,"num_hidden_layers":28,"vocab_size":152064,"max_position_embeddings":32768,"torch_dtype":"bfloat16","quantization_config":{"quant_method":"awq"}}"#,
    )
    .unwrap();
    let c = model_config_from_json(&v, "/m", 0, 0);
    assert_eq!(c.model_type, "qwen2");
    assert_eq!(c.hidden_size, 3584);
    assert_eq!(c.num_heads, 28);
    assert_eq!(c.num_kv_heads, 4);
    assert_eq!(c.num_layers, 28);
    assert_eq!(c.vocab_size, 152064);
    assert_eq!(c.max_seq_len, 32768);
    assert_eq!(c.quant_scheme, QuantScheme::Int4Awq);
    let odd = read_json(br#"{"hidden_size":-1,"model_type":5}"#).unwrap();
    let c = model_config_from_json(&odd, "/m", 0, 0);
    assert_eq!(c.hidden_size, 4096);
    assert_eq!(c.model_type, "oracle");
}

#[test]
fn request_params_defaults_and_overrides() {
    let d = request_params(None, None, None, None, 2);
    assert_eq!(d.temperature_bits, 0.7f32.to_bits());
    assert_eq!(d.top_p_bits, 0.95f32.to_bits());
    assert_eq!(d.top_k, 50);
    assert_eq!(d.max_new_tokens, 2048);
    assert_eq!(d.repetition_penalty_bits, 1.1f32.to_bits());
    assert_eq!(d.stop_tokens, vec![2]);
    let p = request_params(Some(0.0f32.to_bits()), Some(1.0f32.to_bits()), Some(1), Some(16), 151_643);
    assert_eq!(p.stop_tokens, vec![151_643]);
    assert_eq!(p.temperature_bits, 0);
    assert_eq!(p.top_p_bits, 1.0f32.to_bits());
    assert_eq!(p.top_k, 1);
    assert_eq!(p.max_new_tokens, 16);
}

#[test]
fn finish_reasons() {
    assert_eq!(finish_reason_of(&[5, 2], &[2], 2048), FinishReason::Stop);
    assert_eq!(finish_reason_of(&[5, 6], &[2], 2), FinishReason::Length);
    assert_eq!(finish_reason_of(&[5, 2], &[2], 2), FinishReason::Stop);
    assert_eq!(finish_reason_of(&[], &[2], 0), FinishReason::Length);
    assert_eq!(finish_reason_of(&[5], &[2], 10), FinishReason::Stop);
    assert_eq!(FinishReason::Stop.as_str(), "stop");
    assert_eq!(FinishReason::Length.as_str(), "length");
}

use voidweb::engine::{block_manager_for, estimate_gpu_blocks, scheduler_for, ModelConfig, SeqDescriptor};
use voidweb::quantization::QuantScheme;
use voidweb::scheduler::SeqDescriptorStub;

fn cfg(hidden: usize, heads: usize, kv: usize, layers: usize) -> ModelConfig {
    ModelConfig {
        model_type: "llama".to_string(),
        hidden_size: hidden,
        num_heads: heads,
        num_kv_heads: kv,
        num_layers: layers,
        head_dim: 0,
        vocab_size: 32000,
        max_seq_len: 8192,
        rope_theta_bits: 10000.0f32.to_bits(),
        rms_norm_eps_bits: 1e-5f32.to_bits(),
        quant_scheme: QuantScheme::BFloat16,
        weights_path: "/models/x".to_string(),
        tokenizer_path: None,
    }
}

#[test]
fn head_dim_divides_hidden_by_heads() {
    assert_eq!(cfg(4096, 32, 8, 32).head_dim(), 128);
    assert_eq!(cfg(4100, 32, 8, 32).head_dim(), 128);
}

#[test]
fn gpu_blocks_fit_the_budget() {
    assert_eq!(estimate_gpu_blocks(&cfg(4096, 32, 8, 32)), 32768);
    assert_eq!(estimate_gpu_blocks(&cfg(8192, 64, 64, 80)), 1638);
    assert_eq!(estimate_gpu_blocks(&cfg(16384, 16, 64, 200)), 512);
}

#[test]
fn block_manager_for_a_model() {
    let m = block_manager_for(&cfg(4096, 32, 8, 32));
    assert_eq!(m.capacity(), 32768);
    assert_eq!(m.free_count(), 32768);
    assert_eq!(m.block_size, 16);
    assert_eq!(m.head_dim, 128);
    assert_eq!(m.num_kv_heads, 8);
    assert_eq!(m.num_layers, 32);
}

#[test]
fn scheduler_for_a_model() {
    let mut s = scheduler_for(&cfg(4096, 32, 8, 32));
    assert_eq!(s.waiting_count(), 0);
    assert_eq!(s.running_count(), 0);
    assert_eq!(s.add_request(vec![1], Default::default()), 1);
}

#[test]
fn seq_descriptor_copies_the_stub() {
    let stub = SeqDescriptorStub { seq_id: 5, token_ptr: 100, num_tokens: 3, block_ptr: 200, num_blocks: 2, is_prefill: 1 };
    let d = SeqDescriptor::from_stub(&stub);
    assert_eq!(
        d,
        SeqDescriptor { seq_id: 5, token_ids: 100, num_tokens: 3, block_table: 200, num_blocks: 2, is_prefill: 1 }
    );
}

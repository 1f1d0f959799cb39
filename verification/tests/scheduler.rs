use voidweb::scheduler::{logit_row_width, Policy, Request, RequestStatus, SamplingParams, Scheduler};

fn params(max_new_tokens: u32, stop_tokens: Vec<u32>) -> SamplingParams {
    let mut p = SamplingParams::default();
    p.max_new_tokens = max_new_tokens;
    p.stop_tokens = stop_tokens;
    p
}

#[test]
fn default_sampling_params() {
    let p = SamplingParams::default();
    assert_eq!(p.temperature_bits, 0.7f32.to_bits());
    assert_eq!(p.top_p_bits, 0.95f32.to_bits());
    assert_eq!(p.top_k, 50);
    assert_eq!(p.max_new_tokens, 2048);
    assert_eq!(p.repetition_penalty_bits, 1.1f32.to_bits());
    assert!(p.stop_tokens.is_empty());
}

#[test]
fn request_lengths_and_stop_conditions() {
    let mut r = Request::new(9, vec![1, 2, 3], params(2, vec![42]));
    assert_eq!(r.id, 9);
    assert_eq!(r.status, RequestStatus::Waiting);
    assert_eq!(r.total_len(), 3);
    assert!(!r.is_done());
    r.output_tokens.push(42);
    assert!(r.is_done());
    r.output_tokens[0] = 7;
    assert!(!r.is_done());
    r.output_tokens.push(8);
    assert!(r.is_done());
    assert_eq!(r.total_len(), 5);
}

#[test]
fn request_ids_count_up_from_one() {
    let mut s = Scheduler::new(4096, 8192, 256);
    assert_eq!(s.add_request(vec![1], SamplingParams::default()), 1);
    assert_eq!(s.add_request(vec![2], SamplingParams::default()), 2);
    assert_eq!(s.add_request(vec![3], SamplingParams::default()), 3);
    assert_eq!(s.waiting_count(), 3);
    assert_eq!(s.running_count(), 0);
}

#[test]
fn whole_prompts_are_prefilled_then_decoded() {
    let mut s = Scheduler::new(4096, 8192, 256);
    let a = s.add_request(vec![1, 2, 3], SamplingParams::default());
    let b = s.add_request(vec![4, 5], SamplingParams::default());
    let batch = s.schedule_batch();
    assert_eq!(batch.prefill_seqs.len(), 2);
    assert_eq!(batch.prefill_seqs[0].req_id, a);
    assert_eq!(batch.prefill_seqs[0].tokens, vec![1, 2, 3]);
    assert_eq!(batch.prefill_seqs[1].req_id, b);
    assert_eq!(batch.prefill_seqs[1].tokens, vec![4, 5]);
    assert!(batch.decode_seqs.is_empty());
    assert_eq!(batch.num_seqs(), 2);
    assert_eq!(batch.total_tokens(), 5);
    assert!(!batch.is_empty());
    assert_eq!(s.waiting_count(), 0);
    assert_eq!(s.running_count(), 2);
    let batch = s.schedule_batch();
    assert!(batch.prefill_seqs.is_empty());
    let mut decode: Vec<(u64, u32)> = batch.decode_seqs.iter().map(|d| (d.req_id, d.last_token)).collect();
    decode.sort();
    assert_eq!(decode, vec![(a, 3), (b, 5)]);
    assert_eq!(batch.total_tokens(), 2);
}

#[test]
fn a_promoted_request_is_not_decoded_in_the_same_batch() {
    let mut s = Scheduler::new(8192, 8192, 256);
    let id = s.add_request(vec![1, 2], SamplingParams::default());
    let b = s.schedule_batch();
    assert_eq!(b.prefill_seqs.len(), 1);
    assert_eq!(b.prefill_seqs[0].req_id, id);
    assert_eq!(b.prefill_seqs[0].tokens, vec![1, 2]);
    assert!(b.decode_seqs.is_empty());
}

#[test]
fn an_empty_scheduler_schedules_nothing() {
    let mut s = Scheduler::new(4096, 8192, 256);
    let batch = s.schedule_batch();
    assert!(batch.is_empty());
    assert_eq!(batch.num_seqs(), 0);
    assert_eq!(batch.total_tokens(), 0);
}

#[test]
fn long_prompts_are_prefilled_in_chunks() {
    let mut s = Scheduler::new(4096, 4, 256);
    let a = s.add_request(vec![1, 2, 3, 4, 5, 6], SamplingParams::default());
    let batch = s.schedule_batch();
    assert_eq!(batch.prefill_seqs.len(), 1);
    assert_eq!(batch.prefill_seqs[0].req_id, a);
    assert_eq!(batch.prefill_seqs[0].tokens, vec![1, 2, 3, 4]);
    assert!(batch.decode_seqs.is_empty());
    assert_eq!(s.running_count(), 1);
    let batch = s.schedule_batch();
    assert_eq!(batch.prefill_seqs.len(), 1);
    assert_eq!(batch.prefill_seqs[0].req_id, a);
    assert_eq!(batch.prefill_seqs[0].tokens, vec![5, 6]);
    assert!(batch.decode_seqs.is_empty());
    let batch = s.schedule_batch();
    assert!(batch.prefill_seqs.is_empty());
    assert_eq!(batch.decode_seqs.len(), 1);
    assert_eq!(batch.decode_seqs[0].req_id, a);
    assert_eq!(batch.decode_seqs[0].last_token, 6);
}

#[test]
fn chunked_prefill_continues_in_full_chunks() {
    let mut s = Scheduler::new(8192, 8192, 256);
    let prompt: Vec<u32> = (0..3000).collect();
    let a = s.add_request(prompt.clone(), SamplingParams::default());
    let batch = s.schedule_batch();
    assert_eq!(batch.prefill_seqs.len(), 1);
    assert_eq!(batch.prefill_seqs[0].tokens, prompt[..2048].to_vec());
    let batch = s.schedule_batch();
    assert_eq!(batch.prefill_seqs.len(), 1);
    assert_eq!(batch.prefill_seqs[0].req_id, a);
    assert_eq!(batch.prefill_seqs[0].tokens, prompt[2048..].to_vec());
    assert!(batch.decode_seqs.is_empty());
    let batch = s.schedule_batch();
    assert_eq!(batch.decode_seqs.len(), 1);
    assert_eq!(batch.decode_seqs[0].last_token, 2999);
}

#[test]
fn a_request_without_budget_left_stays_waiting() {
    let mut s = Scheduler::new(8192, 4, 256);
    let a = s.add_request(vec![1, 2, 3, 4], SamplingParams::default());
    let b = s.add_request(vec![5, 6], SamplingParams::default());
    let batch = s.schedule_batch();
    assert_eq!(batch.prefill_seqs.len(), 1);
    assert_eq!(batch.prefill_seqs[0].req_id, a);
    assert_eq!(s.running_count(), 1);
    assert_eq!(s.waiting_count(), 1);
    let batch = s.schedule_batch();
    assert_eq!(batch.decode_seqs.len(), 1);
    assert_eq!(batch.decode_seqs[0].req_id, a);
    assert_eq!(batch.prefill_seqs.len(), 1);
    assert_eq!(batch.prefill_seqs[0].req_id, b);
    assert_eq!(batch.prefill_seqs[0].tokens, vec![5, 6]);
    assert_eq!(batch.total_tokens(), 3);
    assert_eq!(s.waiting_count(), 0);
    assert_eq!(s.running_count(), 2);
}

#[test]
fn decode_steps_count_against_the_budget() {
    let mut s = Scheduler::new(4096, 2, 256);
    s.add_request(vec![1], SamplingParams::default());
    s.add_request(vec![2], SamplingParams::default());
    s.add_request(vec![3], SamplingParams::default());
    let batch = s.schedule_batch();
    assert_eq!(batch.prefill_seqs.len(), 2);
    assert_eq!(s.waiting_count(), 1);
    let batch = s.schedule_batch();
    assert_eq!(batch.decode_seqs.len(), 2);
    assert!(batch.prefill_seqs.is_empty());
    assert_eq!(batch.total_tokens(), 2);
    assert_eq!(s.waiting_count(), 1);
}

#[test]
fn running_limit_holds_requests_back() {
    let mut s = Scheduler::new(4096, 8192, 1);
    s.add_request(vec![1], SamplingParams::default());
    s.add_request(vec![2], SamplingParams::default());
    let batch = s.schedule_batch();
    assert_eq!(batch.prefill_seqs.len(), 1);
    assert_eq!(s.running_count(), 1);
    assert_eq!(s.waiting_count(), 1);
}

#[test]
fn commit_step_finishes_at_max_new_tokens() {
    let mut s = Scheduler::new(4096, 8192, 256);
    let a = s.add_request(vec![1, 2], params(2, vec![]));
    let _ = s.schedule_batch();
    s.commit_step(&[(a, 7)]);
    assert_eq!(s.running_count(), 1);
    assert!(s.drain_finished().is_empty());
    s.commit_step(&[(a, 8), (99, 1)]);
    assert_eq!(s.running_count(), 0);
    assert_eq!(s.drain_finished(), vec![(a, vec![7, 8])]);
    assert!(s.drain_finished().is_empty());
}

#[test]
fn commit_step_finishes_at_a_stop_token() {
    let mut s = Scheduler::new(4096, 8192, 256);
    let a = s.add_request(vec![1, 2], params(100, vec![9]));
    let _ = s.schedule_batch();
    s.commit_step(&[(a, 5)]);
    let batch = s.schedule_batch();
    assert_eq!(batch.decode_seqs.len(), 1);
    assert_eq!(batch.decode_seqs[0].last_token, 5);
    s.commit_step(&[(a, 9)]);
    assert_eq!(s.drain_finished(), vec![(a, vec![5, 9])]);
}

#[test]
fn policy_can_be_set() {
    let mut s = Scheduler::new(4096, 8192, 256);
    s.set_policy(Policy::Lpm);
    s.add_request(vec![1, 2], SamplingParams::default());
    assert_eq!(s.schedule_batch().prefill_seqs.len(), 1);
}

#[test]
fn seq_descriptors_describe_the_batch() {
    let mut s = Scheduler::new(4096, 8192, 256);
    let a = s.add_request(vec![1, 2, 3], SamplingParams::default());
    let batch = s.schedule_batch();
    let (descs, toks, blocks) = batch.build_seq_descriptors();
    assert_eq!(descs.len(), 1);
    assert_eq!(toks, vec![vec![1, 2, 3]]);
    assert_eq!(blocks, vec![Vec::<u32>::new()]);
    assert_eq!(descs[0].seq_id, a);
    assert_eq!(descs[0].num_tokens, 3);
    assert_eq!(descs[0].is_prefill, 1);
    let batch = s.schedule_batch();
    let (descs, toks, _blocks) = batch.build_seq_descriptors();
    assert_eq!(descs.len(), 1);
    assert_eq!(toks, vec![vec![3]]);
    assert_eq!(descs[0].seq_id, a);
    assert_eq!(descs[0].num_tokens, 1);
    assert_eq!(descs[0].num_blocks, 0);
    assert_eq!(descs[0].is_prefill, 0);
}

#[test]
fn requests_without_tokens_keep_running() {
    let mut s = Scheduler::new(4096, 8192, 256);
    let a = s.add_request(vec![1, 2], params(5, vec![]));
    let b = s.add_request(vec![3, 4], params(5, vec![]));
    let _ = s.schedule_batch();
    s.commit_step(&[(a, 7)]);
    assert_eq!(s.running_count(), 2);
    let batch = s.schedule_batch();
    let mut decode: Vec<(u64, u32)> = batch.decode_seqs.iter().map(|d| (d.req_id, d.last_token)).collect();
    decode.sort();
    assert_eq!(decode, vec![(a, 7), (b, 4)]);
    assert!(s.drain_finished().is_empty());
}

#[test]
fn logits_split_into_equal_rows() {
    assert_eq!(logit_row_width(12, 3), Some(4));
    assert_eq!(logit_row_width(0, 2), Some(0));
    assert_eq!(logit_row_width(13, 3), None);
    assert_eq!(logit_row_width(2, 3), None);
}

#[test]
fn sampling_inputs_follow_the_rows() {
    let mut s = Scheduler::new(4096, 8192, 256);
    let a = s.add_request(vec![1, 2, 3], SamplingParams::default());
    let _ = s.schedule_batch();
    let b = s.add_request(vec![4, 5], SamplingParams::default());
    let batch = s.schedule_batch();
    assert_eq!(batch.sampling_inputs(), vec![(b, vec![4, 5]), (a, vec![3])]);
}

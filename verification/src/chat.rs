//! The chat front end's decisions: the prompt built from a conversation,
//! the model set-up read from `config.json`, completion ids and the
//! pick of a finished request.

use vstd::prelude::*;
use crate::json::{JsonValue, spec_index, str_eq};
use crate::engine::ModelConfig;
use crate::quantization::{detect_quant_scheme, spec_detect_quant_scheme};
use crate::text::{decimal, push_decimal};
use crate::scheduler::SamplingParams;

verus! {

/// One message of a conversation.
#[derive(Debug, Clone)]
pub struct ChatMessage {
    pub role: String,
    pub content: String,
}

/// The ChatML text of one message.
pub open spec fn chatml_message(m: ChatMessage) -> Seq<char> {
    "<|im_start|>"@ + m.role@ + "\n"@ + m.content@ + "<|im_end|>\n"@
}

/// The ChatML text of the messages, in order.
pub open spec fn chatml_messages(ms: Seq<ChatMessage>) -> Seq<char>
    decreases ms.len(),
{
    if ms.len() == 0 {
        Seq::empty()
    } else {
        chatml_messages(ms.drop_last()) + chatml_message(ms.last())
    }
}

/// The prompt for a conversation: every message in ChatML, then the
/// opening of the assistant's turn.
pub open spec fn chatml_prompt(ms: Seq<ChatMessage>) -> Seq<char> {
    chatml_messages(ms) + "<|im_start|>assistant\n"@
}

/// The prompt for a conversation, in ChatML.
pub fn build_prompt(messages: &[ChatMessage]) -> (r: String)
    ensures
        r@ == chatml_prompt(messages@),
{
    let mut s = String::new();
    let mut i: usize = 0;
    while i < messages.len()
        invariant
            i <= messages@.len(),
            s@ == chatml_messages(messages@.take(i as int)),
        decreases messages@.len() - i,
    {
        let m = &messages[i];
        s.append("<|im_start|>");
        s.append(m.role.as_str());
        s.append("\n");
        s.append(m.content.as_str());
        s.append("<|im_end|>\n");
        proof {
            assert(messages@.take(i + 1).drop_last() =~= messages@.take(i as int));
            assert(messages@.take(i + 1).last() == messages@[i as int]);
            assert(s@ =~= chatml_messages(messages@.take(i + 1)));
        }
        i = i + 1;
    }
    s.append("<|im_start|>assistant\n");
    proof {
        assert(messages@.take(messages@.len() as int) =~= messages@);
    }
    s
}

/// The id of the completion of request `req_id`.
pub open spec fn spec_completion_id(req_id: u64) -> Seq<char> {
    "chatcmpl-"@ + decimal(req_id as nat)
}

/// The id of the completion of request `req_id`: `chatcmpl-` and the number.
pub fn completion_id(req_id: u64) -> (r: String)
    ensures
        r@ == spec_completion_id(req_id),
{
    let mut s = String::from_str("chatcmpl-");
    push_decimal(&mut s, req_id);
    s
}

/// The first entry of `list` for request `id`.
pub open spec fn first_for(list: Seq<(u64, Vec<u32>)>, id: u64) -> Option<Seq<u32>>
    decreases list.len(),
{
    if list.len() == 0 {
        None
    } else if list[0].0 == id {
        Some(list[0].1@)
    } else {
        first_for(list.drop_first(), id)
    }
}

/// The position of the first entry of `list` for request `id`.
pub open spec fn first_index_for(list: Seq<(u64, Vec<u32>)>, id: u64) -> Option<int>
    decreases list.len(),
{
    if list.len() == 0 {
        None
    } else if list[0].0 == id {
        Some(0)
    } else {
        match first_index_for(list.drop_first(), id) {
            Some(i) => Some(i + 1),
            None => None,
        }
    }
}

proof fn lemma_first_index_for(list: Seq<(u64, Vec<u32>)>, id: u64)
    ensures
        match first_index_for(list, id) {
            Some(i) => 0 <= i < list.len() && list[i].0 == id && first_for(list, id) == Some(list[i].1@)
                && forall|j: int| 0 <= j < i ==> list[j].0 != id,
            None => first_for(list, id) is None && forall|j: int| 0 <= j < list.len() ==> list[j].0 != id,
        },
    decreases list.len(),
{
    if list.len() > 0 && list[0].0 != id {
        lemma_first_index_for(list.drop_first(), id);
        assert forall|j: int| 1 <= j < list.len() implies list[j] == list.drop_first()[j - 1] by {}
    }
}

/// Splits finished requests into the output of `req_id`, the first entry
/// listed for it, and the other entries, in their order, for other waiters.
pub fn take_finished(list: Vec<(u64, Vec<u32>)>, req_id: u64) -> (r: (Option<Vec<u32>>, Vec<(u64, Vec<u32>)>))
    ensures
        match r.0 {
            Some(v) => first_for(list@, req_id) == Some(v@)
                && exists|i: int| first_index_for(list@, req_id) == Some(i) && r.1@ == list@.remove(i),
            None => first_for(list@, req_id) is None && r.1@ == list@,
        },
{
    let ghost orig = list@;
    let mut pending = list;
    let mut i: usize = 0;
    proof {
        lemma_first_index_for(orig, req_id);
    }
    while i < pending.len()
        invariant
            pending@ == orig,
            list@ == orig,
            i <= orig.len(),
            forall|j: int| 0 <= j < i ==> orig[j].0 != req_id,
            match first_index_for(orig, req_id) {
                Some(k) => 0 <= k < orig.len() && orig[k].0 == req_id && first_for(orig, req_id) == Some(orig[k].1@)
                    && forall|j: int| 0 <= j < k ==> orig[j].0 != req_id,
                None => first_for(orig, req_id) is None && forall|j: int| 0 <= j < orig.len() ==> orig[j].0 != req_id,
            },
        decreases orig.len() - i,
    {
        if pending[i].0 == req_id {
            let entry = pending.remove(i);
            let out = entry.1;
            proof {
                assert(first_index_for(orig, req_id) == Some(i as int));
                assert(pending@ =~= orig.remove(i as int));
            }
            return (Some(out), pending);
        }
        i = i + 1;
    }
    (None, pending)
}

/// A numeric member of a config as a `usize`, or `default`.
pub open spec fn config_usize(cfg: JsonValue, key: Seq<char>, default: u64) -> usize {
    match spec_index(cfg, key) {
        JsonValue::Number(Some(n)) => n as usize,
        _ => default as usize,
    }
}

/// The model type a config names, `oracle` when it names none.
pub open spec fn config_model_type(cfg: JsonValue) -> Seq<char> {
    match spec_index(cfg, "model_type"@) {
        JsonValue::Str(s) => s@,
        _ => "oracle"@,
    }
}

/// A numeric member of a config, or `default`.
fn usize_member(cfg: &JsonValue, key: &str, default: u64) -> (r: usize)
    ensures
        r == config_usize(*cfg, key@, default),
{
    match cfg.get(key) {
        Some(v) => match v.as_u64() {
            Some(n) => n as usize,
            None => default as usize,
        },
        None => default as usize,
    }
}

/// The set-up of the model in `model_path` as its `config.json` gives it:
/// sizes with the defaults of a 32-layer model, the quantisation scheme it
/// declares, the weights in `model_path`. The head dimension is left at
/// zero for the engine to compute; the two float settings come as bits.
pub fn model_config_from_json(cfg: &JsonValue, model_path: &str, rope_theta_bits: u32, rms_norm_eps_bits: u32) -> (r: ModelConfig)
    ensures
        r.model_type@ == config_model_type(*cfg),
        r.hidden_size == config_usize(*cfg, "hidden_size"@, 4096),
        r.num_heads == config_usize(*cfg, "num_attention_heads"@, 32),
        r.num_kv_heads == config_usize(*cfg, "num_key_value_heads"@, 8),
        r.num_layers == config_usize(*cfg, "num_hidden_layers"@, 32),
        r.head_dim == 0,
        r.vocab_size == config_usize(*cfg, "vocab_size"@, 32000),
        r.max_seq_len == config_usize(*cfg, "max_position_embeddings"@, 8192),
        r.rope_theta_bits == rope_theta_bits,
        r.rms_norm_eps_bits == rms_norm_eps_bits,
        r.quant_scheme == spec_detect_quant_scheme(*cfg),
        r.weights_path@ == model_path@,
        r.tokenizer_path is None,
{
    let model_type = match cfg.get("model_type") {
        Some(v) => match v.as_str() {
            Some(s) => String::from_str(s),
            None => String::from_str("oracle"),
        },
        None => String::from_str("oracle"),
    };
    ModelConfig {
        model_type,
        hidden_size: usize_member(cfg, "hidden_size", 4096),
        num_heads: usize_member(cfg, "num_attention_heads", 32),
        num_kv_heads: usize_member(cfg, "num_key_value_heads", 8),
        num_layers: usize_member(cfg, "num_hidden_layers", 32),
        head_dim: 0,
        vocab_size: usize_member(cfg, "vocab_size", 32000),
        max_seq_len: usize_member(cfg, "max_position_embeddings", 8192),
        rope_theta_bits,
        rms_norm_eps_bits,
        quant_scheme: detect_quant_scheme(cfg),
        weights_path: String::from_str(model_path),
        tokenizer_path: None,
    }
}


/// The bits of the `f32` 0.7, the default temperature.
pub const DEFAULT_TEMPERATURE_BITS: u32 = 0x3f33_3333;

/// The bits of the `f32` 0.95, the default top-p.
pub const DEFAULT_TOP_P_BITS: u32 = 0x3f73_3333;

/// The bits of the `f32` 1.1, the repetition penalty of chat requests.
pub const CHAT_REPETITION_PENALTY_BITS: u32 = 0x3f8c_cccd;

/// The sampling settings of a chat request: what it asks for, else
/// temperature 0.7, top-p 0.95, top-k 50 and 2048 new tokens; repetition
/// penalty 1.1; generation stops at the tokenizer's end-of-sequence token
/// `eos_id`. Floats are given as their bits.
pub fn request_params(temperature_bits: Option<u32>, top_p_bits: Option<u32>, top_k: Option<u32>, max_tokens: Option<u32>, eos_id: u32) -> (r: SamplingParams)
    ensures
        r.temperature_bits == (match temperature_bits {
            Some(t) => t,
            None => DEFAULT_TEMPERATURE_BITS,
        }),
        r.top_p_bits == (match top_p_bits {
            Some(p) => p,
            None => DEFAULT_TOP_P_BITS,
        }),
        r.top_k == (match top_k {
            Some(k) => k,
            None => 50,
        }),
        r.max_new_tokens == (match max_tokens {
            Some(m) => m,
            None => 2048,
        }),
        r.repetition_penalty_bits == CHAT_REPETITION_PENALTY_BITS,
        r.stop_tokens@ == seq![eos_id],
{
    SamplingParams {
        temperature_bits: match temperature_bits {
            Some(t) => t,
            None => DEFAULT_TEMPERATURE_BITS,
        },
        top_p_bits: match top_p_bits {
            Some(p) => p,
            None => DEFAULT_TOP_P_BITS,
        },
        top_k: match top_k {
            Some(k) => k,
            None => 50,
        },
        max_new_tokens: match max_tokens {
            Some(m) => m,
            None => 2048,
        },
        repetition_penalty_bits: CHAT_REPETITION_PENALTY_BITS,
        stop_tokens: vec![eos_id],
    }
}

/// Why a completion ended, as the chat API reports it.
#[derive(Debug, Clone, Copy, PartialEq, Eq, Structural)]
pub enum FinishReason {
    /// A stop token was generated.
    Stop,
    /// The token limit was reached.
    Length,
}

impl FinishReason {
    /// The API's name for the reason.
    pub fn as_str(&self) -> (r: &'static str)
        ensures
            r@ == (match *self {
                FinishReason::Stop => "stop"@,
                FinishReason::Length => "length"@,
            }),
    {
        match self {
            FinishReason::Stop => "stop",
            FinishReason::Length => "length",
        }
    }
}

/// Why a request that generated `output` ended: `stop` when its last token
/// is one of `stop_tokens`, else `length` once `max_new_tokens` tokens were
/// generated, else `stop`.
pub fn finish_reason_of(output: &[u32], stop_tokens: &[u32], max_new_tokens: u32) -> (r: FinishReason)
    ensures
        r == (if output@.len() > 0 && stop_tokens@.contains(output@.last()) {
            FinishReason::Stop
        } else if output@.len() >= max_new_tokens {
            FinishReason::Length
        } else {
            FinishReason::Stop
        }),
{
    if output.len() > 0 {
        let last = output[output.len() - 1];
        let mut i: usize = 0;
        while i < stop_tokens.len()
            invariant
                i <= stop_tokens@.len(),
                output@.len() > 0,
                last == output@.last(),
                forall|j: int| 0 <= j < i ==> stop_tokens@[j] != last,
            decreases stop_tokens@.len() - i,
        {
            if stop_tokens[i] == last {
                proof {
                    assert(stop_tokens@[i as int] == output@.last());
                    assert(stop_tokens@.contains(output@.last()));
                }
                return FinishReason::Stop;
            }
            i = i + 1;
        }
    }
    if output.len() as u64 >= max_new_tokens as u64 {
        FinishReason::Length
    } else {
        FinishReason::Stop
    }
}

} // verus!

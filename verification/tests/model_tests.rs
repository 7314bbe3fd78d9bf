use std::sync::Arc;

use llama_rs::config::{default_max_tokens, CommonArgs, ModelConfig};
use llama_rs::context::{embed_token, InferenceContext};
use llama_rs::gguf_header::ElementBits;
use llama_rs::gguf_reader::GgufReader;
use llama_rs::gguf_types::GgufError;
use llama_rs::interner::InternedStrings;
use llama_rs::kv_cache::KvCache;
use llama_rs::model::Model;

fn reader_over(bytes: &[u8]) -> GgufReader {
    let mut map = memmap2::MmapMut::map_anon(bytes.len().max(1)).unwrap();
    map[..bytes.len()].copy_from_slice(bytes);
    GgufReader::from_mmap(map.make_read_only().unwrap()).unwrap()
}

fn put_string(data: &mut Vec<u8>, s: &str) {
    data.extend_from_slice(&(s.len() as u64).to_le_bytes());
    data.extend_from_slice(s.as_bytes());
}

fn put_kv_u32(data: &mut Vec<u8>, key: &str, v: u32) {
    put_string(data, key);
    data.extend_from_slice(&4i32.to_le_bytes());
    data.extend_from_slice(&v.to_le_bytes());
}

fn put_kv_str(data: &mut Vec<u8>, key: &str, v: &str) {
    put_string(data, key);
    data.extend_from_slice(&8i32.to_le_bytes());
    put_string(data, v);
}

fn put_tensor_info(data: &mut Vec<u8>, name: &str, shape: &[i64], dtype: i32) {
    put_string(data, name);
    data.extend_from_slice(&(shape.len() as u32).to_le_bytes());
    for &d in shape {
        data.extend_from_slice(&d.to_le_bytes());
    }
    data.extend_from_slice(&dtype.to_le_bytes());
    data.extend_from_slice(&0u64.to_le_bytes());
}

fn put_floats(data: &mut Vec<u8>, values: &[f32]) {
    for v in values {
        data.extend_from_slice(&v.to_le_bytes());
    }
}

/// A small model file with one transformer block, built in memory.
fn dummy_model_bytes() -> Vec<u8> {
    let mut data = Vec::new();
    data.extend_from_slice(&0x4655_4747u32.to_le_bytes());
    data.extend_from_slice(&3u32.to_le_bytes());
    data.extend_from_slice(&7i64.to_le_bytes());
    data.extend_from_slice(&10i64.to_le_bytes());
    put_kv_str(&mut data, "general.version", "1.0");
    put_kv_u32(&mut data, "general.vocab_size", 4);
    put_kv_u32(&mut data, "general.embedding_length", 8);
    put_kv_u32(&mut data, "general.attention_head_count", 1);
    put_kv_u32(&mut data, "general.attention_head_count_kv", 1);
    put_kv_u32(&mut data, "general.attention_head_dim", 8);
    put_kv_u32(&mut data, "general.context_length", 512);
    put_kv_u32(&mut data, "llama.feed_forward_length", 16);
    put_kv_str(&mut data, "general.architecture", "llama");
    put_kv_u32(&mut data, "general.alignment", 32);
    put_tensor_info(&mut data, "token_embd.weight", &[8, 4], 0);
    put_tensor_info(&mut data, "output.weight", &[4, 8], 0);
    put_tensor_info(&mut data, "output_norm.weight", &[8], 0);
    put_tensor_info(&mut data, "blk.0.attn_norm.weight", &[8], 0);
    put_tensor_info(&mut data, "blk.0.ffn_norm.weight", &[8], 0);
    put_tensor_info(&mut data, "blk.0.ffn_gate.weight", &[16, 8], 0);
    put_tensor_info(&mut data, "blk.0.ffn_up.weight", &[16, 8], 0);
    put_tensor_info(&mut data, "blk.0.ffn_down.weight", &[8, 16], 0);
    while data.len() % 32 != 0 {
        data.push(0);
    }
    let mut rng = fastrand::Rng::with_seed(42);
    let embd: Vec<f32> = (0..32).map(|_| rng.f32()).collect();
    put_floats(&mut data, &embd);
    let out: Vec<f32> = (0..32).map(|_| rng.f32()).collect();
    put_floats(&mut data, &out);
    let norm: Vec<f32> = (0..8).map(|_| 1.0).collect();
    put_floats(&mut data, &norm);
    put_floats(&mut data, &norm);
    put_floats(&mut data, &norm);
    for _ in 0..3 {
        let m: Vec<f32> = (0..128).map(|_| rng.f32()).collect();
        put_floats(&mut data, &m);
    }
    data
}

#[test]
fn test_load_dummy_model() {
    let reader = reader_over(&dummy_model_bytes());
    let model = Model::from_reader(&reader).expect("Failed to load test model");
    assert_eq!(model.n_embd, 8);
    assert_eq!(model.n_head, 1);
    assert_eq!(model.n_head_kv, 1);
    assert_eq!(model.d_head, 8);
    assert_eq!(model.max_seq_len, 512);
    assert_eq!(model.vocab_size, 4);
    assert_eq!(model.n_ff, 16);
    assert_eq!(model.n_layers(), 1);
}

#[test]
fn loaded_model_has_defaults_for_tokenizer_data() {
    let reader = reader_over(&dummy_model_bytes());
    let model = Model::from_reader(&reader).unwrap();
    assert_eq!(model.vocab_tokens, vec!["<token0>", "<token1>", "<token2>", "<token3>"]);
    assert_eq!(model.bos_token_id, 1);
    assert_eq!(model.eos_token_id, 2);
    assert_eq!(model.unk_token_id, 0);
    assert!(model.add_bos_token);
    assert_eq!(model.tensors.len(), 7);
    assert_eq!(model.kv_cache.keys.len(), 512 * 8);
    assert_eq!(model.kv_cache.cur_len, 0);
    assert!(model.kv_cache.values.iter().all(|&v| v == 0));
    assert_eq!(model.summary(), "Model: embd=8, heads=1, kv_heads=1, d_head=8, seq_len=512");
}

#[test]
fn loaded_tensors_are_found_by_name() {
    let bytes = dummy_model_bytes();
    let reader = reader_over(&bytes);
    let model = Model::from_reader(&reader).unwrap();
    assert_eq!(model.get_tensor_shape("blk.0.ffn_gate.weight"), Some(vec![16, 8]));
    assert_eq!(model.get_tensor_shape("blk.0.ffn_down.weight"), None);
    assert_eq!(model.interned.get(0), Some("token_embd.weight"));
    assert_eq!(model.interned.position("output.weight"), Some(1));
    let start = reader.data_offset();
    match model.get_tensor("output_norm.weight").unwrap() {
        ElementBits::F32(w) => {
            assert_eq!(w.len(), 8);
            let first = u32::from_le_bytes([bytes[start], bytes[start + 1], bytes[start + 2], bytes[start + 3]]);
            assert_eq!(w[0], first);
        },
        _ => panic!("expected f32 data"),
    }
    match model.get_tensor("nope") {
        Err(GgufError::DecodeError(msg)) => assert_eq!(msg, "Tensor not found: nope"),
        _ => panic!("expected DecodeError"),
    }
}

#[test]
fn missing_hyperparameter_fails_loading() {
    let mut data = Vec::new();
    data.extend_from_slice(&0x4655_4747u32.to_le_bytes());
    data.extend_from_slice(&3u32.to_le_bytes());
    data.extend_from_slice(&0i64.to_le_bytes());
    data.extend_from_slice(&1i64.to_le_bytes());
    put_kv_u32(&mut data, "llama.embedding_length", 8);
    let reader = reader_over(&data);
    assert!(matches!(Model::from_reader(&reader), Err(GgufError::DecodeError(_))));
}

#[test]
fn feed_forward_length_defaults_to_four_embeddings_and_vocab_is_read() {
    let mut data = Vec::new();
    data.extend_from_slice(&0x4655_4747u32.to_le_bytes());
    data.extend_from_slice(&3u32.to_le_bytes());
    data.extend_from_slice(&0i64.to_le_bytes());
    data.extend_from_slice(&10i64.to_le_bytes());
    put_kv_u32(&mut data, "llama.embedding_length", 6);
    put_kv_u32(&mut data, "llama.attention.head_count", 2);
    put_kv_u32(&mut data, "llama.attention.head_count_kv", 2);
    put_kv_u32(&mut data, "llama.rope.dimension_count", 3);
    put_kv_u32(&mut data, "llama.context_length", 4);
    put_kv_u32(&mut data, "llama.vocab_size", 2);
    put_string(&mut data, "tokenizer.ggml.tokens");
    data.extend_from_slice(&9i32.to_le_bytes());
    data.extend_from_slice(&8i32.to_le_bytes());
    data.extend_from_slice(&2u64.to_le_bytes());
    put_string(&mut data, "hi");
    put_string(&mut data, "yo");
    put_string(&mut data, "tokenizer.ggml.add_bos_token");
    data.extend_from_slice(&7i32.to_le_bytes());
    data.push(0);
    put_kv_u32(&mut data, "tokenizer.ggml.eos_token_id", 1);
    put_kv_u32(&mut data, "tokenizer.ggml.unknown_token_id", 1);
    let reader = reader_over(&data);
    let model = Model::from_reader(&reader).unwrap();
    assert_eq!(model.n_ff, 24);
    assert_eq!(model.vocab_tokens, vec!["hi", "yo"]);
    assert!(!model.add_bos_token);
    assert_eq!(model.bos_token_id, 1);
    assert_eq!(model.eos_token_id, 1);
    assert_eq!(model.unk_token_id, 1);
    assert_eq!(model.n_layers(), 0);
    assert_eq!(model.kv_cache.keys.len(), 24);

    let ctx = InferenceContext::new(Arc::new(model), ModelConfig::default());
    assert_eq!(ctx.encode("hiyo"), vec![0, 1]);
    assert_eq!(ctx.encode("hix"), vec![0, 1]);
    assert_eq!(ctx.decode(&[1, 0]), "yohi");
    assert_eq!(ctx.decode_from_id(0), "hi");
}

#[test]
fn generation_truncates_to_context_and_stops_at_eos() {
    let reader = reader_over(&dummy_model_bytes());
    let model = Arc::new(Model::from_reader(&reader).unwrap());
    let config = ModelConfig { n_threads: 1, use_cuda: false, n_ctx: 1, n_batch: 1 };
    let ctx = InferenceContext::new(model, config);
    let mut g = ctx.start_generation("<token2><token3>", 3);
    assert_eq!(g.tokens(), &[1]);
    assert!(!g.is_finished());
    assert_eq!(g.next_input(), 1);
    g.record(Some(3));
    assert_eq!(g.next_input(), 3);
    g.record(None);
    assert_eq!(g.next_input(), 0);
    assert!(!g.is_finished());
    g.record(Some(2));
    assert!(g.is_finished());
    assert_eq!(g.into_tokens(), vec![1, 3, 0, 2]);
}

#[test]
fn generation_ends_after_the_predictions() {
    let reader = reader_over(&dummy_model_bytes());
    let model = Arc::new(Model::from_reader(&reader).unwrap());
    let ctx = InferenceContext::new(model, ModelConfig::default());
    let mut g = ctx.start_generation("", 2);
    g.record(Some(3));
    assert!(!g.is_finished());
    g.record(Some(3));
    assert!(g.is_finished());
    assert_eq!(g.tokens(), &[1, 3, 3]);
}

#[test]
fn embed_token_takes_one_row() {
    let m: Vec<u32> = (0..12).collect();
    assert_eq!(embed_token(1, &m, 4).unwrap(), vec![4, 5, 6, 7]);
    assert_eq!(embed_token(2, &m, 4).unwrap(), vec![8, 9, 10, 11]);
    match embed_token(3, &m, 4) {
        Err(GgufError::DecodeError(msg)) => assert_eq!(msg, "Token ID 3 out of range for embedding matrix"),
        _ => panic!("expected DecodeError"),
    }
    assert!(embed_token(usize::MAX, &m, 2).is_err());
}

#[test]
fn interner_gives_stable_ids() {
    let mut i = InternedStrings::default();
    assert_eq!(i.intern("a"), 0);
    assert_eq!(i.intern("b"), 1);
    assert_eq!(i.intern("a"), 0);
    assert_eq!(i.get(1), Some("b"));
    assert_eq!(i.get(2), None);
    assert_eq!(i.position("c"), None);
}

#[test]
fn kv_cache_push_then_get() {
    let mut c: KvCache<u32> = KvCache::new(3, 2, 2, 0);
    c.push(&[1, 2, 3, 4], &[5, 6, 7, 8]);
    c.push(&[9, 10, 11, 12], &[13, 14, 15, 16]);
    assert_eq!(c.cur_len, 2);
    let (k, v) = c.get(1, 1);
    assert_eq!(k, &[11, 12]);
    assert_eq!(v, &[15, 16]);
    let keys = c.get_head_keys(0, 2);
    assert_eq!(keys, vec![&[1u32, 2][..], &[9u32, 10][..]]);
    let values = c.get_head_values(1, 2);
    assert_eq!(values, vec![&[7u32, 8][..], &[15u32, 16][..]]);
}

#[test]
fn server_and_cli_defaults() {
    assert_eq!(default_max_tokens(), 128);
    let args = CommonArgs { model: "m.gguf".to_string(), threads: 0, ctx_size: 512, batch_size: 512, use_cuda: false };
    assert_eq!(args.ctx_size, 512);
}

#[test]
fn a_later_tensor_of_the_same_name_replaces_an_earlier_one() {
    let mut data = Vec::new();
    data.extend_from_slice(&0x4655_4747u32.to_le_bytes());
    data.extend_from_slice(&3u32.to_le_bytes());
    data.extend_from_slice(&2i64.to_le_bytes());
    data.extend_from_slice(&6i64.to_le_bytes());
    put_kv_u32(&mut data, "general.embedding_length", 2);
    put_kv_u32(&mut data, "general.attention_head_count", 1);
    put_kv_u32(&mut data, "general.attention_head_count_kv", 1);
    put_kv_u32(&mut data, "general.attention_head_dim", 2);
    put_kv_u32(&mut data, "general.context_length", 2);
    put_kv_u32(&mut data, "general.vocab_size", 2);
    put_string(&mut data, "w");
    data.extend_from_slice(&1u32.to_le_bytes());
    data.extend_from_slice(&1i64.to_le_bytes());
    data.extend_from_slice(&0i32.to_le_bytes());
    data.extend_from_slice(&0u64.to_le_bytes());
    put_string(&mut data, "w");
    data.extend_from_slice(&1u32.to_le_bytes());
    data.extend_from_slice(&2i64.to_le_bytes());
    data.extend_from_slice(&0i32.to_le_bytes());
    data.extend_from_slice(&4u64.to_le_bytes());
    while data.len() % 32 != 0 {
        data.push(0);
    }
    put_floats(&mut data, &[1.0, 2.0, 3.0]);
    let reader = reader_over(&data);
    let model = Model::from_reader(&reader).unwrap();
    assert_eq!(model.tensors.len(), 1);
    assert_eq!(model.get_tensor_shape("w"), Some(vec![2]));
    match model.get_tensor("w").unwrap() {
        ElementBits::F32(w) => assert_eq!(w, vec![2.0f32.to_bits(), 3.0f32.to_bits()]),
        _ => panic!("expected f32 data"),
    }
}

use llama_rs::config::ModelConfig;
use llama_rs::tokenizer::SimpleTokenizer;

#[test]
fn test_encode_decode() {
    let tokenizer = SimpleTokenizer::new();
    let text = "Hello, World!";
    let tokens = tokenizer.encode(text);
    let decoded = tokenizer.decode(&tokens);
    assert_eq!(decoded, text);
}

#[test]
fn test_vocab_size() {
    let tokenizer = SimpleTokenizer::new();
    assert!(tokenizer.vocab_size() > 0);
}

#[test]
fn test_unknown_char() {
    let tokenizer = SimpleTokenizer::new();
    let tokens = tokenizer.encode("Hello\u{1F600}World");
    assert!(tokens.contains(&0));
}

#[test]
fn test_from_gguf_vocab() {
    let tokens: Vec<String> = (0..100).map(|i| format!("token{}", i)).collect();
    let tokenizer = SimpleTokenizer::from_gguf_vocab(tokens, 1, 2, 0, true);
    assert_eq!(tokenizer.vocab_size(), 100);
    assert_eq!(tokenizer.bos_token_id, 1);
    assert_eq!(tokenizer.eos_token_id, 2);
    assert!(tokenizer.add_bos_token);
    let tokens = tokenizer.encode("token5");
    assert!(!tokens.is_empty());
}

#[test]
fn test_inference_context_encode_decode() {
    let tokenizer = SimpleTokenizer::new();
    let text = "Hello, World!";
    let tokens = tokenizer.encode(text);
    let decoded = tokenizer.decode(&tokens);
    assert_eq!(decoded, text);
}

#[test]
fn test_model_config_default() {
    let config = ModelConfig::default();
    assert_eq!(config.n_threads, 4);
    assert_eq!(config.n_ctx, 2048);
    assert_eq!(config.n_batch, 512);
    assert!(!config.use_cuda);
}

#[test]
fn basic_vocabulary_ids() {
    let t = SimpleTokenizer::new();
    assert_eq!(t.vocab_size(), 98);
    assert_eq!(t.encode("A"), vec![34]);
    assert_eq!(t.encode(" "), vec![1]);
    assert_eq!(t.decode(&[96, 34, 97, 0, 500]), "A");
    assert!(t.encode("").is_empty());
}

#[test]
fn greedy_longest_match_and_bos() {
    let tokens: Vec<String> = vec!["<unk>".into(), "a".into(), "ab".into(), "abc".into(), "b".into(), "<s>".into()];
    let t = SimpleTokenizer::from_gguf_vocab(tokens, 5, 6, 0, true);
    assert_eq!(t.encode("abcab"), vec![5, 3, 2]);
    assert_eq!(t.encode("ba"), vec![5, 4, 1]);
    assert_eq!(t.encode("x"), vec![5, 0]);
    assert_eq!(t.decode(&[5, 3, 2]), "abcab");
}

#[test]
fn vocab_size_counts_distinct_texts_and_last_duplicate_wins() {
    let tokens: Vec<String> = vec!["x".into(), "y".into(), "x".into()];
    let t = SimpleTokenizer::from_gguf_vocab(tokens, 0, 0, 1, false);
    assert_eq!(t.vocab_size(), 2);
    assert_eq!(t.encode("x"), vec![2]);
}

#[test]
fn default_tokenizer_is_the_basic_one() {
    let t = SimpleTokenizer::default();
    assert_eq!(t.vocab_size(), 98);
    assert!(!t.add_bos_token);
}

#[test]
fn roundtrip_of_printable_ascii() {
    let t = SimpleTokenizer::new();
    let text = "The quick brown fox, 42 ~ {braces} [x] | ok?";
    assert_eq!(t.decode(&t.encode(text)), text);
}

#[test]
fn encoding_has_at_most_one_id_per_byte_plus_bos() {
    let tokens: Vec<String> = vec!["<unk>".into(), "ab".into(), "<s>".into()];
    let t = SimpleTokenizer::from_gguf_vocab(tokens, 2, 2, 0, true);
    let text = "abxab\u{e9}";
    let ids = t.encode(text);
    assert!(ids.len() <= 1 + text.len());
    assert_eq!(ids, vec![2, 1, 0, 1, 0, 0]);
}

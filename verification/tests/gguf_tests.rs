use llama_rs::cursor::CursorReader;
use llama_rs::gguf_header::{ElementBits, TensorInfo};
use llama_rs::gguf_reader::{GgufHeader, GgufReader};
use llama_rs::gguf_types::{align_up, GgmlType, GgufError, GgufType, GGUF_MAGIC, GGUF_VERSION};
use llama_rs::gguf_value::GgufValue;

fn reader_over(bytes: &[u8]) -> Result<GgufReader, GgufError> {
    let mut map = memmap2::MmapMut::map_anon(bytes.len().max(1)).unwrap();
    map[..bytes.len()].copy_from_slice(bytes);
    let map = map.make_read_only().unwrap();
    GgufReader::from_mmap(map)
}

fn put_string(data: &mut Vec<u8>, s: &str) {
    data.extend_from_slice(&(s.len() as u64).to_le_bytes());
    data.extend_from_slice(s.as_bytes());
}

fn put_header(data: &mut Vec<u8>, tensors: i64, kvs: i64) {
    data.extend_from_slice(&GGUF_MAGIC.to_le_bytes());
    data.extend_from_slice(&GGUF_VERSION.to_le_bytes());
    data.extend_from_slice(&tensors.to_le_bytes());
    data.extend_from_slice(&kvs.to_le_bytes());
}

fn put_kv_u32(data: &mut Vec<u8>, key: &str, v: u32) {
    put_string(data, key);
    data.extend_from_slice(&(GgufType::Uint32 as i32).to_le_bytes());
    data.extend_from_slice(&v.to_le_bytes());
}

fn put_kv_string(data: &mut Vec<u8>, key: &str, v: &str) {
    put_string(data, key);
    data.extend_from_slice(&(GgufType::String as i32).to_le_bytes());
    put_string(data, v);
}

fn put_tensor_info(data: &mut Vec<u8>, name: &str, shape: &[i64], dtype: i32, offset: u64) {
    put_string(data, name);
    data.extend_from_slice(&(shape.len() as u32).to_le_bytes());
    for d in shape {
        data.extend_from_slice(&d.to_le_bytes());
    }
    data.extend_from_slice(&dtype.to_le_bytes());
    data.extend_from_slice(&offset.to_le_bytes());
}

fn pad_to(data: &mut Vec<u8>, alignment: usize) {
    while data.len() % alignment != 0 {
        data.push(0);
    }
}

#[test]
fn gguf_magic_constant_should_be_correct() {
    assert_eq!(GGUF_MAGIC, 0x46554747);
    assert_eq!(core::str::from_utf8(&GGUF_MAGIC.to_le_bytes()).unwrap(), "GGUF");
}

#[test]
fn gguf_version_should_be_three() {
    assert_eq!(GGUF_VERSION, 3);
}

#[test]
fn gguf_type_size_should_be_correct() {
    assert_eq!(GgufType::Uint8.size_of(), 1);
    assert_eq!(GgufType::Float32.size_of(), 4);
    assert_eq!(GgufType::Float64.size_of(), 8);
    assert_eq!(GgufType::String.size_of(), 0);
    assert_eq!(GgufType::Array.size_of(), 0);
}

#[test]
fn gguf_type_from_i32_should_be_correct() {
    assert_eq!(GgufType::from_i32(0).unwrap(), GgufType::Uint8);
    assert_eq!(GgufType::from_i32(6).unwrap(), GgufType::Float32);
    assert_eq!(GgufType::from_i32(9).unwrap(), GgufType::Array);
    assert_eq!(GgufType::from_i32(12).unwrap(), GgufType::Float64);
    assert!(GgufType::from_i32(13).is_err());
}

#[test]
fn ggml_type_from_i32_should_be_correct() {
    assert_eq!(GgmlType::from_i32(0).unwrap(), GgmlType::F32);
    assert_eq!(GgmlType::from_i32(1).unwrap(), GgmlType::F16);
    assert_eq!(GgmlType::from_i32(2).unwrap(), GgmlType::Q4_0);
    assert_eq!(GgmlType::from_i32(30).unwrap(), GgmlType::Bf16);
    assert!(GgmlType::from_i32(31).is_err());
}

#[test]
fn align_up_should_round_correctly() {
    assert_eq!(align_up(0, 32), 0);
    assert_eq!(align_up(1, 32), 32);
    assert_eq!(align_up(32, 32), 32);
    assert_eq!(align_up(33, 32), 64);
    assert_eq!(align_up(63, 32), 64);
    assert_eq!(align_up(64, 32), 64);
}

#[test]
fn from_mmap_should_reject_invalid_magic() {
    let data = [0u8; 16];
    let mut reader = CursorReader::new(&data);
    let magic = reader.read_u32().unwrap();
    assert_ne!(magic, GGUF_MAGIC);
    assert!(matches!(reader_over(&data), Err(GgufError::InvalidMagic)));
}

#[test]
fn cursor_reader_should_read_little_endian() {
    let data = [0x01, 0x00, 0x00, 0x00];
    let mut reader = CursorReader::new(&data);
    assert_eq!(reader.read_u32().unwrap(), 1);
}

#[test]
fn cursor_reader_should_read_string() {
    let data: Vec<u8> = [
        0x05, 0x00, 0x00, 0x00, 0x00, 0x00, 0x00, 0x00, b'h', b'e', b'l', b'l', b'o',
    ]
    .to_vec();
    let mut reader = CursorReader::new(&data);
    assert_eq!(reader.read_string().unwrap(), "hello");
}

#[test]
fn should_parse_minimal_gguf_file() {
    let mut data = Vec::new();
    put_header(&mut data, 0, 0);
    let mut reader = CursorReader::new(&data);
    assert_eq!(reader.read_u32().unwrap(), GGUF_MAGIC);
    assert_eq!(reader.read_u32().unwrap(), GGUF_VERSION);
    assert_eq!(reader.read_i64().unwrap(), 0);
    assert_eq!(reader.read_i64().unwrap(), 0);
}

#[test]
fn should_parse_gguf_with_kv_pair() {
    let mut data = Vec::new();
    put_header(&mut data, 0, 1);
    put_kv_string(&mut data, "general.architecture", "llama");

    let mut reader = CursorReader::new(&data);
    assert_eq!(reader.read_u32().unwrap(), GGUF_MAGIC);
    assert_eq!(reader.read_u32().unwrap(), GGUF_VERSION);
    assert_eq!(reader.read_i64().unwrap(), 0);
    assert_eq!(reader.read_i64().unwrap(), 1);
    let gguf_key = reader.read_string().unwrap();
    assert_eq!(gguf_key, "general.architecture");
    let type_raw = reader.read_i32().unwrap();
    assert_eq!(GgufType::from_i32(type_raw).unwrap(), GgufType::String);
    let gguf_val = reader.read_string().unwrap();
    assert_eq!(gguf_val, "llama");
}

#[test]
fn should_parse_gguf_with_tensor_info() {
    let mut data = Vec::new();
    put_header(&mut data, 1, 0);
    put_tensor_info(&mut data, "output.weight", &[256, 4096], GgmlType::F32 as i32, 0);

    let mut reader = CursorReader::new(&data);
    assert_eq!(reader.read_u32().unwrap(), GGUF_MAGIC);
    assert_eq!(reader.read_u32().unwrap(), GGUF_VERSION);
    assert_eq!(reader.read_i64().unwrap(), 1);
    assert_eq!(reader.read_i64().unwrap(), 0);
    let t_name = reader.read_string().unwrap();
    assert_eq!(t_name, "output.weight");
    let n_dims = reader.read_u32().unwrap();
    assert_eq!(n_dims, 2);
    assert_eq!(reader.read_i64().unwrap(), 256);
    assert_eq!(reader.read_i64().unwrap(), 4096);
    let dtype_raw = reader.read_i32().unwrap();
    assert_eq!(GgmlType::from_i32(dtype_raw).unwrap(), GgmlType::F32);
    let offset = reader.read_u64().unwrap();
    assert_eq!(offset, 0);
}

fn realistic_llama_bytes() -> Vec<u8> {
    let mut data = Vec::new();
    put_header(&mut data, 2, 5);
    put_kv_string(&mut data, "general.architecture", "llama");
    put_kv_u32(&mut data, "llama.embedding_length", 256);
    put_kv_u32(&mut data, "llama.attention.head_count", 8);
    put_kv_u32(&mut data, "llama.block_count", 4);
    put_string(&mut data, "llama.attention.layer_norm_rms_epsilon");
    data.extend_from_slice(&(GgufType::Float32 as i32).to_le_bytes());
    data.extend_from_slice(&1e-5f32.to_le_bytes());
    put_tensor_info(&mut data, "token_embd.weight", &[256, 4096], GgmlType::F32 as i32, 0);
    let t1_size = 256 * 4096 * 4;
    let t1_aligned = (t1_size + 31) & !31;
    put_tensor_info(&mut data, "output.weight", &[256, 4096], GgmlType::F16 as i32, t1_aligned as u64);
    pad_to(&mut data, 32);
    data.resize(data.len() + t1_size, 0);
    data.resize(data.len() + 256 * 4096 * 2, 0);
    data
}

#[test]
fn should_parse_realistic_llama_gguf() {
    let data = realistic_llama_bytes();
    let reader = reader_over(&data).unwrap();

    assert_eq!(reader.tensor_count(), 2);
    assert_eq!(reader.metadata_count(), 5);

    let arch = reader.get_kv("general.architecture").unwrap();
    if let GgufValue::Str(s) = arch {
        assert_eq!(s, "llama");
    } else {
        panic!("expected string");
    }

    let embd = reader.get_kv("llama.embedding_length").unwrap();
    if let GgufValue::U32(v) = embd {
        assert_eq!(*v, 256);
    } else {
        panic!("expected u32");
    }

    let t1 = reader.find_tensor("token_embd.weight").unwrap();
    assert_eq!(t1.shape, vec![256, 4096]);
    assert_eq!(t1.dtype, GgmlType::F32);

    let t2 = reader.find_tensor("output.weight").unwrap();
    assert_eq!(t2.shape, vec![256, 4096]);
    assert_eq!(t2.dtype, GgmlType::F16);
}

#[test]
fn header_parse_finds_data_offset_and_alignment() {
    let data = realistic_llama_bytes();
    let header = GgufHeader::parse(&data).unwrap();
    let reader = reader_over(&data).unwrap();
    assert_eq!(reader.alignment(), 32);
    assert_eq!(reader.data_offset() % 32, 0);
    assert_eq!(reader.version(), 3);
    assert_eq!(reader.tensors().len(), 2);
    assert_eq!(reader.kv_pairs().len(), 5);
    assert_eq!(reader.raw_data().len(), data.len());
    drop(header);
    let raw = reader.read_tensor_data(reader.find_tensor("output.weight").unwrap()).unwrap();
    assert_eq!(raw.len(), 256 * 4096 * 2);
}

#[test]
fn custom_alignment_is_honoured() {
    let mut data = Vec::new();
    put_header(&mut data, 0, 1);
    put_kv_u32(&mut data, "general.alignment", 64);
    let end = data.len();
    let reader = reader_over(&data).unwrap();
    assert_eq!(reader.alignment(), 64);
    assert_eq!(reader.data_offset(), (end + 63) / 64 * 64);
}

#[test]
fn zero_alignment_is_a_decode_error() {
    let mut data = Vec::new();
    put_header(&mut data, 0, 1);
    put_kv_u32(&mut data, "general.alignment", 0);
    assert!(matches!(reader_over(&data), Err(GgufError::DecodeError(_))));
}

#[test]
fn unsupported_version_is_reported() {
    let mut data = Vec::new();
    data.extend_from_slice(&GGUF_MAGIC.to_le_bytes());
    data.extend_from_slice(&2u32.to_le_bytes());
    data.extend_from_slice(&0i64.to_le_bytes());
    data.extend_from_slice(&0i64.to_le_bytes());
    assert!(matches!(GgufHeader::parse(&data), Err(GgufError::UnsupportedVersion(2))));
}

#[test]
fn truncated_header_is_unexpected_eof() {
    let mut data = Vec::new();
    put_header(&mut data, 0, 1);
    put_string(&mut data, "general.name");
    assert!(matches!(GgufHeader::parse(&data), Err(GgufError::UnexpectedEof)));
    let mut r = CursorReader::new(&[1u8, 2]);
    assert!(matches!(r.read_u32(), Err(GgufError::UnexpectedEof)));
    assert_eq!(r.position(), 0);
    assert!(r.ensure(2).is_ok());
    assert!(r.ensure(3).is_err());
}

#[test]
fn unknown_value_type_is_a_decode_error() {
    let mut data = Vec::new();
    put_header(&mut data, 0, 1);
    put_string(&mut data, "weird");
    data.extend_from_slice(&77i32.to_le_bytes());
    match GgufHeader::parse(&data) {
        Err(GgufError::DecodeError(msg)) => assert_eq!(msg, "unknown gguf_type: 77"),
        other => panic!("unexpected: {:?}", other.is_ok()),
    }
}

#[test]
fn invalid_utf8_string_is_a_decode_error() {
    let data: Vec<u8> = vec![2, 0, 0, 0, 0, 0, 0, 0, 0xff, 0xfe];
    let mut r = CursorReader::new(&data);
    assert!(matches!(r.read_string(), Err(GgufError::DecodeError(_))));
}

#[test]
fn cursor_reads_signed_and_wide_values() {
    let mut data = Vec::new();
    data.push(0xffu8);
    data.extend_from_slice(&(-2i16).to_le_bytes());
    data.extend_from_slice(&0xBEEFu16.to_le_bytes());
    data.extend_from_slice(&(-3i32).to_le_bytes());
    data.extend_from_slice(&(-4i64).to_le_bytes());
    data.extend_from_slice(&0x0102030405060708u64.to_le_bytes());
    data.extend_from_slice(&1.5f32.to_le_bytes());
    data.extend_from_slice(&2.25f64.to_le_bytes());
    let mut r = CursorReader::new(&data);
    assert_eq!(r.read_i8().unwrap(), -1);
    assert_eq!(r.read_i16().unwrap(), -2);
    assert_eq!(r.read_u16().unwrap(), 0xBEEF);
    assert_eq!(r.read_i32().unwrap(), -3);
    assert_eq!(r.read_i64().unwrap(), -4);
    assert_eq!(r.read_u64().unwrap(), 0x0102030405060708);
    assert_eq!(f32::from_bits(r.read_f32().unwrap()), 1.5);
    assert_eq!(f64::from_bits(r.read_f64().unwrap()), 2.25);
    assert_eq!(r.position(), data.len());
    assert!(r.read_u8().is_err());
}

#[test]
fn read_value_reads_nested_arrays() {
    let mut data = Vec::new();
    data.extend_from_slice(&(GgufType::Int32 as i32).to_le_bytes());
    data.extend_from_slice(&3u64.to_le_bytes());
    for v in [7i32, -8, 9] {
        data.extend_from_slice(&v.to_le_bytes());
    }
    let mut r = CursorReader::new(&data);
    match r.read_value(GgufType::Array).unwrap() {
        GgufValue::Array { elem_type, data } => {
            assert_eq!(elem_type, GgufType::Int32);
            assert_eq!(data.len(), 3);
            assert!(matches!(data[1], GgufValue::I32(-8)));
        },
        _ => panic!("expected an array"),
    }
    let v = GgufValue::Bool(true);
    assert_eq!(v.gguf_type(), GgufType::Bool);
}

#[test]
fn metadata_getters_follow_the_stored_values() {
    let mut data = Vec::new();
    put_header(&mut data, 0, 5);
    put_kv_u32(&mut data, "llama.embedding_length", 4096);
    put_kv_string(&mut data, "general.name", "tiny");
    put_string(&mut data, "tokenizer.ggml.tokens");
    data.extend_from_slice(&(GgufType::Array as i32).to_le_bytes());
    data.extend_from_slice(&(GgufType::String as i32).to_le_bytes());
    data.extend_from_slice(&2u64.to_le_bytes());
    put_string(&mut data, "a");
    put_string(&mut data, "b");
    put_string(&mut data, "scores");
    data.extend_from_slice(&(GgufType::Array as i32).to_le_bytes());
    data.extend_from_slice(&(GgufType::Float32 as i32).to_le_bytes());
    data.extend_from_slice(&1u64.to_le_bytes());
    data.extend_from_slice(&0.5f32.to_le_bytes());
    put_string(&mut data, "ids");
    data.extend_from_slice(&(GgufType::Array as i32).to_le_bytes());
    data.extend_from_slice(&(GgufType::Int32 as i32).to_le_bytes());
    data.extend_from_slice(&2u64.to_le_bytes());
    data.extend_from_slice(&(-1i32).to_le_bytes());
    data.extend_from_slice(&5i32.to_le_bytes());
    let reader = reader_over(&data).unwrap();

    assert_eq!(reader.get_usize("llama.embedding_length").unwrap(), 4096);
    assert!(matches!(reader.get_usize("general.name"), Err(GgufError::DecodeError(_))));
    assert!(matches!(reader.get_usize("missing"), Err(GgufError::DecodeError(_))));
    assert_eq!(reader.get_usize_any(&["general.embedding_length", "llama.embedding_length"]).unwrap(), 4096);
    assert!(reader.get_usize_any(&["x", "y"]).is_err());
    assert_eq!(reader.get_usize_any(&["general.name", "llama.embedding_length"]).unwrap(), 4096);
    assert!(reader.get_usize_any(&["general.name", "x"]).is_err());
    match reader.get_usize("general.name") {
        Err(GgufError::DecodeError(msg)) => assert_eq!(msg, "metadata key 'general.name' has unexpected type: String"),
        _ => panic!("expected DecodeError"),
    }
    match reader.get_i32_array("scores") {
        Err(GgufError::DecodeError(msg)) => assert_eq!(msg, "metadata key 'scores' expected i32 array, got Float32"),
        _ => panic!("expected DecodeError"),
    }
    assert_eq!(reader.get_string("general.name").unwrap(), "tiny");
    assert_eq!(reader.get_string_array("tokenizer.ggml.tokens").unwrap(), vec!["a".to_string(), "b".to_string()]);
    assert!(reader.get_string_array("ids").is_err());
    assert_eq!(reader.get_f32_array("scores").unwrap(), vec![0.5f32.to_bits()]);
    assert_eq!(reader.get_i32_array("ids").unwrap(), vec![-1, 5]);
    let (k, _) = reader.kv_pair(1).unwrap();
    assert_eq!(k, "general.name");
    assert!(matches!(reader.kv_pair(5), Err(GgufError::KvIndexOutOfRange(5, 5))));
    assert!(matches!(reader.tensor_info(0), Err(GgufError::TensorIndexOutOfRange(0, 0))));
}

#[test]
fn tensor_data_out_of_file_is_a_decode_error() {
    let mut data = Vec::new();
    put_header(&mut data, 1, 0);
    put_tensor_info(&mut data, "w", &[4], GgmlType::F32 as i32, 0);
    pad_to(&mut data, 32);
    data.extend_from_slice(&[0u8; 8]);
    let reader = reader_over(&data).unwrap();
    let info = reader.tensor_info(0).unwrap();
    let start = reader.data_offset();
    match reader.load_tensor_raw(info) {
        Err(GgufError::DecodeError(msg)) => {
            assert_eq!(msg, format!("tensor w data extends beyond file (need {}, have {})", start + 16, start + 8))
        },
        _ => panic!("expected DecodeError"),
    }
}

#[test]
fn element_bits_read_little_endian_words() {
    let info = TensorInfo { name: "w".to_string(), n_dims: 1, shape: vec![2], dtype: GgmlType::F32, offset: 0 };
    let raw = [0x00, 0x00, 0x80, 0x3f, 0x00, 0x00, 0x00, 0x40];
    match info.element_bits(&raw).unwrap() {
        ElementBits::F32(w) => assert_eq!(w, vec![1.0f32.to_bits(), 2.0f32.to_bits()]),
        _ => panic!("expected f32 words"),
    }
    assert!(info.element_bits(&raw[..7]).is_err());
    let half = TensorInfo { name: "h".to_string(), n_dims: 1, shape: vec![1], dtype: GgmlType::F16, offset: 0 };
    match half.element_bits(&[0x00, 0x3c]).unwrap() {
        ElementBits::F16(w) => assert_eq!(w, vec![0x3c00]),
        _ => panic!("expected f16 words"),
    }
    let q = TensorInfo { name: "q".to_string(), n_dims: 1, shape: vec![1], dtype: GgmlType::Q4_0, offset: 0 };
    match q.element_bits(&[0, 0]) {
        Err(GgufError::DecodeError(msg)) => assert_eq!(msg, "unsupported dtype for dequantize: Q4_0"),
        _ => panic!("expected DecodeError"),
    }
    assert_eq!(GgmlType::Q4_0.name(), "q4_0");
    assert_eq!(GgufType::Uint32.name(), "u32");
}

#[test]
fn every_announced_tensor_is_described() {
    let data = realistic_llama_bytes();
    let reader = reader_over(&data).unwrap();
    for i in 0..reader.tensor_count() as usize {
        let info = reader.tensor_info(i).unwrap();
        assert_eq!(info.n_dims, 2);
    }
    for i in 0..reader.metadata_count() as usize {
        assert!(reader.kv_pair(i).is_ok());
    }
}

#[test]
fn type_codes_and_names() {
    assert_eq!(GgmlType::Q5_0.code(), 6);
    assert_eq!(GgmlType::Q1_0.code(), 41);
    assert_eq!(GgmlType::from_i32(GgmlType::Tq2_0.code()).unwrap(), GgmlType::Tq2_0);
    assert_eq!(GgufType::Float64.code(), 12);
    assert_eq!(GgmlType::Q4_K.name(), "q4_k");
    assert_eq!(GgmlType::Iq2Xxs.name(), "iq2_xxs");
    assert_eq!(GgmlType::Bf16.name(), "bf16");
    assert_eq!(GgmlType::Iq2Xxs.variant_name(), "Iq2Xxs");
    assert_eq!(GgufType::String.variant_name(), "String");
}

#[test]
fn unsupported_tensor_type_is_reported_by_name() {
    let mut data = Vec::new();
    put_header(&mut data, 1, 0);
    put_tensor_info(&mut data, "q", &[4], GgmlType::Iq2Xs.code(), 0);
    pad_to(&mut data, 32);
    data.extend_from_slice(&[0u8; 64]);
    let reader = reader_over(&data).unwrap();
    let info = reader.tensor_info(0).unwrap();
    match reader.read_tensor_data(info) {
        Err(GgufError::DecodeError(msg)) => assert_eq!(msg, "unsupported quantized dtype for direct read: Iq2Xs"),
        _ => panic!("expected DecodeError"),
    }
}

#[test]
fn short_or_wrong_headers_give_their_errors() {
    assert!(matches!(GgufHeader::parse(&[0x47, 0x47]), Err(GgufError::UnexpectedEof)));
    assert!(matches!(GgufHeader::parse(&GGUF_MAGIC.to_le_bytes()), Err(GgufError::UnexpectedEof)));
    let mut data = Vec::new();
    data.extend_from_slice(&GGUF_MAGIC.to_le_bytes());
    data.extend_from_slice(&GGUF_VERSION.to_le_bytes());
    data.extend_from_slice(&0i64.to_le_bytes());
    assert!(matches!(GgufHeader::parse(&data), Err(GgufError::UnexpectedEof)));
    let mut data = Vec::new();
    put_header(&mut data, 1, 0);
    put_string(&mut data, "t");
    data.extend_from_slice(&0u32.to_le_bytes());
    data.extend_from_slice(&5i32.to_le_bytes());
    data.extend_from_slice(&0u64.to_le_bytes());
    assert!(matches!(GgufHeader::parse(&data), Err(GgufError::DecodeError(_))));
}

#[test]
fn cutting_a_valid_header_gives_the_header_or_unexpected_eof() {
    let mut data = Vec::new();
    put_header(&mut data, 1, 2);
    put_kv_string(&mut data, "general.architecture", "llama");
    put_kv_u32(&mut data, "llama.embedding_length", 8);
    put_tensor_info(&mut data, "w", &[2, 2], GgmlType::F32 as i32, 0);
    let header_end = data.len();
    pad_to(&mut data, 32);
    data.extend_from_slice(&[0u8; 16]);
    for n in 0..=data.len() {
        match GgufHeader::parse(&data[..n]) {
            Ok(_) => assert!(n >= header_end),
            Err(GgufError::UnexpectedEof) => assert!(n < header_end),
            Err(_) => panic!("unexpected failure at {}", n),
        }
    }
}

//! The model: hyper-parameters, tensors and tokenizer data taken from a GGUF
//! file, and what the inference code asks of it.

use std::collections::HashMap;
use vstd::prelude::*;
use vstd::slice::slice_to_vec;

use crate::gguf_header::{ElementBits, TensorInfo, TensorInfoModel, spec_element_bits};
use crate::gguf_reader::{
    GgufReader, is_decode_error, kv_lookup, strings_model, strings_of, tensor_data_range,
    usize_lookup_any,
};
use crate::gguf_types::{GgufError, GgufType};
use crate::gguf_value::{GgufValue, ValueModel};
use crate::interner::{InternedStrings, spec_intern};
use crate::kv_cache::KvCache;
use crate::text::{append_decimal, decimal, owned};

verus! {

/// A tensor of the model: its raw bytes as read from the GGUF file (still
/// quantized), its description and its shape.
#[derive(Debug)]
pub struct TensorData {
    /// Raw bytes as read from the GGUF file (still quantized).
    pub raw: Vec<u8>,
    /// Tensor metadata needed for de-quantization.
    pub info: TensorInfo,
    /// Shape of the tensor, each dimension as a `usize`.
    pub shape: Vec<usize>,
}

/// The model of a tensor of the model.
pub struct TensorDataModel {
    pub raw: Seq<u8>,
    pub info: TensorInfoModel,
    pub shape: Seq<usize>,
}

impl View for TensorData {
    type V = TensorDataModel;

    open spec fn view(&self) -> TensorDataModel {
        TensorDataModel { raw: self.raw@, info: self.info@, shape: self.shape@ }
    }
}

impl TensorData {
    /// The raw elements of the tensor, the integer part of its
    /// de-quantization.
    pub fn get(&self) -> (res: Result<ElementBits, GgufError>)
        ensures
            match spec_element_bits(self.info.dtype, self.raw@) {
                Some(m) => res matches Ok(b) && b@ == m,
                None => res matches Err(GgufError::DecodeError(_)),
            },
    {
        self.info.element_bits(self.raw.as_slice())
    }
}

/// The metadata pairs of a file.
pub type Kvs = Seq<(Seq<char>, ValueModel)>;

/// The `usize` under the first of `keys` that is present with a usable
/// value.
pub open spec fn key_usize(kvs: Kvs, keys: Seq<Seq<char>>) -> Option<usize> {
    usize_lookup_any(kvs, keys)
}

/// The keys of the embedding length.
pub open spec fn embd_keys() -> Seq<Seq<char>> {
    seq!["general.embedding_length"@, "llama.embedding_length"@]
}

/// The keys of the attention head count.
pub open spec fn head_keys() -> Seq<Seq<char>> {
    seq!["general.attention_head_count"@, "llama.attention.head_count"@]
}

/// The keys of the key/value head count.
pub open spec fn head_kv_keys() -> Seq<Seq<char>> {
    seq!["general.attention_head_count_kv"@, "llama.attention.head_count_kv"@]
}

/// The keys of the head dimension.
pub open spec fn head_dim_keys() -> Seq<Seq<char>> {
    seq!["general.attention_head_dim"@, "llama.rope.dimension_count"@]
}

/// The keys of the context length.
pub open spec fn ctx_keys() -> Seq<Seq<char>> {
    seq!["general.context_length"@, "llama.context_length"@]
}

/// The keys of the vocabulary size.
pub open spec fn vocab_keys() -> Seq<Seq<char>> {
    seq!["general.vocab_size"@, "llama.vocab_size"@]
}

/// The keys of the feed-forward length.
pub open spec fn ff_keys() -> Seq<Seq<char>> {
    seq!["llama.feed_forward_length"@, "general.feed_forward_length"@, "llama.intermediate_size"@]
}

/// The keys of the beginning-of-sequence token id.
pub open spec fn bos_keys() -> Seq<Seq<char>> {
    seq!["tokenizer.ggml.bos_token_id"@, "tokenizer.ggml.add_bos_token"@]
}

/// The keys of the end-of-sequence token id.
pub open spec fn eos_keys() -> Seq<Seq<char>> {
    seq!["tokenizer.ggml.eos_token_id"@]
}

/// The keys of the unknown token id.
pub open spec fn unk_keys() -> Seq<Seq<char>> {
    seq!["tokenizer.ggml.unknown_token_id"@]
}

/// Model hyper-parameters extracted from GGUF metadata.
pub struct Hyperparams {
    pub n_embd: usize,
    pub n_head: usize,
    pub n_head_kv: usize,
    pub d_head: usize,
    pub max_seq_len: usize,
    pub vocab_size: usize,
    pub n_ff: usize,
}

/// The feed-forward length: the one found, or four times the embedding
/// length; absent when that exceeds `usize::MAX`.
pub open spec fn spec_n_ff(kvs: Kvs, n_embd: usize) -> Option<usize> {
    match key_usize(kvs, ff_keys()) {
        Some(n) => Some(n),
        None => if n_embd * 4 <= usize::MAX { Some((n_embd * 4) as usize) } else { None },
    }
}

/// The hyper-parameters of a file; absent when one of the required ones is
/// missing or not a `usize`, or the feed-forward length cannot be had.
pub open spec fn spec_hyperparams(kvs: Kvs) -> Option<Hyperparams> {
    let e = key_usize(kvs, embd_keys());
    let h = key_usize(kvs, head_keys());
    let hk = key_usize(kvs, head_kv_keys());
    let d = key_usize(kvs, head_dim_keys());
    let c = key_usize(kvs, ctx_keys());
    let v = key_usize(kvs, vocab_keys());
    if e is Some && h is Some && hk is Some && d is Some && c is Some && v is Some {
        match spec_n_ff(kvs, e.unwrap()) {
            Some(f) => Some(Hyperparams {
                n_embd: e.unwrap(),
                n_head: h.unwrap(),
                n_head_kv: hk.unwrap(),
                d_head: d.unwrap(),
                max_seq_len: c.unwrap(),
                vocab_size: v.unwrap(),
                n_ff: f,
            }),
            None => None,
        }
    } else {
        None
    }
}

/// A `usize` metadata value under the first of two keys that is present.
fn usize_of_keys(reader: &GgufReader, k1: &str, k2: &str) -> (res: Result<usize, GgufError>)
    ensures
        match key_usize(reader.header_model().kvs, seq![k1@, k2@]) {
            Some(n) => res == Ok::<usize, GgufError>(n),
            None => is_decode_error(res),
        },
{
    let keys: Vec<&str> = vec![k1, k2];
    proof {
        assert(keys@.map_values(|k: &str| k@) =~= seq![k1@, k2@]);
    }
    reader.get_usize_any(keys.as_slice())
}

/// A `usize` metadata value under the first of three keys that is present.
fn usize_of_three_keys(reader: &GgufReader, k1: &str, k2: &str, k3: &str) -> (res: Result<usize, GgufError>)
    ensures
        match key_usize(reader.header_model().kvs, seq![k1@, k2@, k3@]) {
            Some(n) => res == Ok::<usize, GgufError>(n),
            None => is_decode_error(res),
        },
{
    let keys: Vec<&str> = vec![k1, k2, k3];
    proof {
        assert(keys@.map_values(|k: &str| k@) =~= seq![k1@, k2@, k3@]);
    }
    reader.get_usize_any(keys.as_slice())
}

/// A `usize` metadata value under one key.
fn usize_of_key(reader: &GgufReader, k1: &str) -> (res: Result<usize, GgufError>)
    ensures
        match key_usize(reader.header_model().kvs, seq![k1@]) {
            Some(n) => res == Ok::<usize, GgufError>(n),
            None => is_decode_error(res),
        },
{
    let keys: Vec<&str> = vec![k1];
    proof {
        assert(keys@.map_values(|k: &str| k@) =~= seq![k1@]);
    }
    reader.get_usize_any(keys.as_slice())
}

/// Reads the hyper-parameters of a file.
fn read_hyperparams(reader: &GgufReader) -> (res: Result<Hyperparams, GgufError>)
    ensures
        match spec_hyperparams(reader.header_model().kvs) {
            Some(h) => res == Ok::<Hyperparams, GgufError>(h),
            None => is_decode_error(res),
        },
{
    let n_embd = usize_of_keys(reader, "general.embedding_length", "llama.embedding_length")?;
    let n_head = usize_of_keys(reader, "general.attention_head_count", "llama.attention.head_count")?;
    let n_head_kv = usize_of_keys(reader, "general.attention_head_count_kv", "llama.attention.head_count_kv")?;
    let d_head = usize_of_keys(reader, "general.attention_head_dim", "llama.rope.dimension_count")?;
    let max_seq_len = usize_of_keys(reader, "general.context_length", "llama.context_length")?;
    let vocab_size = usize_of_keys(reader, "general.vocab_size", "llama.vocab_size")?;
    let n_ff = match usize_of_three_keys(reader, "llama.feed_forward_length", "general.feed_forward_length", "llama.intermediate_size") {
        Ok(n) => n,
        Err(_) => match n_embd.checked_mul(4) {
            Some(n) => n,
            None => {
                return Err(GgufError::DecodeError(owned("feed-forward length overflows")));
            },
        },
    };
    Ok(Hyperparams { n_embd, n_head, n_head_kv, d_head, max_seq_len, vocab_size, n_ff })
}

/// The dimensions of a stored shape, each taken as a `usize`.
pub open spec fn dims_of(shape: Seq<i64>) -> Seq<usize> {
    shape.map_values(|d: i64| d as usize)
}

/// The models of the tensors of a table.
pub open spec fn table_view(m: Map<usize, TensorData>) -> Map<usize, TensorDataModel> {
    m.map_values(|t: TensorData| t@)
}

/// Loading the tensors from the `i`-th description on, into the interned
/// names and the table so far: each tensor's bytes are read from the file,
/// its name interned, and the table maps the name's id to the tensor (a
/// later tensor of the same name replacing an earlier one); absent when the
/// bytes of a tensor cannot be read.
pub open spec fn spec_load_tensors_from(
    bytes: Seq<u8>,
    data_offset: nat,
    ts: Seq<TensorInfoModel>,
    i: int,
    names: Seq<Seq<char>>,
    table: Map<usize, TensorDataModel>,
) -> Option<(Seq<Seq<char>>, Map<usize, TensorDataModel>)>
    decreases ts.len() - i,
{
    if i < 0 || i >= ts.len() {
        Some((names, table))
    } else {
        let t = ts[i];
        match tensor_data_range(data_offset, bytes.len(), t) {
            None => None,
            Some((start, end)) => {
                let (names2, id) = spec_intern(names, t.name);
                let entry = TensorDataModel {
                    raw: bytes.subrange(start as int, end as int),
                    info: t,
                    shape: dims_of(t.shape),
                };
                spec_load_tensors_from(bytes, data_offset, ts, i + 1, names2, table.insert(id as usize, entry))
            },
        }
    }
}

/// Loading all tensors of a file, starting with no names and an empty
/// table.
pub open spec fn spec_load_tensors(bytes: Seq<u8>, data_offset: nat, ts: Seq<TensorInfoModel>) -> Option<
    (Seq<Seq<char>>, Map<usize, TensorDataModel>),
> {
    spec_load_tensors_from(bytes, data_offset, ts, 0, Seq::empty(), Map::empty())
}

/// The dimensions of a stored shape as `usize` values.
fn usize_dims(shape: &Vec<i64>) -> (res: Vec<usize>)
    ensures
        res@ == dims_of(shape@),
{
    let mut out: Vec<usize> = Vec::new();
    let mut i: usize = 0;
    while i < shape.len()
        invariant
            i <= shape@.len(),
            out@ == dims_of(shape@.subrange(0, i as int)),
        decreases shape@.len() - i,
    {
        out.push(shape[i] as usize);
        i = i + 1;
        proof {
            assert(out@ =~= dims_of(shape@.subrange(0, i as int)));
        }
    }
    proof {
        assert(shape@.subrange(0, i as int) =~= shape@);
    }
    out
}

/// Reads the bytes of every tensor of a file, interning the tensor names.
fn load_tensors(reader: &GgufReader) -> (res: Result<(InternedStrings, HashMap<usize, TensorData>), GgufError>)
    ensures
        match spec_load_tensors(reader.bytes(), reader.header_model().data_offset as nat, reader.header_model().tensors) {
            Some((names, table)) => res matches Ok((i, m)) && i.texts() == names && table_view(m@) == table,
            None => is_decode_error(res),
        },
{
    let infos = reader.tensors();
    let ghost bytes = reader.bytes();
    let ghost off = reader.header_model().data_offset as nat;
    let ghost ts = reader.header_model().tensors;
    let mut interned = InternedStrings::new();
    let mut tensors: HashMap<usize, TensorData> = HashMap::new();
    proof {
        assert(table_view(tensors@) =~= Map::<usize, TensorDataModel>::empty());
    }
    let mut i: usize = 0;
    while i < infos.len()
        invariant
            crate::gguf_header::tensors_model(infos@) == ts,
            bytes == reader.bytes(),
            off == reader.header_model().data_offset as nat,
            ts == reader.header_model().tensors,
            i <= infos@.len(),
            spec_load_tensors(bytes, off, ts) == spec_load_tensors_from(
                bytes,
                off,
                ts,
                i as int,
                interned.texts(),
                table_view(tensors@),
            ),
        decreases infos@.len() - i,
    {
        let info = &infos[i];
        proof {
            assert(ts[i as int] == info@);
        }
        let raw = match reader.load_tensor_raw(info) {
            Ok(r) => r,
            Err(e) => {
                return Err(e);
            },
        };
        let data = TensorData { raw: slice_to_vec(raw), info: info.clone(), shape: usize_dims(&info.shape) };
        let ghost before = tensors@;
        let id = interned.intern(info.name.as_str());
        let _ = tensors.insert(id, data);
        proof {
            assert(table_view(tensors@) =~= table_view(before).insert(id, data@));
        }
        i = i + 1;
    }
    Ok((interned, tensors))
}

/// The vocabulary used when a file has none: `<token0>`, `<token1>`, and so
/// on, one per id below the vocabulary size.
pub open spec fn default_vocab(n: nat) -> Seq<Seq<char>> {
    Seq::new(n, |i: int| "<token"@ + decimal(i as nat) + ">"@)
}

/// The vocabulary of a file: the strings under `tokenizer.ggml.tokens` when
/// that is an array of strings, and the default vocabulary otherwise.
pub open spec fn spec_vocab(kvs: Kvs, vocab_size: usize) -> Seq<Seq<char>> {
    match kv_lookup(kvs, "tokenizer.ggml.tokens"@) {
        Some(ValueModel::Array(et, vs)) => if et == GgufType::String {
            match strings_of(vs) {
                Some(ss) => ss,
                None => default_vocab(vocab_size as nat),
            }
        } else {
            default_vocab(vocab_size as nat)
        },
        _ => default_vocab(vocab_size as nat),
    }
}

/// The `usize` under the first of `keys` that is present, or `default`
/// when there is none.
pub open spec fn key_usize_or(kvs: Kvs, keys: Seq<Seq<char>>, default: usize) -> usize {
    match key_usize(kvs, keys) {
        Some(n) => n,
        None => default,
    }
}

/// Whether BOS is added: the boolean under `tokenizer.ggml.add_bos_token`,
/// and `true` when there is none.
pub open spec fn spec_add_bos(kvs: Kvs) -> bool {
    match kv_lookup(kvs, "tokenizer.ggml.add_bos_token"@) {
        Some(ValueModel::Bool(b)) => b,
        _ => true,
    }
}

/// Whether a key/value cache for these hyper-parameters can be sized.
pub open spec fn kv_fits(hp: Hyperparams) -> bool {
    &&& hp.max_seq_len * hp.n_head <= usize::MAX
    &&& hp.max_seq_len * hp.n_head * hp.d_head <= usize::MAX
}

/// What a model loaded from a file holds.
pub struct ModelPlan {
    pub hp: Hyperparams,
    pub names: Seq<Seq<char>>,
    pub table: Map<usize, TensorDataModel>,
    pub vocab: Seq<Seq<char>>,
    pub bos: usize,
    pub eos: usize,
    pub unk: usize,
    pub add_bos: bool,
}

/// The model of a file with these bytes and this header; absent when the
/// hyper-parameters cannot be had, a tensor cannot be read, or the
/// key/value cache cannot be sized.
pub open spec fn spec_model(bytes: Seq<u8>, h: crate::gguf_header::HeaderModel) -> Option<ModelPlan> {
    match spec_hyperparams(h.kvs) {
        None => None,
        Some(hp) => match spec_load_tensors(bytes, h.data_offset as nat, h.tensors) {
            None => None,
            Some((names, table)) => if kv_fits(hp) {
                Some(ModelPlan {
                    hp,
                    names,
                    table,
                    vocab: spec_vocab(h.kvs, hp.vocab_size),
                    bos: key_usize_or(h.kvs, bos_keys(), 1),
                    eos: key_usize_or(h.kvs, eos_keys(), 2),
                    unk: key_usize_or(h.kvs, unk_keys(), 0),
                    add_bos: spec_add_bos(h.kvs),
                })
            } else {
                None
            },
        },
    }
}

/// The default vocabulary as strings.
fn default_vocab_tokens(n: usize) -> (res: Vec<String>)
    ensures
        strings_model(res@) == default_vocab(n as nat),
{
    let mut out: Vec<String> = Vec::new();
    let mut i: usize = 0;
    while i < n
        invariant
            i <= n,
            out@.len() == i,
            strings_model(out@) == default_vocab(i as nat),
        decreases n - i,
    {
        let mut s = owned("<token");
        append_decimal(&mut s, i as u64);
        s.append(">");
        let ghost prev = out@;
        out.push(s);
        proof {
            assert(s@ == "<token"@ + decimal(i as nat) + ">"@);
            assert(out@[i as int] == s);
            assert forall|j: int| 0 <= j < i + 1 implies #[trigger] strings_model(out@)[j] == default_vocab((i + 1) as nat)[j] by {
                if j < i {
                    assert(out@[j] == prev[j]);
                    assert(strings_model(prev)[j] == default_vocab(i as nat)[j]);
                }
            }
            assert(strings_model(out@) =~= default_vocab((i + 1) as nat));
        }
        i = i + 1;
    }
    out
}

/// The core model struct.
#[derive(Debug)]
pub struct Model {
    /// Mapping from interned tensor ID to its data.
    pub tensors: HashMap<usize, TensorData>,
    /// Interner for tensor names.
    pub interned: InternedStrings,
    /// Embedding length.
    pub n_embd: usize,
    /// Attention head count.
    pub n_head: usize,
    /// Key/value head count.
    pub n_head_kv: usize,
    /// Head dimension.
    pub d_head: usize,
    /// Context length.
    pub max_seq_len: usize,
    /// Vocabulary size.
    pub vocab_size: usize,
    /// Feed-forward length.
    pub n_ff: usize,
    /// Tokenizer vocabulary loaded from GGUF metadata.
    pub vocab_tokens: Vec<String>,
    /// BOS token ID.
    pub bos_token_id: usize,
    /// EOS token ID.
    pub eos_token_id: usize,
    /// Unknown token ID.
    pub unk_token_id: usize,
    /// Whether to add BOS token automatically.
    pub add_bos_token: bool,
    /// KV cache used during inference, holding the bit patterns of `f32`
    /// keys and values.
    pub kv_cache: KvCache<u32>,
}

impl Model {
    /// Whether the model holds what the plan says: its hyper-parameters,
    /// tensors, vocabulary and token settings, and an empty key/value cache
    /// of zeros sized by the context length, head count and head dimension.
    pub open spec fn holds(&self, p: ModelPlan) -> bool {
        &&& self.n_embd == p.hp.n_embd
        &&& self.n_head == p.hp.n_head
        &&& self.n_head_kv == p.hp.n_head_kv
        &&& self.d_head == p.hp.d_head
        &&& self.max_seq_len == p.hp.max_seq_len
        &&& self.vocab_size == p.hp.vocab_size
        &&& self.n_ff == p.hp.n_ff
        &&& self.interned.texts() == p.names
        &&& table_view(self.tensors@) == p.table
        &&& strings_model(self.vocab_tokens@) == p.vocab
        &&& self.bos_token_id == p.bos
        &&& self.eos_token_id == p.eos
        &&& self.unk_token_id == p.unk
        &&& self.add_bos_token == p.add_bos
        &&& self.kv_cache.wf()
        &&& self.kv_cache.max_seq == p.hp.max_seq_len
        &&& self.kv_cache.n_head == p.hp.n_head
        &&& self.kv_cache.head_dim == p.hp.d_head
        &&& self.kv_cache.cur_len == 0
        &&& self.kv_cache.keys@ == Seq::new(self.kv_cache.keys@.len(), |i: int| 0u32)
        &&& self.kv_cache.values@ == Seq::new(self.kv_cache.values@.len(), |i: int| 0u32)
    }

    /// Load a model from a parsed GGUF file: the hyper-parameters (the
    /// feed-forward length defaulting to four times the embedding length),
    /// the bytes of every tensor with interned names, an empty key/value
    /// cache, and the tokenizer data with its defaults.
    ///
    /// Fails with a `DecodeError` when a required hyper-parameter is missing
    /// or not a `usize`, the default feed-forward length or the cache size
    /// exceeds `usize::MAX`, or the bytes of a tensor cannot be read.
    pub fn from_reader(reader: &GgufReader) -> (res: Result<Model, GgufError>)
        ensures
            match spec_model(reader.bytes(), reader.header_model()) {
                Some(p) => res matches Ok(m) && m.holds(p),
                None => is_decode_error(res),
            },
    {
        let hp = read_hyperparams(reader)?;
        let (interned, tensors) = load_tensors(reader)?;
        let size = match hp.max_seq_len.checked_mul(hp.n_head) {
            Some(p) => p.checked_mul(hp.d_head),
            None => None,
        };
        if size.is_none() {
            return Err(GgufError::DecodeError(owned("KV cache size overflows")));
        }
        let kv_cache: KvCache<u32> = KvCache::new(hp.max_seq_len, hp.n_head, hp.d_head, 0u32);
        let vocab_tokens = match reader.get_string_array("tokenizer.ggml.tokens") {
            Ok(v) => v,
            Err(_) => default_vocab_tokens(hp.vocab_size),
        };
        let bos_token_id = match usize_of_keys(reader, "tokenizer.ggml.bos_token_id", "tokenizer.ggml.add_bos_token") {
            Ok(n) => n,
            Err(_) => 1,
        };
        let eos_token_id = match usize_of_key(reader, "tokenizer.ggml.eos_token_id") {
            Ok(n) => n,
            Err(_) => 2,
        };
        let unk_token_id = match usize_of_key(reader, "tokenizer.ggml.unknown_token_id") {
            Ok(n) => n,
            Err(_) => 0,
        };
        let add_bos_token = match reader.get_kv("tokenizer.ggml.add_bos_token") {
            Some(GgufValue::Bool(b)) => *b,
            _ => true,
        };
        Ok(Model {
            tensors,
            interned,
            n_embd: hp.n_embd,
            n_head: hp.n_head,
            n_head_kv: hp.n_head_kv,
            d_head: hp.d_head,
            max_seq_len: hp.max_seq_len,
            vocab_size: hp.vocab_size,
            n_ff: hp.n_ff,
            vocab_tokens,
            bos_token_id,
            eos_token_id,
            unk_token_id,
            add_bos_token,
            kv_cache,
        })
    }
}

/// The text of a model summary.
pub open spec fn summary_text(n_embd: usize, n_head: usize, n_head_kv: usize, d_head: usize, max_seq_len: usize) -> Seq<char> {
    "Model: embd="@ + decimal(n_embd as nat) + ", heads="@ + decimal(n_head as nat) + ", kv_heads="@
        + decimal(n_head_kv as nat) + ", d_head="@ + decimal(d_head as nat) + ", seq_len="@
        + decimal(max_seq_len as nat)
}

/// The name of the attention norm weights of a transformer block.
pub open spec fn layer_norm_name(i: nat) -> Seq<char> {
    "blk."@ + decimal(i) + ".attn_norm.weight"@
}

/// The most transformer blocks that are looked for.
pub const MAX_LAYERS: usize = 1000;

impl Model {
    /// The tensor named `name`: the entry of the table under the id the name
    /// was interned with.
    pub open spec fn tensor_entry(&self, name: Seq<char>) -> Option<TensorDataModel> {
        match crate::interner::position_from(self.interned.texts(), name, 0) {
            Some(id) => if table_view(self.tensors@).contains_key(id as usize) {
                Some(table_view(self.tensors@)[id as usize])
            } else {
                None
            },
            None => None,
        }
    }

    /// Whether the tensor named `name` exists and its elements can be read.
    pub open spec fn tensor_readable(&self, name: Seq<char>) -> bool {
        match self.tensor_entry(name) {
            Some(t) => spec_element_bits(t.info.dtype, t.raw) is Some,
            None => false,
        }
    }

    /// Return a short summary string for debugging.
    pub fn summary(&self) -> (res: String)
        ensures
            res@ == summary_text(self.n_embd, self.n_head, self.n_head_kv, self.d_head, self.max_seq_len),
    {
        let mut s = owned("Model: embd=");
        append_decimal(&mut s, self.n_embd as u64);
        s.append(", heads=");
        append_decimal(&mut s, self.n_head as u64);
        s.append(", kv_heads=");
        append_decimal(&mut s, self.n_head_kv as u64);
        s.append(", d_head=");
        append_decimal(&mut s, self.d_head as u64);
        s.append(", seq_len=");
        append_decimal(&mut s, self.max_seq_len as u64);
        s
    }

    /// The data of the tensor named `name`.
    fn find_tensor_data(&self, name: &str) -> (res: Option<&TensorData>)
        ensures
            match self.tensor_entry(name@) {
                Some(t) => res matches Some(d) && d@ == t,
                None => res is None,
            },
    {
        match self.interned.position(name) {
            Some(id) => {
                let found = self.tensors.get(&id);
                proof {
                    if let Some(d) = found {
                        assert(table_view(self.tensors@)[id] == d@);
                    }
                }
                found
            },
            None => None,
        }
    }

    /// Retrieve a tensor by name, as the raw elements of its de-quantization.
    ///
    /// Fails with a `DecodeError` when no tensor has that name or its
    /// elements cannot be read.
    pub fn get_tensor(&self, name: &str) -> (res: Result<ElementBits, GgufError>)
        ensures
            match self.tensor_entry(name@) {
                Some(t) => match spec_element_bits(t.info.dtype, t.raw) {
                    Some(m) => res matches Ok(b) && b@ == m,
                    None => res matches Err(GgufError::DecodeError(_)),
                },
                None => res matches Err(GgufError::DecodeError(_)),
            },
    {
        match self.find_tensor_data(name) {
            Some(d) => d.get(),
            None => Err(GgufError::DecodeError(crate::text::message_around("Tensor not found: ", name, ""))),
        }
    }

    /// Retrieve a tensor's shape by name.
    pub fn get_tensor_shape(&self, name: &str) -> (res: Option<Vec<usize>>)
        ensures
            match self.tensor_entry(name@) {
                Some(t) => res matches Some(v) && v@ == t.shape,
                None => res is None,
            },
    {
        match self.find_tensor_data(name) {
            Some(d) => Some(crate::tensor::copy_dims(d.shape.as_slice())),
            None => None,
        }
    }

    /// Count the number of transformer blocks in the model: the blocks
    /// `0, 1, ...` whose attention norm weights can be read, up to the first
    /// that cannot, and at most `MAX_LAYERS`.
    pub fn n_layers(&self) -> (res: usize)
        ensures
            res <= MAX_LAYERS,
            forall|j: nat| j < res ==> #[trigger] self.tensor_readable(layer_norm_name(j)),
            res < MAX_LAYERS ==> !self.tensor_readable(layer_norm_name(res as nat)),
    {
        let mut i: usize = 0;
        while i < MAX_LAYERS
            invariant
                i <= MAX_LAYERS,
                forall|j: nat| j < i ==> #[trigger] self.tensor_readable(layer_norm_name(j)),
            decreases MAX_LAYERS - i,
        {
            let mut name = owned("blk.");
            append_decimal(&mut name, i as u64);
            name.append(".attn_norm.weight");
            if self.get_tensor(name.as_str()).is_err() {
                return i;
            }
            i = i + 1;
        }
        i
    }
}

} // verus!

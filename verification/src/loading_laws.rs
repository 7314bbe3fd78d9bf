//! Laws of what is loaded: float data written by `Tensor::from_f32_bits` is
//! read back unchanged by `TensorInfo::element_bits`, and a model loaded
//! from a file finds each of its tensors under its name.

use vstd::prelude::*;

use crate::cursor::le_value;
use crate::gguf_header::{ElementBitsModel, TensorInfoModel, le_words, spec_element_bits};
use crate::gguf_reader::{GgufReader, tensor_data_range};
use crate::gguf_types::GgmlType;
use crate::interner::{lemma_position_from, position_from, spec_intern};
use crate::model::{
    Model, TensorDataModel, bos_keys, ctx_keys, dims_of, embd_keys, eos_keys, ff_keys, head_dim_keys, head_keys,
    head_kv_keys, spec_load_tensors_from, spec_model, table_view, unk_keys, vocab_keys,
};
use crate::gguf_reader::{kv_lookup, usize_lookup_any};
use crate::gguf_header::HeaderModel;
use crate::gguf_value::ValueModel;
use crate::tensor::{DType, byte_count, law_dtype_element_bytes, u32_le_bytes, words_le_bytes};
use crate::gguf_reader::{law_tensor_element_bytes, tensor_byte_size};

verus! {

/// The four little-endian bytes of a word have that word as their value.
pub proof fn lemma_u32_le_bytes_value(w: u32)
    ensures
        le_value(u32_le_bytes(w)) == w,
{
    let b = u32_le_bytes(w);
    reveal_with_fuel(le_value, 5);
    assert(b.drop_first() =~= seq![b[1], b[2], b[3]]);
    assert(b.drop_first().drop_first() =~= seq![b[2], b[3]]);
    assert(b.drop_first().drop_first().drop_first() =~= seq![b[3]]);
    assert(b.drop_first().drop_first().drop_first().drop_first() =~= Seq::<u8>::empty());
    let b0 = (w & 0xff) as u8;
    let b1 = ((w >> 8) & 0xff) as u8;
    let b2 = ((w >> 16) & 0xff) as u8;
    let b3 = ((w >> 24) & 0xff) as u8;
    assert(b[0] == b0 && b[1] == b1 && b[2] == b2 && b[3] == b3);
    assert(b0 as int + 256 * (b1 as int + 256 * (b2 as int + 256 * (b3 as int + 256 * 0))) == w as int) by (bit_vector)
        requires
            b0 == (w & 0xff) as u8,
            b1 == ((w >> 8) & 0xff) as u8,
            b2 == ((w >> 16) & 0xff) as u8,
            b3 == ((w >> 24) & 0xff) as u8,
    ;
}

/// Word `i` of a sequence of words sits at bytes `4 * i .. 4 * i + 4` of
/// their little-endian bytes.
pub proof fn lemma_words_le_bytes_at(ws: Seq<u32>, i: int)
    requires
        0 <= i < ws.len(),
    ensures
        words_le_bytes(ws).subrange(4 * i, 4 * i + 4) == u32_le_bytes(ws[i]),
    decreases ws.len(),
{
    crate::tensor::lemma_words_le_bytes_len(ws.drop_last());
    let front = words_le_bytes(ws.drop_last());
    assert(words_le_bytes(ws) == front + u32_le_bytes(ws.last()));
    if i < ws.len() - 1 {
        lemma_words_le_bytes_at(ws.drop_last(), i);
        assert(words_le_bytes(ws).subrange(4 * i, 4 * i + 4) =~= front.subrange(4 * i, 4 * i + 4));
    } else {
        assert(words_le_bytes(ws).subrange(4 * i, 4 * i + 4) =~= u32_le_bytes(ws.last()));
    }
}

/// The bytes that `Tensor::from_f32_bits` stores for a sequence of `f32`
/// bit patterns are read back by `TensorInfo::element_bits`, for an `F32`
/// tensor, as exactly those bit patterns.
pub proof fn law_f32_bits_read_back(ws: Seq<u32>)
    ensures
        spec_element_bits(GgmlType::F32, words_le_bytes(ws)) == Some(ElementBitsModel::F32(ws)),
{
    let raw = words_le_bytes(ws);
    crate::tensor::lemma_words_le_bytes_len(ws);
    assert(raw.len() % 4 == 0);
    assert(raw.len() / 4 == ws.len());
    assert forall|i: int| 0 <= i < ws.len() implies (#[trigger] le_words(raw, 4)[i]) as u32 == ws[i] by {
        lemma_words_le_bytes_at(ws, i);
        lemma_u32_le_bytes_value(ws[i]);
        assert(i * 4 == 4 * i);
    }
    assert(Seq::new(raw.len() / 4, |i: int| le_words(raw, 4)[i] as u32) =~= ws);
}

/// Appending a text keeps the position of every text already present, and
/// a text that was absent is then found exactly when it is the one appended,
/// at the end.
pub proof fn lemma_position_push(v: Seq<Seq<char>>, s: Seq<char>, t: Seq<char>)
    ensures
        position_from(v, t, 0) is Some ==> position_from(v.push(s), t, 0) == position_from(v, t, 0),
        position_from(v, t, 0) is None && s == t ==> position_from(v.push(s), t, 0) == Some(v.len()),
        position_from(v, t, 0) is None && s != t ==> position_from(v.push(s), t, 0) is None,
{
    let w = v.push(s);
    lemma_position_from(v, t, 0);
    lemma_position_from(w, t, 0);
    match position_from(v, t, 0) {
        Some(k) => {
            assert(w[k as int] == t);
            match position_from(w, t, 0) {
                Some(k2) => {
                    if k2 < k {
                        assert(w[k2 as int] == v[k2 as int]);
                    }
                },
                None => {},
            }
        },
        None => {
            match position_from(w, t, 0) {
                Some(k2) => {
                    if k2 < v.len() {
                        assert(w[k2 as int] == v[k2 as int]);
                    }
                },
                None => {
                    if s == t {
                        assert(w[v.len() as int] == t);
                    }
                },
            }
        },
    }
}

/// What the model holds of a tensor of a file: the bytes of its data, its
/// description and its shape.
pub open spec fn loaded_entry(bytes: Seq<u8>, data_offset: nat, t: TensorInfoModel) -> TensorDataModel {
    let (start, end) = tensor_data_range(data_offset, bytes.len(), t).unwrap();
    TensorDataModel { raw: bytes.subrange(start as int, end as int), info: t, shape: dims_of(t.shape) }
}

/// No later tensor has the name of tensor `i`.
pub open spec fn last_of_name(ts: Seq<TensorInfoModel>, i: int) -> bool {
    forall|j: int| i < j < ts.len() ==> ts[j].name != ts[i].name
}

/// Some tensor from position `from` on has this name.
pub open spec fn named_from(ts: Seq<TensorInfoModel>, from: int, name: Seq<char>) -> bool {
    exists|j: int| from <= j < ts.len() && ts[j].name == name
}

/// The entry of `name` in the names and table before loading the rest of a
/// file is still there after.
pub open spec fn entry_kept(
    names: Seq<Seq<char>>,
    table: Map<usize, TensorDataModel>,
    res_names: Seq<Seq<char>>,
    res_table: Map<usize, TensorDataModel>,
    name: Seq<char>,
) -> bool {
    match position_from(names, name, 0) {
        Some(id) => {
            &&& position_from(res_names, name, 0) == Some(id)
            &&& res_table.contains_key(id as usize) == table.contains_key(id as usize)
            &&& table.contains_key(id as usize) ==> res_table[id as usize] == table[id as usize]
        },
        None => true,
    }
}

/// Loading from position `k` on finds each later tensor that is the last of
/// its name, interns exactly the names already there and the names of the
/// later tensors, and leaves the entry of a name no later tensor has as it
/// was.
proof fn lemma_load_from(
    bytes: Seq<u8>,
    off: nat,
    ts: Seq<TensorInfoModel>,
    k: int,
    names: Seq<Seq<char>>,
    table: Map<usize, TensorDataModel>,
    res_names: Seq<Seq<char>>,
    res_table: Map<usize, TensorDataModel>,
)
    requires
        0 <= k <= ts.len(),
        ts.len() <= usize::MAX,
        names.len() <= k,
        spec_load_tensors_from(bytes, off, ts, k, names, table) == Some((res_names, res_table)),
    ensures
        forall|i: int| k <= i < ts.len() && #[trigger] last_of_name(ts, i) ==> (position_from(res_names, ts[i].name, 0) matches Some(id)
            && res_table.contains_key(id as usize) && res_table[id as usize] == loaded_entry(bytes, off, ts[i])),
        forall|name: Seq<char>| #[trigger] position_from(res_names, name, 0) is Some <==> (position_from(names, name, 0) is Some
            || named_from(ts, k, name)),
        forall|name: Seq<char>| !named_from(ts, k, name) ==> #[trigger] entry_kept(names, table, res_names, res_table, name),
    decreases ts.len() - k,
{
    if k == ts.len() {
        assert forall|name: Seq<char>| #[trigger] position_from(res_names, name, 0) is Some <==> (position_from(names, name, 0) is Some
            || named_from(ts, k, name)) by {
            if named_from(ts, k, name) {
                let j = choose|j: int| k <= j < ts.len() && ts[j].name == name;
            }
        }
        return;
    }
    let t = ts[k];
    let (start, end) = tensor_data_range(off, bytes.len(), t).unwrap();
    let (names2, id2) = spec_intern(names, t.name);
    let entry = TensorDataModel { raw: bytes.subrange(start as int, end as int), info: t, shape: dims_of(t.shape) };
    let table2 = table.insert(id2 as usize, entry);
    assert(entry == loaded_entry(bytes, off, t));
    lemma_position_from(names, t.name, 0);
    assert(position_from(names2, t.name, 0) == Some(id2)) by {
        lemma_position_push(names, t.name, t.name);
    }
    assert(id2 <= names.len());
    lemma_load_from(bytes, off, ts, k + 1, names2, table2, res_names, res_table);
    assert forall|i: int| k <= i < ts.len() && #[trigger] last_of_name(ts, i) implies (position_from(res_names, ts[i].name, 0) matches Some(id)
        && res_table.contains_key(id as usize) && res_table[id as usize] == loaded_entry(bytes, off, ts[i])) by {
        if i == k {
            if named_from(ts, k + 1, t.name) {
                let j = choose|j: int| k + 1 <= j < ts.len() && ts[j].name == t.name;
                assert(ts[j].name != ts[i].name);
            }
            assert(entry_kept(names2, table2, res_names, res_table, t.name));
        }
    }
    assert forall|name: Seq<char>| #[trigger] position_from(res_names, name, 0) is Some <==> (position_from(names, name, 0) is Some
        || named_from(ts, k, name)) by {
        lemma_position_push(names, t.name, name);
        if named_from(ts, k + 1, name) {
            let j = choose|j: int| k + 1 <= j < ts.len() && ts[j].name == name;
            assert(k <= j < ts.len() && ts[j].name == name);
        }
        if named_from(ts, k, name) && !named_from(ts, k + 1, name) {
            let j = choose|j: int| k <= j < ts.len() && ts[j].name == name;
            if j > k {
                assert(k + 1 <= j < ts.len() && ts[j].name == name);
            }
        }
        if name == t.name {
            assert(k <= k < ts.len() && ts[k].name == name);
        }
    }
    assert forall|name: Seq<char>| !named_from(ts, k, name) implies #[trigger] entry_kept(names, table, res_names, res_table, name) by {
        if position_from(names, name, 0) is Some {
        let id = position_from(names, name, 0).unwrap();
        lemma_position_from(names, name, 0);
        assert(name != t.name) by {
            if name == t.name {
                assert(k <= k < ts.len() && ts[k].name == name);
            }
        }
        lemma_position_push(names, t.name, name);
        assert(position_from(names2, name, 0) == Some(id));
        if named_from(ts, k + 1, name) {
            let j = choose|j: int| k + 1 <= j < ts.len() && ts[j].name == name;
            assert(k <= j < ts.len() && ts[j].name == name);
        }
        assert(names2[id as int] == name);
        assert(names2[id2 as int] == t.name);
        assert(id != id2);
        assert(id < names.len());
        assert(id as usize != id2 as usize);
        assert(entry_kept(names2, table2, res_names, res_table, name));
        }
    }
}

/// A model loaded from a file holds, under the name of each of its
/// tensors that no later tensor of the same name replaces, that tensor: the
/// bytes of its data in the file, its description and its shape; and it
/// finds no tensor under a name that no tensor of the file has.
pub proof fn law_loaded_tensor_found(r: &GgufReader, m: &Model, name: Seq<char>)
    requires
        spec_model(r.bytes(), r.header_model()) matches Some(p) && m.holds(p),
    ensures
        forall|i: int| 0 <= i < r.header_model().tensors.len() && #[trigger] last_of_name(r.header_model().tensors, i)
            ==> m.tensor_entry(r.header_model().tensors[i].name) == Some(
                loaded_entry(r.bytes(), r.header_model().data_offset, r.header_model().tensors[i]),
            ),
        (forall|i: int| 0 <= i < r.header_model().tensors.len() ==> r.header_model().tensors[i].name != name)
            ==> m.tensor_entry(name) is None,
{
    let h = r.header_model();
    let bytes = r.bytes();
    let ts = h.tensors;
    r.lemma_tensor_count_fits();
    let p = spec_model(bytes, h).unwrap();
    lemma_load_from(bytes, h.data_offset, ts, 0, Seq::empty(), Map::empty(), p.names, p.table);
    assert forall|i: int| 0 <= i < ts.len() && #[trigger] last_of_name(ts, i) implies m.tensor_entry(ts[i].name) == Some(
        loaded_entry(bytes, h.data_offset, ts[i])) by {
        assert(table_view(m.tensors@) == p.table);
    }
    if forall|i: int| 0 <= i < ts.len() ==> ts[i].name != name {
        if named_from(ts, 0, name) {
            let j = choose|j: int| 0 <= j < ts.len() && ts[j].name == name;
            assert(ts[j].name != name);
        }
        assert(position_from(Seq::<Seq<char>>::empty(), name, 0) is None);
        assert(position_from(p.names, name, 0) is None);
    }
}

/// The token settings of a model loaded from a file follow its metadata: a
/// `u32` under `tokenizer.ggml.bos_token_id` is the BOS id, one under
/// `tokenizer.ggml.eos_token_id` the EOS id and one under
/// `tokenizer.ggml.unknown_token_id` the unknown id, whatever the other keys
/// hold; a boolean under `tokenizer.ggml.add_bos_token` says whether BOS is
/// added. Without these keys the ids are 1, 2 and 0, and BOS is added.
pub proof fn law_loaded_token_settings(bytes: Seq<u8>, h: HeaderModel, m: Model)
    requires
        spec_model(bytes, h) matches Some(p) && m.holds(p),
    ensures
        kv_lookup(h.kvs, "tokenizer.ggml.bos_token_id"@) matches Some(ValueModel::U32(n)) ==> m.bos_token_id == n as usize,
        kv_lookup(h.kvs, "tokenizer.ggml.eos_token_id"@) matches Some(ValueModel::U32(n)) ==> m.eos_token_id == n as usize,
        kv_lookup(h.kvs, "tokenizer.ggml.unknown_token_id"@) matches Some(ValueModel::U32(n)) ==> m.unk_token_id == n as usize,
        kv_lookup(h.kvs, "tokenizer.ggml.add_bos_token"@) matches Some(ValueModel::Bool(x)) ==> m.add_bos_token == x,
        kv_lookup(h.kvs, "tokenizer.ggml.bos_token_id"@) is None && kv_lookup(h.kvs, "tokenizer.ggml.add_bos_token"@) is None
            ==> m.bos_token_id == 1,
        kv_lookup(h.kvs, "tokenizer.ggml.eos_token_id"@) is None ==> m.eos_token_id == 2,
        kv_lookup(h.kvs, "tokenizer.ggml.unknown_token_id"@) is None ==> m.unk_token_id == 0,
        kv_lookup(h.kvs, "tokenizer.ggml.add_bos_token"@) is None ==> m.add_bos_token,
{
    let kvs = h.kvs;
    let bk = bos_keys();
    assert(bk[0] == "tokenizer.ggml.bos_token_id"@);
    assert(bk.drop_first() =~= seq!["tokenizer.ggml.add_bos_token"@]);
    assert(bk.drop_first()[0] == "tokenizer.ggml.add_bos_token"@);
    assert(bk.drop_first().drop_first() =~= Seq::<Seq<char>>::empty());
    let ek = eos_keys();
    assert(ek[0] == "tokenizer.ggml.eos_token_id"@);
    assert(ek.drop_first() =~= Seq::<Seq<char>>::empty());
    let uk = unk_keys();
    assert(uk[0] == "tokenizer.ggml.unknown_token_id"@);
    assert(uk.drop_first() =~= Seq::<Seq<char>>::empty());
    reveal_with_fuel(usize_lookup_any, 3);
}

/// The data of a tensor of `n` elements takes as many bytes in a GGUF file
/// as a `Tensor` of the same element type holds (for the 4-bit types, when
/// `n` is even).
pub proof fn law_file_and_tensor_sizes_agree(n: nat)
    requires
        8 * n <= usize::MAX,
    ensures
        tensor_byte_size(GgmlType::F32, n) == Some(byte_count(DType::F32, n)),
        tensor_byte_size(GgmlType::I32, n) == Some(byte_count(DType::I32, n)),
        tensor_byte_size(GgmlType::F16, n) == Some(byte_count(DType::F16, n)),
        tensor_byte_size(GgmlType::Bf16, n) == Some(byte_count(DType::BF16, n)),
        tensor_byte_size(GgmlType::I16, n) == Some(byte_count(DType::I16, n)),
        tensor_byte_size(GgmlType::I64, n) == Some(byte_count(DType::I64, n)),
        tensor_byte_size(GgmlType::I8, n) == Some(byte_count(DType::I8, n)),
        tensor_byte_size(GgmlType::Q8_0, n) == Some(byte_count(DType::Q8_0, n)),
        n % 2 == 0 ==> tensor_byte_size(GgmlType::Q4_0, n) == Some(byte_count(DType::Q4_0, n)),
        n % 2 == 0 ==> tensor_byte_size(GgmlType::Q4_1, n) == Some(byte_count(DType::Q4_1, n)),
{
    law_dtype_element_bytes(n);
    law_tensor_element_bytes(n, 0, 0, arbitrary());
}

/// The value a model takes from a pair of keys: a `u32` under the first
/// key, or else, when the first key is absent, a `u32` under the second.
pub open spec fn pair_gives(kvs: Seq<(Seq<char>, ValueModel)>, k1: Seq<char>, k2: Seq<char>, v: usize) -> bool {
    &&& kv_lookup(kvs, k1) matches Some(ValueModel::U32(n)) ==> v == n as usize
    &&& kv_lookup(kvs, k1) is None ==> (kv_lookup(kvs, k2) matches Some(ValueModel::U32(n)) ==> v == n as usize)
}

/// Looking up two keys in order.
proof fn lemma_two_keys(kvs: Seq<(Seq<char>, ValueModel)>, keys: Seq<Seq<char>>)
    requires
        keys.len() == 2,
    ensures
        kv_lookup(kvs, keys[0]) matches Some(ValueModel::U32(n)) ==> usize_lookup_any(kvs, keys) == Some(n as usize),
        kv_lookup(kvs, keys[0]) is None ==> (kv_lookup(kvs, keys[1]) matches Some(ValueModel::U32(n))
            ==> usize_lookup_any(kvs, keys) == Some(n as usize)),
{
    assert(keys.drop_first()[0] == keys[1]);
    assert(keys.drop_first().drop_first() =~= Seq::<Seq<char>>::empty());
    reveal_with_fuel(usize_lookup_any, 3);
}

/// The hyper-parameters of a model loaded from a file follow its metadata:
/// each is the `u32` under its `general.*` key, or, when that key is absent,
/// the one under its `llama.*` key; the feed-forward length is the `u32`
/// under `llama.feed_forward_length` when present, and four times the
/// embedding length when none of its keys is present.
pub proof fn law_loaded_hyperparameters(bytes: Seq<u8>, h: HeaderModel, m: Model)
    requires
        spec_model(bytes, h) matches Some(p) && m.holds(p),
    ensures
        pair_gives(h.kvs, "general.embedding_length"@, "llama.embedding_length"@, m.n_embd),
        pair_gives(h.kvs, "general.attention_head_count"@, "llama.attention.head_count"@, m.n_head),
        pair_gives(h.kvs, "general.attention_head_count_kv"@, "llama.attention.head_count_kv"@, m.n_head_kv),
        pair_gives(h.kvs, "general.attention_head_dim"@, "llama.rope.dimension_count"@, m.d_head),
        pair_gives(h.kvs, "general.context_length"@, "llama.context_length"@, m.max_seq_len),
        pair_gives(h.kvs, "general.vocab_size"@, "llama.vocab_size"@, m.vocab_size),
        kv_lookup(h.kvs, "llama.feed_forward_length"@) matches Some(ValueModel::U32(n)) ==> m.n_ff == n as usize,
        kv_lookup(h.kvs, "llama.feed_forward_length"@) is None && kv_lookup(h.kvs, "general.feed_forward_length"@) is None
            && kv_lookup(h.kvs, "llama.intermediate_size"@) is None ==> m.n_ff == 4 * m.n_embd,
{
    let kvs = h.kvs;
    lemma_two_keys(kvs, embd_keys());
    lemma_two_keys(kvs, head_keys());
    lemma_two_keys(kvs, head_kv_keys());
    lemma_two_keys(kvs, head_dim_keys());
    lemma_two_keys(kvs, ctx_keys());
    lemma_two_keys(kvs, vocab_keys());
    let fk = ff_keys();
    assert(fk[0] == "llama.feed_forward_length"@);
    assert(fk.drop_first()[0] == "general.feed_forward_length"@);
    assert(fk.drop_first().drop_first()[0] == "llama.intermediate_size"@);
    assert(fk.drop_first().drop_first().drop_first() =~= Seq::<Seq<char>>::empty());
    reveal_with_fuel(usize_lookup_any, 4);
}

} // verus!

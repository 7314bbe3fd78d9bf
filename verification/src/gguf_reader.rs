//! Reading GGUF files: header parsing, metadata lookup and access to the
//! tensor data of a memory-mapped file.

use vstd::prelude::*;
use vstd::slice::slice_subrange;
use vstd::string::StringExecFns;

use crate::cursor::{CursorReader, lemma_pow256_eight, lemma_read_fixed_bounds};
use crate::gguf_header::{
    HeaderModel, TensorInfo, TensorInfoModel, header_reports, kvs_model, spec_parse_header,
    tensors_model,
};
use crate::gguf_header::{alignment_of_pairs, read_kv_pairs, read_tensor_descriptions};
use crate::gguf_types::{GGUF_MAGIC, GGUF_VERSION, GgmlType, GgufError, GgufType, align_up};
use crate::gguf_value::{GgufValue, ValueModel, lemma_values_model_index, values_model};
use crate::text::{append_decimal, message_around, owned, str_eq};

verus! {

/// The parsed header of a GGUF file.
pub struct GgufHeader {
    version: u32,
    tensor_count: i64,
    metadata_count: i64,
    kv_pairs: Vec<(String, GgufValue)>,
    tensors: Vec<TensorInfo>,
    alignment: usize,
    data_offset: usize,
}

impl View for GgufHeader {
    type V = HeaderModel;

    closed spec fn view(&self) -> HeaderModel {
        HeaderModel {
            version: self.version,
            tensor_count: self.tensor_count,
            metadata_count: self.metadata_count,
            kvs: kvs_model(self.kv_pairs@),
            tensors: tensors_model(self.tensors@),
            alignment: self.alignment as nat,
            data_offset: self.data_offset as nat,
        }
    }
}

impl GgufHeader {
    /// Parses the header at the start of `data`: magic, version, counts,
    /// metadata pairs, tensor descriptions, and the aligned start of the
    /// tensor data.
    pub fn parse(data: &[u8]) -> (res: Result<GgufHeader, GgufError>)
        ensures
            match spec_parse_header(data@) {
                Ok(h) => res matches Ok(x) && x@ == h,
                Err(f) => res matches Err(e) && header_reports(e, f),
            },
    {
        let mut reader = CursorReader::new(data);
        proof {
            lemma_read_fixed_bounds(data@, 0, 4);
            lemma_read_fixed_bounds(data@, 4, 4);
            lemma_pow256_eight();
        }

        let magic = reader.read_u32()?;
        if magic != GGUF_MAGIC {
            return Err(GgufError::InvalidMagic);
        }

        let version = reader.read_u32()?;
        if version != GGUF_VERSION {
            return Err(GgufError::UnsupportedVersion(version));
        }

        let tensor_count = reader.read_i64()?;
        let metadata_count = reader.read_i64()?;

        let kv_pairs = read_kv_pairs(&mut reader, metadata_count)?;
        let alignment = alignment_of_pairs(&kv_pairs);
        let tensors = read_tensor_descriptions(&mut reader, tensor_count)?;

        let end = reader.position();
        if alignment == 0 {
            return Err(GgufError::DecodeError(owned("tensor data alignment must be non-zero")));
        }
        if end > usize::MAX - (alignment - 1) {
            return Err(GgufError::DecodeError(owned("tensor data offset overflows")));
        }
        let data_offset = align_up(end, alignment);

        Ok(GgufHeader {
            version,
            tensor_count,
            metadata_count,
            kv_pairs,
            tensors,
            alignment,
            data_offset,
        })
    }
}

#[verifier::external_type_specification]
#[verifier::external_body]
pub struct ExMmap(memmap2::Mmap);

/// The bytes of a read-only memory map.
///
/// `memmap2::Mmap` dereferences to the mapped bytes; under the crate's safety
/// contract for file-backed maps the mapped file is not modified while the
/// map is alive, so these bytes are fixed for a given map.
pub uninterp spec fn mmap_contents(m: memmap2::Mmap) -> Seq<u8>;

/// The mapped bytes, through `<memmap2::Mmap as Deref>::deref`, which hands
/// out the whole mapping as a slice; the contract says the slice holds the
/// map's contents.
#[verifier::external_body]
fn mmap_bytes(m: &memmap2::Mmap) -> (res: &[u8])
    ensures
        res@ == mmap_contents(*m),
{
    &m[..]
}

/// The value of the first pair, from position `i` on, whose key is `key`.
pub open spec fn kv_lookup_from(kvs: Seq<(Seq<char>, ValueModel)>, key: Seq<char>, i: int) -> Option<ValueModel>
    decreases kvs.len() - i,
{
    if i < 0 || i >= kvs.len() {
        None
    } else if kvs[i].0 == key {
        Some(kvs[i].1)
    } else {
        kv_lookup_from(kvs, key, i + 1)
    }
}

/// The value of the first pair whose key is `key`.
pub open spec fn kv_lookup(kvs: Seq<(Seq<char>, ValueModel)>, key: Seq<char>) -> Option<ValueModel> {
    kv_lookup_from(kvs, key, 0)
}

/// The `usize` a metadata value stands for: a `u32`, or a `u64` that fits.
pub open spec fn usize_of(v: ValueModel) -> Option<usize> {
    match v {
        ValueModel::U32(x) => Some(x as usize),
        ValueModel::U64(x) => if x <= usize::MAX { Some(x as usize) } else { None },
        _ => None,
    }
}

/// The `usize` under the first of `keys` that is present with a usable
/// value (a `u32`, or a `u64` that fits); keys that are absent or hold
/// another kind of value are passed over.
pub open spec fn usize_lookup_any(kvs: Seq<(Seq<char>, ValueModel)>, keys: Seq<Seq<char>>) -> Option<usize>
    decreases keys.len(),
{
    if keys.len() == 0 {
        None
    } else {
        match kv_lookup(kvs, keys[0]) {
            Some(v) => match usize_of(v) {
                Some(n) => Some(n),
                None => usize_lookup_any(kvs, keys.drop_first()),
            },
            None => usize_lookup_any(kvs, keys.drop_first()),
        }
    }
}

/// The strings of an array whose elements are all strings.
pub open spec fn strings_of(vs: Seq<ValueModel>) -> Option<Seq<Seq<char>>>
    decreases vs.len(),
{
    if vs.len() == 0 {
        Some(Seq::empty())
    } else {
        match (vs[0], strings_of(vs.drop_first())) {
            (ValueModel::Str(s), Some(rest)) => Some(seq![s] + rest),
            _ => None,
        }
    }
}

/// The numbers of an array whose elements are all `i32`.
pub open spec fn i32s_of(vs: Seq<ValueModel>) -> Option<Seq<i32>>
    decreases vs.len(),
{
    if vs.len() == 0 {
        Some(Seq::empty())
    } else {
        match (vs[0], i32s_of(vs.drop_first())) {
            (ValueModel::I32(x), Some(rest)) => Some(seq![x] + rest),
            _ => None,
        }
    }
}

/// The bit patterns of an array whose elements are all 32-bit floats.
pub open spec fn f32_bits_of(vs: Seq<ValueModel>) -> Option<Seq<u32>>
    decreases vs.len(),
{
    if vs.len() == 0 {
        Some(Seq::empty())
    } else {
        match (vs[0], f32_bits_of(vs.drop_first())) {
            (ValueModel::F32(x), Some(rest)) => Some(seq![x] + rest),
            _ => None,
        }
    }
}

/// The product of the dimensions of a shape, each taken as a `usize`,
/// multiplied in order; absent when a partial product exceeds `usize::MAX`.
pub open spec fn checked_product(shape: Seq<i64>, acc: nat) -> Option<nat>
    decreases shape.len(),
{
    if shape.len() == 0 {
        Some(acc)
    } else {
        let x = acc * ((shape[0] as usize) as nat);
        if x > usize::MAX {
            None
        } else {
            checked_product(shape.drop_first(), x)
        }
    }
}

/// The number of bytes of `count` elements of a tensor type, for the types
/// whose data can be read directly; absent for the others and when the size
/// exceeds `usize::MAX`.
pub open spec fn tensor_byte_size(dtype: GgmlType, count: nat) -> Option<nat> {
    let size: Option<nat> = match dtype {
        GgmlType::F32 | GgmlType::I32 => Some(count * 4),
        GgmlType::F16 | GgmlType::I16 | GgmlType::Bf16 => Some(count * 2),
        GgmlType::F64 | GgmlType::I64 => Some(count * 8),
        GgmlType::I8 | GgmlType::Q8_0 | GgmlType::Q8_1 | GgmlType::Q8_K => Some(count),
        GgmlType::Q4_0 | GgmlType::Q4_1 => Some(count / 2),
        GgmlType::Q5_0 | GgmlType::Q5_1 => Some(count / 2 + (count / 32) * 2),
        GgmlType::Q2_K | GgmlType::Q3_K => Some(count / 4 + count / 64 + count / 64),
        GgmlType::Q4_K | GgmlType::Q5_K | GgmlType::Q6_K => Some(count / 2 + count / 64 + count / 64),
        _ => None,
    };
    match size {
        Some(n) => if n <= usize::MAX { Some(n) } else { None },
        None => None,
    }
}

/// The directly readable tensor types take a fixed number of bytes per
/// element: one for the 8-bit integer and 8-bit quantized types, two for the
/// 16-bit types, four for the 32-bit types and eight for the 64-bit types;
/// the 4-bit types take half a byte per element. The bytes read for a tensor
/// are exactly as many as its elements take.
pub proof fn law_tensor_element_bytes(n: nat, data_offset: nat, len: nat, t: TensorInfoModel)
    ensures
        n <= usize::MAX ==> {
            &&& tensor_byte_size(GgmlType::I8, n) == Some(n)
            &&& tensor_byte_size(GgmlType::Q8_0, n) == Some(n)
            &&& tensor_byte_size(GgmlType::Q8_1, n) == Some(n)
            &&& tensor_byte_size(GgmlType::Q8_K, n) == Some(n)
            &&& tensor_byte_size(GgmlType::Q4_0, n) == Some(n / 2)
            &&& tensor_byte_size(GgmlType::Q4_1, n) == Some(n / 2)
        },
        2 * n <= usize::MAX ==> {
            &&& tensor_byte_size(GgmlType::F16, n) == Some(2 * n)
            &&& tensor_byte_size(GgmlType::Bf16, n) == Some(2 * n)
            &&& tensor_byte_size(GgmlType::I16, n) == Some(2 * n)
        },
        4 * n <= usize::MAX ==> {
            &&& tensor_byte_size(GgmlType::F32, n) == Some(4 * n)
            &&& tensor_byte_size(GgmlType::I32, n) == Some(4 * n)
        },
        8 * n <= usize::MAX ==> {
            &&& tensor_byte_size(GgmlType::F64, n) == Some(8 * n)
            &&& tensor_byte_size(GgmlType::I64, n) == Some(8 * n)
        },
        tensor_data_range(data_offset, len, t) matches Some((start, end)) ==> {
            &&& checked_product(t.shape, 1) is Some
            &&& tensor_byte_size(t.dtype, checked_product(t.shape, 1).unwrap()) == Some((end - start) as nat)
            &&& data_offset + ((t.offset as usize) as nat) == start
            &&& end <= len
        },
{
}

/// The byte range of a tensor's data in a file of `len` bytes whose tensor
/// data starts at `data_offset`: from `data_offset + offset` for the size of
/// its elements; absent when it does not lie within the file or its size
/// cannot be computed.
pub open spec fn tensor_data_range(data_offset: nat, len: nat, t: TensorInfoModel) -> Option<(nat, nat)> {
    let start = data_offset + ((t.offset as usize) as nat);
    if start > len {
        None
    } else {
        match checked_product(t.shape, 1) {
            None => None,
            Some(count) => match tensor_byte_size(t.dtype, count) {
                None => None,
                Some(size) => if start + size > len { None } else { Some((start, start + size)) },
            },
        }
    }
}

/// A GGUF file reader over a memory-mapped file.
pub struct GgufReader {
    data: memmap2::Mmap,
    header: GgufHeader,
}

impl GgufReader {
    #[verifier::type_invariant]
    spec fn inv(&self) -> bool {
        spec_parse_header(mmap_contents(self.data)) == Ok::<HeaderModel, crate::gguf_header::HeaderFailure>(self.header@)
    }

    /// The bytes of the file.
    pub closed spec fn bytes(&self) -> Seq<u8> {
        mmap_contents(self.data)
    }

    /// The parsed header.
    pub closed spec fn header_model(&self) -> HeaderModel {
        self.header@
    }

    /// Parses a GGUF file from a memory-mapped region.
    pub fn from_mmap(mmap: memmap2::Mmap) -> (res: Result<Self, GgufError>)
        ensures
            match spec_parse_header(mmap_contents(mmap)) {
                Ok(h) => res matches Ok(r) && r.header_model() == h && r.bytes() == mmap_contents(mmap),
                Err(f) => res matches Err(e) && header_reports(e, f),
            },
    {
        let header = GgufHeader::parse(mmap_bytes(&mmap))?;
        Ok(GgufReader { data: mmap, header })
    }

    /// The tensor descriptions of a file number at most `usize::MAX`.
    pub proof fn lemma_tensor_count_fits(&self)
        ensures
            self.header_model().tensors.len() <= usize::MAX,
    {
        assert(self.header.tensors.len() == self.header.tensors@.len());
    }

    /// Returns the GGUF version.
    pub fn version(&self) -> (res: u32)
        ensures
            res == self.header_model().version,
    {
        self.header.version
    }

    /// Returns the number of tensors announced by the header.
    pub fn tensor_count(&self) -> (res: i64)
        ensures
            res == self.header_model().tensor_count,
    {
        self.header.tensor_count
    }

    /// Returns the number of metadata pairs announced by the header.
    pub fn metadata_count(&self) -> (res: i64)
        ensures
            res == self.header_model().metadata_count,
    {
        self.header.metadata_count
    }

    /// Returns the alignment used for tensor data.
    pub fn alignment(&self) -> (res: usize)
        ensures
            res == self.header_model().alignment,
    {
        self.header.alignment
    }

    /// Returns the offset where tensor data begins.
    pub fn data_offset(&self) -> (res: usize)
        ensures
            res == self.header_model().data_offset,
    {
        self.header.data_offset
    }
}

/// The description of the first tensor, from position `i` on, named `name`.
pub open spec fn tensor_lookup_from(ts: Seq<TensorInfoModel>, name: Seq<char>, i: int) -> Option<TensorInfoModel>
    decreases ts.len() - i,
{
    if i < 0 || i >= ts.len() {
        None
    } else if ts[i].name == name {
        Some(ts[i])
    } else {
        tensor_lookup_from(ts, name, i + 1)
    }
}

/// The outcome of reading a `usize` metadata value: the number, or whether
/// the failure is a missing key (`None` inside) or a value of the wrong kind.
pub open spec fn usize_lookup(found: Option<ValueModel>) -> Option<usize> {
    match found {
        Some(v) => usize_of(v),
        None => None,
    }
}

/// Whether a result is a `DecodeError`.
pub open spec fn is_decode_error<T>(r: Result<T, GgufError>) -> bool {
    r matches Err(GgufError::DecodeError(_))
}

impl GgufReader {
    /// Get a metadata value by key: the first pair with that key.
    pub fn get_kv(&self, key: &str) -> (res: Option<&GgufValue>)
        ensures
            match kv_lookup(self.header_model().kvs, key@) {
                Some(v) => res matches Some(x) && x@ == v,
                None => res is None,
            },
    {
        let pairs = &self.header.kv_pairs;
        let ghost kvs = kvs_model(pairs@);
        let mut i: usize = 0;
        while i < pairs.len()
            invariant
                kvs == kvs_model(pairs@),
                kvs == self.header_model().kvs,
                i <= pairs@.len(),
                kv_lookup_from(kvs, key@, i as int) == kv_lookup(kvs, key@),
            decreases pairs@.len() - i,
        {
            let (k, v) = &pairs[i];
            if str_eq(k.as_str(), key) {
                return Some(v);
            }
            i = i + 1;
        }
        None
    }

    /// Get a metadata key-value pair by index.
    pub fn kv_pair(&self, index: usize) -> (res: Result<(&str, &GgufValue), GgufError>)
        ensures
            index < self.header_model().kvs.len() ==> (res matches Ok((k, v))
                && k@ == self.header_model().kvs[index as int].0
                && v@ == self.header_model().kvs[index as int].1),
            index >= self.header_model().kvs.len() ==> res == Err::<(&str, &GgufValue), GgufError>(
                GgufError::KvIndexOutOfRange(index, self.header_model().kvs.len() as usize)),
    {
        if index >= self.header.kv_pairs.len() {
            return Err(GgufError::KvIndexOutOfRange(index, self.header.kv_pairs.len()));
        }
        let (k, v) = &self.header.kv_pairs[index];
        Ok((k.as_str(), v))
    }

    /// Get tensor info by index.
    pub fn tensor_info(&self, index: usize) -> (res: Result<&TensorInfo, GgufError>)
        ensures
            index < self.header_model().tensors.len() ==> (res matches Ok(t)
                && t@ == self.header_model().tensors[index as int]),
            index >= self.header_model().tensors.len() ==> res == Err::<&TensorInfo, GgufError>(
                GgufError::TensorIndexOutOfRange(index, self.header_model().tensors.len() as usize)),
    {
        if index >= self.header.tensors.len() {
            return Err(GgufError::TensorIndexOutOfRange(index, self.header.tensors.len()));
        }
        Ok(&self.header.tensors[index])
    }

    /// Find a tensor by name: the first description with that name.
    pub fn find_tensor(&self, name: &str) -> (res: Option<&TensorInfo>)
        ensures
            match tensor_lookup_from(self.header_model().tensors, name@, 0) {
                Some(t) => res matches Some(x) && x@ == t,
                None => res is None,
            },
    {
        let tensors = &self.header.tensors;
        let ghost ts = tensors_model(tensors@);
        let mut i: usize = 0;
        while i < tensors.len()
            invariant
                ts == tensors_model(tensors@),
                ts == self.header_model().tensors,
                i <= tensors@.len(),
                tensor_lookup_from(ts, name@, i as int) == tensor_lookup_from(ts, name@, 0),
            decreases tensors@.len() - i,
        {
            if str_eq(tensors[i].name.as_str(), name) {
                return Some(&tensors[i]);
            }
            i = i + 1;
        }
        None
    }

    /// Returns all tensor descriptions.
    pub fn tensors(&self) -> (res: &[TensorInfo])
        ensures
            tensors_model(res@) == self.header_model().tensors,
    {
        self.header.tensors.as_slice()
    }

    /// Returns all metadata pairs.
    pub fn kv_pairs(&self) -> (res: &[(String, GgufValue)])
        ensures
            kvs_model(res@) == self.header_model().kvs,
    {
        self.header.kv_pairs.as_slice()
    }

    /// The bytes of the mapped file.
    pub fn raw_data(&self) -> (res: &[u8])
        ensures
            res@ == self.bytes(),
    {
        mmap_bytes(&self.data)
    }
}

/// The message for a metadata value of an unexpected kind: the key and the
/// value's type.
fn unexpected_type_message(key: &str, v: &GgufValue) -> String {
    let mut msg = message_around("metadata key '", key, "' has unexpected type: ");
    msg.append(v.gguf_type().variant_name());
    msg
}

/// The message for an array of an unexpected element type: the key, the
/// element kind expected and the one found.
fn array_type_message(key: &str, expected: &str, found: GgufType) -> String {
    let mut msg = message_around("metadata key '", key, "' expected ");
    msg.append(expected);
    msg.append(" array, got ");
    msg.append(found.variant_name());
    msg
}

/// The `usize` of a found metadata value, or a `DecodeError` naming the key.
fn usize_from_value(key: &str, v: &GgufValue) -> (res: Result<usize, GgufError>)
    ensures
        match usize_of(v@) {
            Some(n) => res == Ok::<usize, GgufError>(n),
            None => is_decode_error(res),
        },
{
    match v {
        GgufValue::U32(x) => Ok(*x as usize),
        GgufValue::U64(x) => {
            if *x <= usize::MAX as u64 {
                Ok(*x as usize)
            } else {
                Err(GgufError::DecodeError(owned("out of range integral type conversion attempted")))
            }
        },
        other => Err(GgufError::DecodeError(unexpected_type_message(key, other))),
    }
}

/// The strings of an array of strings, in order.
pub open spec fn strings_model(v: Seq<String>) -> Seq<Seq<char>> {
    v.map_values(|s: String| s@)
}

impl GgufReader {
    /// Get a `usize` metadata value by key; the value must be a `u32`, or a
    /// `u64` that fits in a `usize`.
    pub fn get_usize(&self, key: &str) -> (res: Result<usize, GgufError>)
        ensures
            match usize_lookup(kv_lookup(self.header_model().kvs, key@)) {
                Some(n) => res == Ok::<usize, GgufError>(n),
                None => is_decode_error(res),
            },
    {
        match self.get_kv(key) {
            Some(v) => usize_from_value(key, v),
            None => Err(GgufError::DecodeError(message_around("metadata key '", key, "' not found"))),
        }
    }

    /// Get a `usize` metadata value, trying the keys in order: the value of
    /// the first key that is present and holds a `u32`, or a `u64` that fits
    /// in a `usize`; keys that are absent or hold another kind of value are
    /// passed over.
    pub fn get_usize_any(&self, keys: &[&str]) -> (res: Result<usize, GgufError>)
        ensures
            match usize_lookup_any(self.header_model().kvs, keys@.map_values(|k: &str| k@)) {
                Some(n) => res == Ok::<usize, GgufError>(n),
                None => is_decode_error(res),
            },
    {
        let ghost kvs = self.header_model().kvs;
        let ghost ks = keys@.map_values(|k: &str| k@);
        let mut i: usize = 0;
        proof {
            assert(ks.subrange(0, ks.len() as int) =~= ks);
        }
        while i < keys.len()
            invariant
                kvs == self.header_model().kvs,
                ks == keys@.map_values(|k: &str| k@),
                i <= keys@.len(),
                usize_lookup_any(kvs, ks) == usize_lookup_any(kvs, ks.subrange(i as int, ks.len() as int)),
            decreases keys@.len() - i,
        {
            proof {
                assert(ks.subrange(i as int, ks.len() as int).drop_first() =~= ks.subrange(i + 1, ks.len() as int));
            }
            let key = keys[i];
            if let Some(v) = self.get_kv(key) {
                if let Ok(n) = usize_from_value(key, v) {
                    return Ok(n);
                }
            }
            i = i + 1;
        }
        proof {
            assert(ks.subrange(i as int, ks.len() as int) =~= Seq::<Seq<char>>::empty());
        }
        let mut msg = owned("none of the metadata keys found: [");
        let mut j: usize = 0;
        while j < keys.len()
            decreases keys@.len() - j,
        {
            if j > 0 {
                msg.append(", ");
            }
            msg.append("\"");
            msg.append(keys[j]);
            msg.append("\"");
            j = j + 1;
        }
        msg.append("]");
        Err(GgufError::DecodeError(msg))
    }

    /// Get a string metadata value by key.
    pub fn get_string(&self, key: &str) -> (res: Result<String, GgufError>)
        ensures
            match kv_lookup(self.header_model().kvs, key@) {
                Some(ValueModel::Str(s)) => res matches Ok(t) && t@ == s,
                _ => is_decode_error(res),
            },
    {
        match self.get_kv(key) {
            Some(GgufValue::Str(s)) => Ok(s.clone()),
            Some(other) => Err(GgufError::DecodeError(unexpected_type_message(key, other))),
            None => Err(GgufError::DecodeError(message_around("metadata key '", key, "' not found"))),
        }
    }

    /// Get an array of strings metadata value by key; the array must have
    /// string elements only.
    pub fn get_string_array(&self, key: &str) -> (res: Result<Vec<String>, GgufError>)
        ensures
            match kv_lookup(self.header_model().kvs, key@) {
                Some(ValueModel::Array(et, vs)) => if et == GgufType::String {
                    match strings_of(vs) {
                        Some(ss) => res matches Ok(v) && strings_model(v@) == ss,
                        None => is_decode_error(res),
                    }
                } else {
                    is_decode_error(res)
                },
                _ => is_decode_error(res),
            },
    {
        match self.get_kv(key) {
            Some(GgufValue::Array { elem_type, data }) => {
                if *elem_type != GgufType::String {
                    return Err(GgufError::DecodeError(array_type_message(key, "string", *elem_type)));
                }
                let ghost vs = values_model(data@);
                proof { lemma_values_model_index(data@); }
                let mut result: Vec<String> = Vec::new();
                let mut i: usize = 0;
                proof {
                    assert(vs.subrange(0, vs.len() as int) =~= vs);
                    if let Some(ss) = strings_of(vs) {
                        assert(strings_model(result@) + ss =~= ss);
                    }
                }
                while i < data.len()
                    invariant
                        kv_lookup(self.header_model().kvs, key@) == Some(ValueModel::Array(*elem_type, vs)),
                        *elem_type == GgufType::String,
                        vs == values_model(data@),
                        vs.len() == data@.len(),
                        forall|j: int| 0 <= j < data@.len() ==> #[trigger] vs[j] == data@[j]@,
                        i <= data@.len(),
                        strings_of(vs) == match strings_of(vs.subrange(i as int, vs.len() as int)) {
                            Some(rest) => Some(strings_model(result@) + rest),
                            None => None::<Seq<Seq<char>>>,
                        },
                    decreases data@.len() - i,
                {
                    let ghost tail = vs.subrange(i as int, vs.len() as int);
                    proof {
                        assert(tail.drop_first() =~= vs.subrange(i + 1, vs.len() as int));
                        assert(tail[0] == data@[i as int]@);
                    }
                    match &data[i] {
                        GgufValue::Str(s) => {
                            let t = s.clone();
                            proof {
                                assert(strings_model(result@.push(t)) =~= strings_model(result@).push(t@));
                                if let Some(rest) = strings_of(vs.subrange(i + 1, vs.len() as int)) {
                                    assert(strings_model(result@).push(t@) + rest =~= strings_model(result@) + (seq![t@] + rest));
                                }
                            }
                            result.push(t);
                        },
                        _ => {
                            return Err(GgufError::DecodeError(message_around("metadata key '", key, "' contains non-string element")));
                        },
                    }
                    i = i + 1;
                }
                proof {
                    assert(vs.subrange(i as int, vs.len() as int) =~= Seq::<ValueModel>::empty());
                    assert(strings_model(result@) + Seq::<Seq<char>>::empty() =~= strings_model(result@));
                }
                Ok(result)
            },
            Some(other) => Err(GgufError::DecodeError(unexpected_type_message(key, other))),
            None => Err(GgufError::DecodeError(message_around("metadata key '", key, "' not found"))),
        }
    }

    /// Get an array of `i32` metadata value by key; the array must have
    /// `i32` elements only.
    pub fn get_i32_array(&self, key: &str) -> (res: Result<Vec<i32>, GgufError>)
        ensures
            match kv_lookup(self.header_model().kvs, key@) {
                Some(ValueModel::Array(et, vs)) => if et == GgufType::Int32 {
                    match i32s_of(vs) {
                        Some(xs) => res matches Ok(v) && v@ == xs,
                        None => is_decode_error(res),
                    }
                } else {
                    is_decode_error(res)
                },
                _ => is_decode_error(res),
            },
    {
        match self.get_kv(key) {
            Some(GgufValue::Array { elem_type, data }) => {
                if *elem_type != GgufType::Int32 {
                    return Err(GgufError::DecodeError(array_type_message(key, "i32", *elem_type)));
                }
                let ghost vs = values_model(data@);
                proof { lemma_values_model_index(data@); }
                let mut result: Vec<i32> = Vec::new();
                let mut i: usize = 0;
                proof {
                    assert(vs.subrange(0, vs.len() as int) =~= vs);
                    if let Some(xs) = i32s_of(vs) {
                        assert(result@ + xs =~= xs);
                    }
                }
                while i < data.len()
                    invariant
                        kv_lookup(self.header_model().kvs, key@) == Some(ValueModel::Array(*elem_type, vs)),
                        *elem_type == GgufType::Int32,
                        vs == values_model(data@),
                        vs.len() == data@.len(),
                        forall|j: int| 0 <= j < data@.len() ==> #[trigger] vs[j] == data@[j]@,
                        i <= data@.len(),
                        i32s_of(vs) == match i32s_of(vs.subrange(i as int, vs.len() as int)) {
                            Some(rest) => Some(result@ + rest),
                            None => None::<Seq<i32>>,
                        },
                    decreases data@.len() - i,
                {
                    let ghost tail = vs.subrange(i as int, vs.len() as int);
                    proof {
                        assert(tail.drop_first() =~= vs.subrange(i + 1, vs.len() as int));
                        assert(tail[0] == data@[i as int]@);
                    }
                    match &data[i] {
                        GgufValue::I32(x) => {
                            let t = *x;
                            proof {
                                if let Some(rest) = i32s_of(vs.subrange(i + 1, vs.len() as int)) {
                                    assert(result@.push(t) + rest =~= result@ + (seq![t] + rest));
                                }
                            }
                            result.push(t);
                        },
                        _ => {
                            return Err(GgufError::DecodeError(message_around("metadata key '", key, "' contains non-i32 element")));
                        },
                    }
                    i = i + 1;
                }
                proof {
                    assert(vs.subrange(i as int, vs.len() as int) =~= Seq::<ValueModel>::empty());
                    assert(result@ + Seq::<i32>::empty() =~= result@);
                }
                Ok(result)
            },
            Some(other) => Err(GgufError::DecodeError(unexpected_type_message(key, other))),
            None => Err(GgufError::DecodeError(message_around("metadata key '", key, "' not found"))),
        }
    }

    /// Get an array of 32-bit floats metadata value by key, as bit patterns;
    /// the array must have float elements only.
    pub fn get_f32_array(&self, key: &str) -> (res: Result<Vec<u32>, GgufError>)
        ensures
            match kv_lookup(self.header_model().kvs, key@) {
                Some(ValueModel::Array(et, vs)) => if et == GgufType::Float32 {
                    match f32_bits_of(vs) {
                        Some(xs) => res matches Ok(v) && v@ == xs,
                        None => is_decode_error(res),
                    }
                } else {
                    is_decode_error(res)
                },
                _ => is_decode_error(res),
            },
    {
        match self.get_kv(key) {
            Some(GgufValue::Array { elem_type, data }) => {
                if *elem_type != GgufType::Float32 {
                    return Err(GgufError::DecodeError(array_type_message(key, "f32", *elem_type)));
                }
                let ghost vs = values_model(data@);
                proof { lemma_values_model_index(data@); }
                let mut result: Vec<u32> = Vec::new();
                let mut i: usize = 0;
                proof {
                    assert(vs.subrange(0, vs.len() as int) =~= vs);
                    if let Some(xs) = f32_bits_of(vs) {
                        assert(result@ + xs =~= xs);
                    }
                }
                while i < data.len()
                    invariant
                        kv_lookup(self.header_model().kvs, key@) == Some(ValueModel::Array(*elem_type, vs)),
                        *elem_type == GgufType::Float32,
                        vs == values_model(data@),
                        vs.len() == data@.len(),
                        forall|j: int| 0 <= j < data@.len() ==> #[trigger] vs[j] == data@[j]@,
                        i <= data@.len(),
                        f32_bits_of(vs) == match f32_bits_of(vs.subrange(i as int, vs.len() as int)) {
                            Some(rest) => Some(result@ + rest),
                            None => None::<Seq<u32>>,
                        },
                    decreases data@.len() - i,
                {
                    let ghost tail = vs.subrange(i as int, vs.len() as int);
                    proof {
                        assert(tail.drop_first() =~= vs.subrange(i + 1, vs.len() as int));
                        assert(tail[0] == data@[i as int]@);
                    }
                    match &data[i] {
                        GgufValue::F32(x) => {
                            let t = *x;
                            proof {
                                if let Some(rest) = f32_bits_of(vs.subrange(i + 1, vs.len() as int)) {
                                    assert(result@.push(t) + rest =~= result@ + (seq![t] + rest));
                                }
                            }
                            result.push(t);
                        },
                        _ => {
                            return Err(GgufError::DecodeError(message_around("metadata key '", key, "' contains non-f32 element")));
                        },
                    }
                    i = i + 1;
                }
                proof {
                    assert(vs.subrange(i as int, vs.len() as int) =~= Seq::<ValueModel>::empty());
                    assert(result@ + Seq::<u32>::empty() =~= result@);
                }
                Ok(result)
            },
            Some(other) => Err(GgufError::DecodeError(unexpected_type_message(key, other))),
            None => Err(GgufError::DecodeError(message_around("metadata key '", key, "' not found"))),
        }
    }
}

/// The number of bytes of `count` elements of a directly readable tensor
/// type.
fn byte_size_of(dtype: GgmlType, count: usize) -> (res: Option<usize>)
    ensures
        match tensor_byte_size(dtype, count as nat) {
            Some(n) => res == Some(n as usize),
            None => res is None,
        },
{
    match dtype {
        GgmlType::F32 | GgmlType::I32 => count.checked_mul(4),
        GgmlType::F16 | GgmlType::I16 | GgmlType::Bf16 => count.checked_mul(2),
        GgmlType::F64 | GgmlType::I64 => count.checked_mul(8),
        GgmlType::I8 | GgmlType::Q8_0 | GgmlType::Q8_1 | GgmlType::Q8_K => Some(count),
        GgmlType::Q4_0 | GgmlType::Q4_1 => Some(count / 2),
        GgmlType::Q5_0 | GgmlType::Q5_1 => Some(count / 2 + (count / 32) * 2),
        GgmlType::Q2_K | GgmlType::Q3_K => Some(count / 4 + count / 64 + count / 64),
        GgmlType::Q4_K | GgmlType::Q5_K | GgmlType::Q6_K => Some(count / 2 + count / 64 + count / 64),
        _ => None,
    }
}

impl GgufReader {
    /// Read tensor data bytes from the memory-mapped file: the bytes from
    /// `data_offset + tensor.offset` for the size of the tensor's elements.
    pub fn read_tensor_data(&self, tensor: &TensorInfo) -> (res: Result<&[u8], GgufError>)
        ensures
            match tensor_data_range(self.header_model().data_offset, self.bytes().len(), tensor@) {
                Some((start, end)) => res matches Ok(x) && x@ == self.bytes().subrange(start as int, end as int),
                None => is_decode_error(res),
            },
    {
        let data = mmap_bytes(&self.data);
        let len = data.len();
        let base = self.header.data_offset;
        let off = tensor.offset as usize;
        if base > len || off > len - base {
            let mut msg = message_around("tensor ", tensor.name.as_str(), " offset ");
            append_decimal(&mut msg, tensor.offset);
            msg.append(" out of bounds (file size ");
            append_decimal(&mut msg, len as u64);
            msg.append(")");
            return Err(GgufError::DecodeError(msg));
        }
        let start = base + off;

        let shape = &tensor.shape;
        let mut count: usize = 1;
        let mut i: usize = 0;
        proof {
            assert(shape@.subrange(0, shape@.len() as int) =~= shape@);
        }
        while i < shape.len()
            invariant
                i <= shape@.len(),
                shape@ == tensor@.shape,
                checked_product(shape@, 1) == checked_product(shape@.subrange(i as int, shape@.len() as int), count as nat),
            decreases shape@.len() - i,
        {
            proof {
                let tail = shape@.subrange(i as int, shape@.len() as int);
                assert(tail.drop_first() =~= shape@.subrange(i + 1, shape@.len() as int));
            }
            match count.checked_mul(shape[i] as usize) {
                Some(c) => { count = c; },
                None => {
                    return Err(GgufError::DecodeError(message_around("tensor ", tensor.name.as_str(), " element count overflows")));
                },
            }
            i = i + 1;
        }
        proof {
            assert(shape@.subrange(i as int, shape@.len() as int) =~= Seq::<i64>::empty());
        }

        let byte_size = match byte_size_of(tensor.dtype, count) {
            Some(n) => n,
            None => {
                let msg = if byte_size_of(tensor.dtype, 0).is_none() {
                    message_around("unsupported quantized dtype for direct read: ", tensor.dtype.variant_name(), "")
                } else {
                    message_around("tensor ", tensor.name.as_str(), " data size overflows")
                };
                return Err(GgufError::DecodeError(msg));
            },
        };
        if byte_size > len - start {
            let mut msg = message_around("tensor ", tensor.name.as_str(), " data extends beyond file (need ");
            match (start as u64).checked_add(byte_size as u64) {
                Some(end) => append_decimal(&mut msg, end),
                None => {
                    append_decimal(&mut msg, start as u64);
                    msg.append(" + ");
                    append_decimal(&mut msg, byte_size as u64);
                },
            }
            msg.append(", have ");
            append_decimal(&mut msg, len as u64);
            msg.append(")");
            return Err(GgufError::DecodeError(msg));
        }
        Ok(slice_subrange(data, start, start + byte_size))
    }

    /// Load raw tensor bytes for a given `TensorInfo`; the same as
    /// `read_tensor_data`.
    pub fn load_tensor_raw(&self, info: &TensorInfo) -> (res: Result<&[u8], GgufError>)
        ensures
            match tensor_data_range(self.header_model().data_offset, self.bytes().len(), info@) {
                Some((start, end)) => res matches Ok(x) && x@ == self.bytes().subrange(start as int, end as int),
                None => is_decode_error(res),
            },
    {
        self.read_tensor_data(info)
    }
}

} // verus!

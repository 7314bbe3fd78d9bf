//! The header of a GGUF file: metadata key/value pairs, tensor descriptions
//! and the position of the tensor data, parsed from bytes.

use vstd::prelude::*;

use crate::cursor::{
    CursorReader, ReadFailure, le_value, lemma_pow256_eight, lemma_read_fixed_bounds,
    lemma_read_fixed_prefix, lemma_read_string_prefix, lemma_read_value_prefix, prepend_items,
    read_on_prefix, reports, spec_read_fixed, spec_read_string, spec_read_value,
};
use crate::gguf_types::{
    GGUF_DEFAULT_ALIGNMENT, GGUF_MAGIC, GGUF_VERSION, GgmlType, GgufError, GgufType,
    ggml_type_of_code, gguf_type_of_code,
};
use crate::gguf_value::{GgufValue, ValueModel};
use crate::text::{message_around, owned, str_eq};

verus! {

/// Information about a single tensor in a GGUF file.
#[derive(Debug)]
pub struct TensorInfo {
    /// Tensor name.
    pub name: String,
    /// Number of dimensions.
    pub n_dims: u32,
    /// Shape, dimensions in the order they are stored in the file.
    pub shape: Vec<i64>,
    /// Data type.
    pub dtype: GgmlType,
    /// Offset into the tensor data blob.
    pub offset: u64,
}

/// The model of a tensor description.
pub struct TensorInfoModel {
    pub name: Seq<char>,
    pub n_dims: u32,
    pub shape: Seq<i64>,
    pub dtype: GgmlType,
    pub offset: u64,
}

impl View for TensorInfo {
    type V = TensorInfoModel;

    open spec fn view(&self) -> TensorInfoModel {
        TensorInfoModel {
            name: self.name@,
            n_dims: self.n_dims,
            shape: self.shape@,
            dtype: self.dtype,
            offset: self.offset,
        }
    }
}

impl Clone for TensorInfo {
    fn clone(&self) -> (res: Self)
        ensures
            res@ == self@,
    {
        let mut shape: Vec<i64> = Vec::new();
        let mut i: usize = 0;
        while i < self.shape.len()
            invariant
                i <= self.shape@.len(),
                shape@ == self.shape@.subrange(0, i as int),
            decreases self.shape@.len() - i,
        {
            shape.push(self.shape[i]);
            i = i + 1;
            proof {
                assert(shape@ =~= self.shape@.subrange(0, i as int));
            }
        }
        proof {
            assert(shape@ =~= self.shape@);
        }
        TensorInfo {
            name: self.name.clone(),
            n_dims: self.n_dims,
            shape,
            dtype: self.dtype,
            offset: self.offset,
        }
    }
}

/// The model of a metadata key/value pair.
pub open spec fn kv_model(kv: (String, GgufValue)) -> (Seq<char>, ValueModel) {
    (kv.0@, kv.1@)
}

/// The models of a sequence of key/value pairs.
pub open spec fn kvs_model(kvs: Seq<(String, GgufValue)>) -> Seq<(Seq<char>, ValueModel)> {
    kvs.map_values(|kv: (String, GgufValue)| kv_model(kv))
}

/// The models of a sequence of tensor descriptions.
pub open spec fn tensors_model(ts: Seq<TensorInfo>) -> Seq<TensorInfoModel> {
    ts.map_values(|t: TensorInfo| t@)
}

/// How parsing a header can fail.
pub enum HeaderFailure {
    /// A piece of the layout is truncated or invalid.
    Read(ReadFailure),
    /// The file does not start with the GGUF magic number.
    BadMagic,
    /// The file has a version other than the supported one.
    BadVersion(u32),
}

/// Whether an error of the library is the one that a header failure is
/// reported as.
pub open spec fn header_reports(e: GgufError, f: HeaderFailure) -> bool {
    match f {
        HeaderFailure::Read(r) => reports(e, r),
        HeaderFailure::BadMagic => e is InvalidMagic,
        HeaderFailure::BadVersion(v) => e == GgufError::UnsupportedVersion(v),
    }
}

/// The model of a parsed header.
pub struct HeaderModel {
    pub version: u32,
    pub tensor_count: i64,
    pub metadata_count: i64,
    pub kvs: Seq<(Seq<char>, ValueModel)>,
    pub tensors: Seq<TensorInfoModel>,
    pub alignment: nat,
    pub data_offset: nat,
}

/// Reading `n` little-endian `i64` dimensions at `p`.
pub open spec fn spec_read_dims(b: Seq<u8>, p: int, n: nat) -> Result<(Seq<i64>, int), ReadFailure>
    decreases n,
{
    if n == 0 {
        Ok((Seq::empty(), p))
    } else {
        match spec_read_fixed(b, p, 8) {
            Err(f) => Err(f),
            Ok((v, q)) => prepend_items(seq![(v as u64) as i64], spec_read_dims(b, q, (n - 1) as nat)),
        }
    }
}

/// Reading a tensor description: name, dimension count, dimensions, type
/// code and data offset.
pub open spec fn spec_read_tensor_info(b: Seq<u8>, p: int) -> Result<(TensorInfoModel, int), ReadFailure> {
    match spec_read_string(b, p) {
        Err(f) => Err(f),
        Ok((name, p1)) => match spec_read_fixed(b, p1, 4) {
            Err(f) => Err(f),
            Ok((nd, p2)) => match spec_read_dims(b, p2, (nd as u32) as nat) {
                Err(f) => Err(f),
                Ok((shape, p3)) => match spec_read_fixed(b, p3, 4) {
                    Err(f) => Err(f),
                    Ok((code, p4)) => match ggml_type_of_code((code as u32) as i32) {
                        None => Err(ReadFailure::Invalid),
                        Some(dtype) => match spec_read_fixed(b, p4, 8) {
                            Err(f) => Err(f),
                            Ok((offset, p5)) => Ok((
                                TensorInfoModel {
                                    name,
                                    n_dims: nd as u32,
                                    shape,
                                    dtype,
                                    offset: offset as u64,
                                },
                                p5,
                            )),
                        },
                    },
                },
            },
        },
    }
}

/// Reading `n` consecutive tensor descriptions at `p`.
pub open spec fn spec_read_tensor_infos(b: Seq<u8>, p: int, n: nat) -> Result<(Seq<TensorInfoModel>, int), ReadFailure>
    decreases n,
{
    if n == 0 {
        Ok((Seq::empty(), p))
    } else {
        match spec_read_tensor_info(b, p) {
            Err(f) => Err(f),
            Ok((t, q)) => prepend_items(seq![t], spec_read_tensor_infos(b, q, (n - 1) as nat)),
        }
    }
}

/// Reading a metadata pair: key string, value type code, value.
pub open spec fn spec_read_kv(b: Seq<u8>, p: int) -> Result<((Seq<char>, ValueModel), int), ReadFailure> {
    match spec_read_string(b, p) {
        Err(f) => Err(f),
        Ok((key, p1)) => match spec_read_fixed(b, p1, 4) {
            Err(f) => Err(f),
            Ok((code, p2)) => match gguf_type_of_code((code as u32) as i32) {
                None => Err(ReadFailure::Invalid),
                Some(ty) => match spec_read_value(b, p2, ty) {
                    Err(f) => Err(f),
                    Ok((v, p3)) => Ok(((key, v), p3)),
                },
            },
        },
    }
}

/// Reading `n` consecutive metadata pairs at `p`.
pub open spec fn spec_read_kvs(b: Seq<u8>, p: int, n: nat) -> Result<(Seq<(Seq<char>, ValueModel)>, int), ReadFailure>
    decreases n,
{
    if n == 0 {
        Ok((Seq::empty(), p))
    } else {
        match spec_read_kv(b, p) {
            Err(f) => Err(f),
            Ok((kv, q)) => prepend_items(seq![kv], spec_read_kvs(b, q, (n - 1) as nat)),
        }
    }
}

/// The number of items announced by a signed count: none when it is not
/// positive.
pub open spec fn count_of(c: i64) -> nat {
    if c > 0 { c as nat } else { 0 }
}

/// The tensor data alignment announced by the metadata: the first pair with
/// key `general.alignment` decides; it counts when it holds a `u32`, and the
/// default applies otherwise or when there is no such pair.
pub open spec fn alignment_from(kvs: Seq<(Seq<char>, ValueModel)>, i: int) -> nat
    decreases kvs.len() - i,
{
    if i < 0 || i >= kvs.len() {
        GGUF_DEFAULT_ALIGNMENT as nat
    } else if kvs[i].0 == "general.alignment"@ {
        match kvs[i].1 {
            ValueModel::U32(v) => v as nat,
            _ => GGUF_DEFAULT_ALIGNMENT as nat,
        }
    } else {
        alignment_from(kvs, i + 1)
    }
}

/// The start of the tensor data: the end of the header rounded up with the
/// bit trick `(end + alignment - 1) & !(alignment - 1)`; absent when the
/// alignment is zero or the sum does not fit in a `usize`.
pub open spec fn data_offset_of(end: int, alignment: nat) -> Option<nat> {
    if alignment == 0 || end < 0 || end + alignment - 1 > usize::MAX {
        None
    } else {
        Some((((end + alignment - 1) as usize) & !((alignment - 1) as usize)) as nat)
    }
}

/// Parsing the header of a GGUF file: magic, version, tensor count, pair
/// count, the pairs, the tensor descriptions, and the aligned start of the
/// tensor data.
pub open spec fn spec_parse_header(b: Seq<u8>) -> Result<HeaderModel, HeaderFailure> {
    match spec_read_fixed(b, 0, 4) {
        Err(f) => Err(HeaderFailure::Read(f)),
        Ok((magic, p1)) => if magic != GGUF_MAGIC {
            Err(HeaderFailure::BadMagic)
        } else {
            match spec_read_fixed(b, p1, 4) {
                Err(f) => Err(HeaderFailure::Read(f)),
                Ok((version, p2)) => if version != GGUF_VERSION {
                    Err(HeaderFailure::BadVersion(version as u32))
                } else {
                    match spec_read_fixed(b, p2, 8) {
                        Err(f) => Err(HeaderFailure::Read(f)),
                        Ok((tc, p3)) => match spec_read_fixed(b, p3, 8) {
                            Err(f) => Err(HeaderFailure::Read(f)),
                            Ok((mc, p4)) => {
                                let tensor_count = (tc as u64) as i64;
                                let metadata_count = (mc as u64) as i64;
                                match spec_read_kvs(b, p4, count_of(metadata_count)) {
                                    Err(f) => Err(HeaderFailure::Read(f)),
                                    Ok((kvs, p5)) => match spec_read_tensor_infos(b, p5, count_of(tensor_count)) {
                                        Err(f) => Err(HeaderFailure::Read(f)),
                                        Ok((tensors, p6)) => {
                                            let alignment = alignment_from(kvs, 0);
                                            match data_offset_of(p6, alignment) {
                                                None => Err(HeaderFailure::Read(ReadFailure::Invalid)),
                                                Some(data_offset) => Ok(HeaderModel {
                                                    version: version as u32,
                                                    tensor_count,
                                                    metadata_count,
                                                    kvs,
                                                    tensors,
                                                    alignment,
                                                    data_offset,
                                                }),
                                            }
                                        },
                                    },
                                }
                            },
                        },
                    }
                }
            }
        },
    }
}

/// A successful read of `n` metadata pairs yields `n` pairs.
pub proof fn lemma_read_kvs_len(b: Seq<u8>, p: int, n: nat)
    ensures
        spec_read_kvs(b, p, n) matches Ok((kvs, q)) ==> kvs.len() == n,
    decreases n,
{
    if n > 0 {
        if let Ok((kv, q)) = spec_read_kv(b, p) {
            lemma_read_kvs_len(b, q, (n - 1) as nat);
        }
    }
}

/// A successful read of `n` tensor descriptions yields `n` descriptions.
pub proof fn lemma_read_tensor_infos_len(b: Seq<u8>, p: int, n: nat)
    ensures
        spec_read_tensor_infos(b, p, n) matches Ok((ts, q)) ==> ts.len() == n,
    decreases n,
{
    if n > 0 {
        if let Ok((t, q)) = spec_read_tensor_info(b, p) {
            lemma_read_tensor_infos_len(b, q, (n - 1) as nat);
        }
    }
}

/// A parsed header holds exactly as many metadata pairs and tensor
/// descriptions as it announces (none for a count that is not positive), so
/// every index below a non-negative announced count names a pair or a
/// tensor; and with a power-of-two alignment its tensor data starts at a
/// multiple of the alignment.
pub proof fn law_parsed_header_counts(b: Seq<u8>)
    ensures
        spec_parse_header(b) matches Ok(h) ==> {
            &&& h.kvs.len() == count_of(h.metadata_count)
            &&& h.tensors.len() == count_of(h.tensor_count)
            &&& crate::gguf_types::is_power_of_two(h.alignment as usize) && h.alignment <= usize::MAX
                ==> h.data_offset % h.alignment == 0
        },
{
    if let Ok(h) = spec_parse_header(b) {
        let p4 = 24int;
        lemma_read_fixed_bounds(b, 0, 4);
        lemma_read_fixed_bounds(b, 4, 4);
        lemma_read_fixed_bounds(b, 8, 8);
        lemma_read_fixed_bounds(b, 16, 8);
        lemma_read_kvs_len(b, p4, count_of(h.metadata_count));
        if let Ok((kvs, p5)) = spec_read_kvs(b, p4, count_of(h.metadata_count)) {
            lemma_read_tensor_infos_len(b, p5, count_of(h.tensor_count));
            if let Ok((ts, p6)) = spec_read_tensor_infos(b, p5, count_of(h.tensor_count)) {
                if crate::gguf_types::is_power_of_two(h.alignment as usize) && h.alignment <= usize::MAX {
                    crate::gguf_types::lemma_align_up_power_of_two(p6 as usize, h.alignment as usize);
                }
            }
        }
    }
}

/// The little-endian `u32` at bytes `p .. p + 4`.
pub open spec fn le32_at(b: Seq<u8>, p: int) -> nat {
    le_value(b.subrange(p, p + 4))
}

/// Each malformed header gives its own failure, which `GgufHeader::parse`
/// and `GgufReader::from_mmap` report as the matching error (see
/// `header_reports`): fewer than four bytes, or a header cut short after a
/// good magic number and version, is the end of the file (`UnexpectedEof`);
/// a wrong magic number is `InvalidMagic`; a version other than 3 is
/// `UnsupportedVersion` with that version; and cutting the bytes of a valid
/// file anywhere gives either the same header or `UnexpectedEof`, never
/// another failure. An unknown type code is `DecodeError`, as
/// `law_unknown_type_codes` states.
pub proof fn law_header_errors(b: Seq<u8>)
    ensures
        b.len() < 4 ==> spec_parse_header(b) == Err::<HeaderModel, HeaderFailure>(HeaderFailure::Read(ReadFailure::Eof)),
        b.len() >= 4 && le32_at(b, 0) != GGUF_MAGIC ==> spec_parse_header(b) == Err::<HeaderModel, HeaderFailure>(
            HeaderFailure::BadMagic,
        ),
        4 <= b.len() < 8 && le32_at(b, 0) == GGUF_MAGIC ==> spec_parse_header(b) == Err::<HeaderModel, HeaderFailure>(
            HeaderFailure::Read(ReadFailure::Eof),
        ),
        b.len() >= 8 && le32_at(b, 0) == GGUF_MAGIC && le32_at(b, 4) != GGUF_VERSION ==> spec_parse_header(b)
            == Err::<HeaderModel, HeaderFailure>(HeaderFailure::BadVersion(le32_at(b, 4) as u32)),
        8 <= b.len() < 24 && le32_at(b, 0) == GGUF_MAGIC && le32_at(b, 4) == GGUF_VERSION ==> spec_parse_header(b)
            == Err::<HeaderModel, HeaderFailure>(HeaderFailure::Read(ReadFailure::Eof)),
        spec_parse_header(b) matches Ok(h) ==> forall|n: int| 0 <= n <= b.len() ==> (
            #[trigger] spec_parse_header(b.take(n)) == Ok::<HeaderModel, HeaderFailure>(h)
                || spec_parse_header(b.take(n)) == Err::<HeaderModel, HeaderFailure>(HeaderFailure::Read(ReadFailure::Eof))),
{
    assert forall|n: int| 0 <= n <= b.len() implies (spec_parse_header(b) matches Ok(h) ==> (
        #[trigger] spec_parse_header(b.take(n)) == Ok::<HeaderModel, HeaderFailure>(h)
            || spec_parse_header(b.take(n)) == Err::<HeaderModel, HeaderFailure>(HeaderFailure::Read(ReadFailure::Eof)))) by {
        law_truncated_header(b, n);
    }
    lemma_read_fixed_bounds(b, 0, 4);
    lemma_read_fixed_bounds(b, 4, 4);
    lemma_pow256_eight();
}

/// A metadata pair whose value type code names no type, and a tensor
/// description whose type code names no tensor type, are invalid
/// (`DecodeError`), once the fields before the code have been read.
pub proof fn law_unknown_type_codes(b: Seq<u8>, p: int)
    ensures
        (spec_read_string(b, p) matches Ok((key, p1)) && spec_read_fixed(b, p1, 4) matches Ok((code, p2))
            && gguf_type_of_code((code as u32) as i32) is None)
            ==> spec_read_kv(b, p) == Err::<((Seq<char>, ValueModel), int), ReadFailure>(ReadFailure::Invalid),
        (spec_read_string(b, p) matches Ok((name, p1)) && spec_read_fixed(b, p1, 4) matches Ok((nd, p2))
            && spec_read_dims(b, p2, (nd as u32) as nat) matches Ok((shape, p3))
            && spec_read_fixed(b, p3, 4) matches Ok((code, p4)) && ggml_type_of_code((code as u32) as i32) is None)
            ==> spec_read_tensor_info(b, p) == Err::<(TensorInfoModel, int), ReadFailure>(ReadFailure::Invalid),
{
}

/// Reading dimensions on a prefix of the bytes.
proof fn lemma_read_dims_prefix(b: Seq<u8>, n: int, p: int, c: nat)
    requires
        0 <= n <= b.len(),
    ensures
        read_on_prefix(spec_read_dims(b, p, c), spec_read_dims(b.take(n), p, c), p, n),
    decreases c,
{
    if c > 0 {
        lemma_read_fixed_prefix(b, n, p, 8);
        if let Ok((v, q)) = spec_read_fixed(b, p, 8) {
            lemma_read_dims_prefix(b, n, q, (c - 1) as nat);
        }
    }
}

/// Reading a tensor description on a prefix of the bytes.
proof fn lemma_read_tensor_info_prefix(b: Seq<u8>, n: int, p: int)
    requires
        0 <= n <= b.len(),
    ensures
        read_on_prefix(spec_read_tensor_info(b, p), spec_read_tensor_info(b.take(n), p), p, n),
{
    lemma_read_string_prefix(b, n, p);
    if let Ok((name, p1)) = spec_read_string(b, p) {
        lemma_read_fixed_prefix(b, n, p1, 4);
        if let Ok((nd, p2)) = spec_read_fixed(b, p1, 4) {
            lemma_read_dims_prefix(b, n, p2, (nd as u32) as nat);
            if let Ok((shape, p3)) = spec_read_dims(b, p2, (nd as u32) as nat) {
                lemma_read_fixed_prefix(b, n, p3, 4);
                if let Ok((code, p4)) = spec_read_fixed(b, p3, 4) {
                    lemma_read_fixed_prefix(b, n, p4, 8);
                }
            }
        }
    }
}

/// Reading tensor descriptions on a prefix of the bytes.
proof fn lemma_read_tensor_infos_prefix(b: Seq<u8>, n: int, p: int, c: nat)
    requires
        0 <= n <= b.len(),
    ensures
        read_on_prefix(spec_read_tensor_infos(b, p, c), spec_read_tensor_infos(b.take(n), p, c), p, n),
    decreases c,
{
    if c > 0 {
        lemma_read_tensor_info_prefix(b, n, p);
        if let Ok((t, q)) = spec_read_tensor_info(b, p) {
            lemma_read_tensor_infos_prefix(b, n, q, (c - 1) as nat);
        }
    }
}

/// Reading a metadata pair on a prefix of the bytes.
proof fn lemma_read_kv_prefix(b: Seq<u8>, n: int, p: int)
    requires
        0 <= n <= b.len(),
    ensures
        read_on_prefix(spec_read_kv(b, p), spec_read_kv(b.take(n), p), p, n),
{
    lemma_read_string_prefix(b, n, p);
    if let Ok((key, p1)) = spec_read_string(b, p) {
        lemma_read_fixed_prefix(b, n, p1, 4);
        if let Ok((code, p2)) = spec_read_fixed(b, p1, 4) {
            if let Some(ty) = gguf_type_of_code((code as u32) as i32) {
                lemma_read_value_prefix(b, n, p2, ty);
            }
        }
    }
}

/// Reading metadata pairs on a prefix of the bytes.
proof fn lemma_read_kvs_prefix(b: Seq<u8>, n: int, p: int, c: nat)
    requires
        0 <= n <= b.len(),
    ensures
        read_on_prefix(spec_read_kvs(b, p, c), spec_read_kvs(b.take(n), p, c), p, n),
    decreases c,
{
    if c > 0 {
        lemma_read_kv_prefix(b, n, p);
        if let Ok((kv, q)) = spec_read_kv(b, p) {
            lemma_read_kvs_prefix(b, n, q, (c - 1) as nat);
        }
    }
}

/// Cutting the bytes of a file with a valid header anywhere leaves either the
/// same header, when the cut comes after it, or a header that runs out of
/// bytes (`UnexpectedEof`): no other failure can come of a cut.
pub proof fn law_truncated_header(b: Seq<u8>, n: int)
    requires
        0 <= n <= b.len(),
    ensures
        spec_parse_header(b) matches Ok(h) ==> (spec_parse_header(b.take(n)) == Ok::<HeaderModel, HeaderFailure>(h)
            || spec_parse_header(b.take(n)) == Err::<HeaderModel, HeaderFailure>(HeaderFailure::Read(ReadFailure::Eof))),
{
    if let Ok(h) = spec_parse_header(b) {
        lemma_read_fixed_prefix(b, n, 0, 4);
        lemma_read_fixed_prefix(b, n, 4, 4);
        lemma_read_fixed_prefix(b, n, 8, 8);
        lemma_read_fixed_prefix(b, n, 16, 8);
        lemma_read_fixed_bounds(b, 0, 4);
        lemma_read_fixed_bounds(b, 4, 4);
        lemma_read_fixed_bounds(b, 8, 8);
        lemma_read_fixed_bounds(b, 16, 8);
        let c_kv = count_of(h.metadata_count);
        let c_t = count_of(h.tensor_count);
        lemma_read_kvs_prefix(b, n, 24, c_kv);
        if let Ok((kvs, p5)) = spec_read_kvs(b, 24, c_kv) {
            lemma_read_tensor_infos_prefix(b, n, p5, c_t);
        }
    }
}

/// Reads `n` little-endian `i64` dimensions.
fn read_dims(r: &mut CursorReader, n: u32) -> (res: Result<Vec<i64>, GgufError>)
    ensures
        final(r).buffer() == old(r).buffer(),
        match spec_read_dims(old(r).buffer(), old(r).offset(), n as nat) {
            Ok((ds, q)) => res matches Ok(v) && v@ == ds && final(r).offset() == q,
            Err(f) => res matches Err(e) && reports(e, f),
        },
{
    let ghost b = r.buffer();
    let ghost start = r.offset();
    let mut shape: Vec<i64> = Vec::new();
    let mut i: u32 = 0;
    proof {
        if let Ok((ds, e)) = spec_read_dims(b, start, n as nat) {
            assert(Seq::<i64>::empty() + ds =~= ds);
        }
    }
    while i < n
        invariant
            r.buffer() == b,
            old(r).buffer() == b,
            old(r).offset() == start,
            i <= n,
            prepend_items(shape@, spec_read_dims(b, r.offset(), (n - i) as nat))
                == spec_read_dims(b, start, n as nat),
        decreases n - i,
    {
        let ghost pos = r.offset();
        let d = r.read_i64()?;
        proof {
            if let Ok((ds, e)) = spec_read_dims(b, r.offset(), (n - i - 1) as nat) {
                assert(shape@.push(d) + ds =~= shape@ + (seq![d] + ds));
            }
        }
        shape.push(d);
        i = i + 1;
    }
    proof {
        assert(shape@ + Seq::<i64>::empty() =~= shape@);
    }
    Ok(shape)
}

/// Reads one tensor description.
pub fn read_tensor_info(r: &mut CursorReader) -> (res: Result<TensorInfo, GgufError>)
    ensures
        final(r).buffer() == old(r).buffer(),
        match spec_read_tensor_info(old(r).buffer(), old(r).offset()) {
            Ok((t, q)) => res matches Ok(x) && x@ == t && final(r).offset() == q,
            Err(f) => res matches Err(e) && reports(e, f),
        },
{
    let name = r.read_string()?;
    let n_dims = r.read_u32()?;
    let shape = read_dims(r, n_dims)?;
    let dtype_raw = r.read_i32()?;
    let dtype = GgmlType::from_i32(dtype_raw)?;
    let offset = r.read_u64()?;
    Ok(TensorInfo { name, n_dims, shape, dtype, offset })
}

/// Reads `count` tensor descriptions; none when `count` is not positive.
pub fn read_tensor_descriptions(r: &mut CursorReader, count: i64) -> (res: Result<Vec<TensorInfo>, GgufError>)
    ensures
        final(r).buffer() == old(r).buffer(),
        match spec_read_tensor_infos(old(r).buffer(), old(r).offset(), count_of(count)) {
            Ok((ts, q)) => res matches Ok(v) && tensors_model(v@) == ts && final(r).offset() == q,
            Err(f) => res matches Err(e) && reports(e, f),
        },
{
    let ghost b = r.buffer();
    let ghost start = r.offset();
    let ghost n = count_of(count);
    let mut tensors: Vec<TensorInfo> = Vec::new();
    let mut i: i64 = 0;
    proof {
        if let Ok((ts, e)) = spec_read_tensor_infos(b, start, n) {
            assert(tensors_model(tensors@) + ts =~= ts);
        }
    }
    while i < count
        invariant
            r.buffer() == b,
            old(r).buffer() == b,
            old(r).offset() == start,
            n == count_of(count),
            0 <= i <= n,
            prepend_items(tensors_model(tensors@), spec_read_tensor_infos(b, r.offset(), (n - i) as nat))
                == spec_read_tensor_infos(b, start, n),
        decreases count - i,
    {
        let t = read_tensor_info(r)?;
        proof {
            assert(tensors_model(tensors@.push(t)) =~= tensors_model(tensors@).push(t@));
            if let Ok((ts, e)) = spec_read_tensor_infos(b, r.offset(), (n - i - 1) as nat) {
                assert(tensors_model(tensors@).push(t@) + ts =~= tensors_model(tensors@) + (seq![t@] + ts));
            }
        }
        tensors.push(t);
        i = i + 1;
    }
    proof {
        assert(tensors_model(tensors@) + Seq::<TensorInfoModel>::empty() =~= tensors_model(tensors@));
    }
    Ok(tensors)
}

/// Reads one metadata pair.
pub fn read_kv(r: &mut CursorReader) -> (res: Result<(String, GgufValue), GgufError>)
    ensures
        final(r).buffer() == old(r).buffer(),
        match spec_read_kv(old(r).buffer(), old(r).offset()) {
            Ok((kv, q)) => res matches Ok(x) && kv_model(x) == kv && final(r).offset() == q,
            Err(f) => res matches Err(e) && reports(e, f),
        },
{
    let key = r.read_string()?;
    let type_raw = r.read_i32()?;
    let gguf_type = GgufType::from_i32(type_raw)?;
    let value = r.read_value(gguf_type)?;
    Ok((key, value))
}

/// Reads `count` metadata pairs; none when `count` is not positive.
pub fn read_kv_pairs(r: &mut CursorReader, count: i64) -> (res: Result<Vec<(String, GgufValue)>, GgufError>)
    ensures
        final(r).buffer() == old(r).buffer(),
        match spec_read_kvs(old(r).buffer(), old(r).offset(), count_of(count)) {
            Ok((kvs, q)) => res matches Ok(v) && kvs_model(v@) == kvs && final(r).offset() == q,
            Err(f) => res matches Err(e) && reports(e, f),
        },
{
    let ghost b = r.buffer();
    let ghost start = r.offset();
    let ghost n = count_of(count);
    let mut kvs: Vec<(String, GgufValue)> = Vec::new();
    let mut i: i64 = 0;
    proof {
        if let Ok((ms, e)) = spec_read_kvs(b, start, n) {
            assert(kvs_model(kvs@) + ms =~= ms);
        }
    }
    while i < count
        invariant
            r.buffer() == b,
            old(r).buffer() == b,
            old(r).offset() == start,
            n == count_of(count),
            0 <= i <= n,
            prepend_items(kvs_model(kvs@), spec_read_kvs(b, r.offset(), (n - i) as nat))
                == spec_read_kvs(b, start, n),
        decreases count - i,
    {
        let kv = read_kv(r)?;
        proof {
            assert(kvs_model(kvs@.push(kv)) =~= kvs_model(kvs@).push(kv_model(kv)));
            if let Ok((ms, e)) = spec_read_kvs(b, r.offset(), (n - i - 1) as nat) {
                assert(kvs_model(kvs@).push(kv_model(kv)) + ms =~= kvs_model(kvs@) + (seq![kv_model(kv)] + ms));
            }
        }
        kvs.push(kv);
        i = i + 1;
    }
    proof {
        assert(kvs_model(kvs@) + Seq::<(Seq<char>, ValueModel)>::empty() =~= kvs_model(kvs@));
    }
    Ok(kvs)
}

/// The tensor data alignment announced by the metadata pairs.
pub fn alignment_of_pairs(kvs: &Vec<(String, GgufValue)>) -> (res: usize)
    ensures
        res == alignment_from(kvs_model(kvs@), 0),
{
    let mut i: usize = 0;
    while i < kvs.len()
        invariant
            i <= kvs@.len(),
            alignment_from(kvs_model(kvs@), i as int) == alignment_from(kvs_model(kvs@), 0),
        decreases kvs@.len() - i,
    {
        let (key, value) = &kvs[i];
        if str_eq(key.as_str(), "general.alignment") {
            return match value {
                GgufValue::U32(v) => *v as usize,
                _ => GGUF_DEFAULT_ALIGNMENT,
            };
        }
        i = i + 1;
    }
    GGUF_DEFAULT_ALIGNMENT
}

/// The little-endian words of `width` bytes that `raw` splits into.
pub open spec fn le_words(raw: Seq<u8>, width: nat) -> Seq<nat> {
    Seq::new(raw.len() / width, |i: int| le_value(raw.subrange(i * width, i * width + width)))
}

/// The raw elements of a tensor of floats, as bit patterns: 32-bit words for
/// `F32` tensors and 16-bit half words for `F16` tensors.
#[derive(Debug)]
pub enum ElementBits {
    /// Bit patterns of 32-bit floats.
    F32(Vec<u32>),
    /// Bit patterns of 16-bit floats.
    F16(Vec<u16>),
}

/// The model of the raw elements of a float tensor.
pub enum ElementBitsModel {
    /// Bit patterns of 32-bit floats.
    F32(Seq<u32>),
    /// Bit patterns of 16-bit floats.
    F16(Seq<u16>),
}

impl View for ElementBits {
    type V = ElementBitsModel;

    open spec fn view(&self) -> ElementBitsModel {
        match self {
            ElementBits::F32(w) => ElementBitsModel::F32(w@),
            ElementBits::F16(w) => ElementBitsModel::F16(w@),
        }
    }
}

/// The raw elements of a float tensor's bytes: `F32` data as little-endian
/// 32-bit words, `F16` data as little-endian 16-bit words; absent when the
/// byte count is not a multiple of the element size or the type is another.
pub open spec fn spec_element_bits(dtype: GgmlType, raw: Seq<u8>) -> Option<ElementBitsModel> {
    match dtype {
        GgmlType::F32 => if raw.len() % 4 == 0 {
            Some(ElementBitsModel::F32(Seq::new(raw.len() / 4, |i: int| le_words(raw, 4)[i] as u32)))
        } else {
            None
        },
        GgmlType::F16 => if raw.len() % 2 == 0 {
            Some(ElementBitsModel::F16(Seq::new(raw.len() / 2, |i: int| le_words(raw, 2)[i] as u16)))
        } else {
            None
        },
        _ => None,
    }
}

impl TensorInfo {
    /// The raw elements of a float tensor's bytes, the integer part of
    /// de-quantization: `F32` tensors as little-endian 32-bit words, `F16`
    /// tensors as little-endian 16-bit words.
    ///
    /// Fails with a `DecodeError` when the byte count is not a multiple of
    /// the element size or the tensor type is neither `F32` nor `F16`.
    pub fn element_bits(&self, raw: &[u8]) -> (res: Result<ElementBits, GgufError>)
        ensures
            match spec_element_bits(self.dtype, raw@) {
                Some(m) => res matches Ok(b) && b@ == m,
                None => res matches Err(GgufError::DecodeError(_)),
            },
    {
        match self.dtype {
            GgmlType::F32 => {
                if raw.len() % 4 != 0 {
                    return Err(GgufError::DecodeError(owned("F32 tensor size not multiple of 4")));
                }
                let n = raw.len() / 4;
                let mut r = CursorReader::new(raw);
                let mut out: Vec<u32> = Vec::new();
                let mut i: usize = 0;
                while i < n
                    invariant
                        n == raw@.len() / 4,
                        raw@.len() % 4 == 0,
                        i <= n,
                        r.buffer() == raw@,
                        r.offset() == 4 * i,
                        out@.len() == i,
                        forall|j: int| 0 <= j < i ==> #[trigger] out@[j] == le_words(raw@, 4)[j],
                    decreases n - i,
                {
                    proof {
                        lemma_read_fixed_bounds(raw@, 4 * i, 4);
                        lemma_pow256_eight();
                    }
                    let w = match r.read_u32() {
                        Ok(w) => w,
                        Err(e) => { return Err(e); },
                    };
                    out.push(w);
                    i = i + 1;
                }
                proof {
                    assert(out@ =~= Seq::new(raw@.len() / 4, |i: int| le_words(raw@, 4)[i] as u32));
                }
                Ok(ElementBits::F32(out))
            },
            GgmlType::F16 => {
                if raw.len() % 2 != 0 {
                    return Err(GgufError::DecodeError(owned("F16 tensor size not multiple of 2")));
                }
                let n = raw.len() / 2;
                let mut r = CursorReader::new(raw);
                let mut out: Vec<u16> = Vec::new();
                let mut i: usize = 0;
                while i < n
                    invariant
                        n == raw@.len() / 2,
                        raw@.len() % 2 == 0,
                        i <= n,
                        r.buffer() == raw@,
                        r.offset() == 2 * i,
                        out@.len() == i,
                        forall|j: int| 0 <= j < i ==> #[trigger] out@[j] == le_words(raw@, 2)[j],
                    decreases n - i,
                {
                    proof {
                        lemma_read_fixed_bounds(raw@, 2 * i, 2);
                        lemma_pow256_eight();
                    }
                    let w = match r.read_u16() {
                        Ok(w) => w,
                        Err(e) => { return Err(e); },
                    };
                    out.push(w);
                    i = i + 1;
                }
                proof {
                    assert(out@ =~= Seq::new(raw@.len() / 2, |i: int| le_words(raw@, 2)[i] as u16));
                }
                Ok(ElementBits::F16(out))
            },
            _ => Err(GgufError::DecodeError(message_around("unsupported dtype for dequantize: ", self.dtype.variant_name(), ""))),
        }
    }
}

} // verus!

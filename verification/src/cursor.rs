//! Little-endian reading of the GGUF byte layout, with the exact meaning of
//! every read stated over the bytes.

use vstd::prelude::*;
use vstd::slice::slice_subrange;
use vstd::utf8::*;

use crate::gguf_types::{GgufError, GgufType, gguf_type_of_code};
use crate::gguf_value::{GgufValue, ValueModel, value_model, values_model, lemma_values_model_push};
use crate::text::{utf8_error_text, utf8_to_str};

verus! {

/// How reading a piece of the layout can fail.
pub enum ReadFailure {
    /// The bytes end before the piece does.
    Eof,
    /// The bytes are present but do not form a valid piece.
    Invalid,
}

/// Whether an error of the library is the one that a read failure is
/// reported as.
pub open spec fn reports(e: GgufError, f: ReadFailure) -> bool {
    match f {
        ReadFailure::Eof => e is UnexpectedEof,
        ReadFailure::Invalid => e is DecodeError,
    }
}

/// The number whose little-endian base-256 digits are `s`.
pub open spec fn le_value(s: Seq<u8>) -> nat
    decreases s.len(),
{
    if s.len() == 0 {
        0
    } else {
        s[0] as nat + 256 * le_value(s.drop_first())
    }
}

/// `256` to the power `k`.
pub open spec fn pow256(k: nat) -> nat
    decreases k,
{
    if k == 0 {
        1
    } else {
        256 * pow256((k - 1) as nat)
    }
}

/// Reading the unsigned little-endian number of `n` bytes at `p`, with the
/// position after it.
pub open spec fn spec_read_fixed(b: Seq<u8>, p: int, n: nat) -> Result<(nat, int), ReadFailure> {
    if 0 <= p && p + n <= b.len() {
        Ok((le_value(b.subrange(p, p + n)), p + n))
    } else {
        Err(ReadFailure::Eof)
    }
}

/// Reading a string: a `u64` byte length, then that many bytes of UTF-8.
pub open spec fn spec_read_string(b: Seq<u8>, p: int) -> Result<(Seq<char>, int), ReadFailure> {
    match spec_read_fixed(b, p, 8) {
        Err(f) => Err(f),
        Ok((len, q)) => {
            let l = ((len as u64) as usize) as int;
            if q + l > b.len() {
                Err(ReadFailure::Eof)
            } else if !valid_utf8(b.subrange(q, q + l)) {
                Err(ReadFailure::Invalid)
            } else {
                Ok((decode_utf8(b.subrange(q, q + l)), q + l))
            }
        },
    }
}

/// Reading one metadata value of type `ty` at `p`.
pub open spec fn spec_read_value(b: Seq<u8>, p: int, ty: GgufType) -> Result<(ValueModel, int), ReadFailure>
    decreases b.len() - p, 0int, 0nat,
{
    match ty {
        GgufType::Uint8 => match spec_read_fixed(b, p, 1) {
            Ok((v, q)) => Ok((ValueModel::U8(v as u8), q)),
            Err(f) => Err(f),
        },
        GgufType::Int8 => match spec_read_fixed(b, p, 1) {
            Ok((v, q)) => Ok((ValueModel::I8((v as u8) as i8), q)),
            Err(f) => Err(f),
        },
        GgufType::Uint16 => match spec_read_fixed(b, p, 2) {
            Ok((v, q)) => Ok((ValueModel::U16(v as u16), q)),
            Err(f) => Err(f),
        },
        GgufType::Int16 => match spec_read_fixed(b, p, 2) {
            Ok((v, q)) => Ok((ValueModel::I16((v as u16) as i16), q)),
            Err(f) => Err(f),
        },
        GgufType::Uint32 => match spec_read_fixed(b, p, 4) {
            Ok((v, q)) => Ok((ValueModel::U32(v as u32), q)),
            Err(f) => Err(f),
        },
        GgufType::Int32 => match spec_read_fixed(b, p, 4) {
            Ok((v, q)) => Ok((ValueModel::I32((v as u32) as i32), q)),
            Err(f) => Err(f),
        },
        GgufType::Float32 => match spec_read_fixed(b, p, 4) {
            Ok((v, q)) => Ok((ValueModel::F32(v as u32), q)),
            Err(f) => Err(f),
        },
        GgufType::Bool => match spec_read_fixed(b, p, 1) {
            Ok((v, q)) => Ok((ValueModel::Bool(((v as u8) as i8) != 0), q)),
            Err(f) => Err(f),
        },
        GgufType::String => match spec_read_string(b, p) {
            Ok((s, q)) => Ok((ValueModel::Str(s), q)),
            Err(f) => Err(f),
        },
        GgufType::Uint64 => match spec_read_fixed(b, p, 8) {
            Ok((v, q)) => Ok((ValueModel::U64(v as u64), q)),
            Err(f) => Err(f),
        },
        GgufType::Int64 => match spec_read_fixed(b, p, 8) {
            Ok((v, q)) => Ok((ValueModel::I64((v as u64) as i64), q)),
            Err(f) => Err(f),
        },
        GgufType::Float64 => match spec_read_fixed(b, p, 8) {
            Ok((v, q)) => Ok((ValueModel::F64(v as u64), q)),
            Err(f) => Err(f),
        },
        GgufType::Array => match spec_read_fixed(b, p, 4) {
            Err(f) => Err(f),
            Ok((code, q)) => match gguf_type_of_code((code as u32) as i32) {
                None => Err(ReadFailure::Invalid),
                Some(et) => match spec_read_fixed(b, q, 8) {
                    Err(f) => Err(f),
                    Ok((n, r)) => match spec_read_elems(b, r, et, ((n as u64) as usize) as nat) {
                        Err(f) => Err(f),
                        Ok((vs, e)) => Ok((ValueModel::Array(et, vs), e)),
                    },
                },
            },
        },
    }
}

/// Reading `n` consecutive values of type `ty` at `p`.
pub open spec fn spec_read_elems(b: Seq<u8>, p: int, ty: GgufType, n: nat) -> Result<(Seq<ValueModel>, int), ReadFailure>
    decreases b.len() - p, 1int, n,
{
    if n == 0 {
        Ok((Seq::empty(), p))
    } else {
        match spec_read_value(b, p, ty) {
            Err(f) => Err(f),
            Ok((v, q)) => if q <= p || q > b.len() {
                Err(ReadFailure::Invalid)
            } else {
                match spec_read_elems(b, q, ty, (n - 1) as nat) {
                    Err(f) => Err(f),
                    Ok((vs, e)) => Ok((seq![v] + vs, e)),
                }
            },
        }
    }
}

/// A read of a sequence whose first items are already known: the known
/// items followed by those of the rest, or the failure of the rest.
pub open spec fn prepend_items<T>(
    ms: Seq<T>,
    r: Result<(Seq<T>, int), ReadFailure>,
) -> Result<(Seq<T>, int), ReadFailure> {
    match r {
        Ok((vs, e)) => Ok((ms + vs, e)),
        Err(f) => Err(f),
    }
}

/// A successful read of a fixed-size number moves forward by its size and
/// stays within the bytes.
pub proof fn lemma_read_fixed_bounds(b: Seq<u8>, p: int, n: nat)
    ensures
        spec_read_fixed(b, p, n) matches Ok((v, q)) ==> q == p + n && q <= b.len() && v < pow256(n),
{
    if p + n <= b.len() && 0 <= p {
        lemma_le_value_bound(b.subrange(p, p + n));
    }
}

/// A little-endian number of `k` bytes is below `256^k`.
pub proof fn lemma_le_value_bound(s: Seq<u8>)
    ensures
        le_value(s) < pow256(s.len()),
    decreases s.len(),
{
    if s.len() > 0 {
        lemma_le_value_bound(s.drop_first());
    }
}

/// A successful value read moves strictly forward and stays within the bytes.
pub proof fn lemma_read_value_advances(b: Seq<u8>, p: int, ty: GgufType)
    ensures
        spec_read_value(b, p, ty) matches Ok((v, q)) ==> p < q <= b.len(),
    decreases b.len() - p, 0int, 0nat,
{
    match ty {
        GgufType::Array => {
            lemma_read_fixed_bounds(b, p, 4);
            if let Ok((code, q)) = spec_read_fixed(b, p, 4) {
                if let Some(et) = gguf_type_of_code((code as u32) as i32) {
                    lemma_read_fixed_bounds(b, q, 8);
                    if let Ok((n, r)) = spec_read_fixed(b, q, 8) {
                        lemma_read_elems_advances(b, r, et, ((n as u64) as usize) as nat);
                    }
                }
            }
        },
        GgufType::String => {
            lemma_read_fixed_bounds(b, p, 8);
        },
        _ => {
            lemma_read_fixed_bounds(b, p, 1);
            lemma_read_fixed_bounds(b, p, 2);
            lemma_read_fixed_bounds(b, p, 4);
            lemma_read_fixed_bounds(b, p, 8);
        },
    }
}

/// A successful read of several values never moves backward and stays
/// within the bytes.
pub proof fn lemma_read_elems_advances(b: Seq<u8>, p: int, ty: GgufType, n: nat)
    requires
        p <= b.len(),
    ensures
        spec_read_elems(b, p, ty, n) matches Ok((vs, q)) ==> p <= q <= b.len() && vs.len() == n,
    decreases b.len() - p, 1int, n,
{
    if n > 0 {
        lemma_read_value_advances(b, p, ty);
        if let Ok((v, q)) = spec_read_value(b, p, ty) {
            if q > p && q <= b.len() {
                lemma_read_elems_advances(b, q, ty, (n - 1) as nat);
                if let Ok((vs, e)) = spec_read_elems(b, q, ty, (n - 1) as nat) {
                    assert((seq![v] + vs).len() == n);
                }
            }
        }
    }
}

/// What a successful read at `p` of the bytes `b` becomes on the first `n`
/// of them, when `p` lies within them: the same item and position when it
/// ends within them, the end of the bytes otherwise; and a successful read
/// does not move backward.
pub open spec fn read_on_prefix<T>(
    r: Result<(T, int), ReadFailure>,
    r2: Result<(T, int), ReadFailure>,
    p: int,
    n: int,
) -> bool {
    r matches Ok((v, q)) ==> q >= p && (p <= n ==> r2 == (if q <= n {
        Ok::<(T, int), ReadFailure>((v, q))
    } else {
        Err::<(T, int), ReadFailure>(ReadFailure::Eof)
    }))
}

/// A fixed-size read on a prefix of the bytes.
pub proof fn lemma_read_fixed_prefix(b: Seq<u8>, n: int, p: int, k: nat)
    requires
        0 <= n <= b.len(),
    ensures
        read_on_prefix(spec_read_fixed(b, p, k), spec_read_fixed(b.take(n), p, k), p, n),
{
    if 0 <= p && p + k <= n {
        assert(b.take(n).subrange(p, p + k) =~= b.subrange(p, p + k));
    }
}

/// A string read on a prefix of the bytes.
pub proof fn lemma_read_string_prefix(b: Seq<u8>, n: int, p: int)
    requires
        0 <= n <= b.len(),
    ensures
        read_on_prefix(spec_read_string(b, p), spec_read_string(b.take(n), p), p, n),
{
    lemma_read_fixed_prefix(b, n, p, 8);
    if let Ok((len, q)) = spec_read_fixed(b, p, 8) {
        let l = ((len as u64) as usize) as int;
        if q + l <= n {
            assert(b.take(n).subrange(q, q + l) =~= b.subrange(q, q + l));
        }
    }
}

/// A value read on a prefix of the bytes.
pub proof fn lemma_read_value_prefix(b: Seq<u8>, n: int, p: int, ty: GgufType)
    requires
        0 <= n <= b.len(),
    ensures
        read_on_prefix(spec_read_value(b, p, ty), spec_read_value(b.take(n), p, ty), p, n),
    decreases b.len() - p, 0int, 0nat,
{
    lemma_read_fixed_prefix(b, n, p, 1);
    lemma_read_fixed_prefix(b, n, p, 2);
    lemma_read_fixed_prefix(b, n, p, 4);
    lemma_read_fixed_prefix(b, n, p, 8);
    lemma_read_string_prefix(b, n, p);
    lemma_read_value_advances(b, p, ty);
    if ty == GgufType::Array {
        if let Ok((code, q)) = spec_read_fixed(b, p, 4) {
            if let Some(et) = gguf_type_of_code((code as u32) as i32) {
                lemma_read_fixed_prefix(b, n, q, 8);
                lemma_read_fixed_bounds(b, p, 4);
                if let Ok((cnt, r)) = spec_read_fixed(b, q, 8) {
                    lemma_read_fixed_bounds(b, q, 8);
                    lemma_read_elems_prefix(b, n, r, et, ((cnt as u64) as usize) as nat);
                    lemma_read_elems_advances(b, r, et, ((cnt as u64) as usize) as nat);
                }
            }
        }
    }
}

/// A read of several values on a prefix of the bytes.
pub proof fn lemma_read_elems_prefix(b: Seq<u8>, n: int, p: int, ty: GgufType, k: nat)
    requires
        0 <= n <= b.len(),
    ensures
        read_on_prefix(spec_read_elems(b, p, ty, k), spec_read_elems(b.take(n), p, ty, k), p, n),
    decreases b.len() - p, 1int, k,
{
    assert(b.take(n).len() == n);
    if k > 0 {
        if let Ok((v, q)) = spec_read_value(b, p, ty) {
            lemma_read_value_advances(b, p, ty);
            if q > p && q <= b.len() {
                lemma_read_value_prefix(b, n, p, ty);
                lemma_read_elems_prefix(b, n, q, ty, (k - 1) as nat);
                lemma_read_elems_advances(b, q, ty, (k - 1) as nat);
            }
        }
    }
}

/// Little-endian binary reader over a byte slice.
pub struct CursorReader<'a> {
    data: &'a [u8],
    pos: usize,
}

impl<'a> CursorReader<'a> {
    #[verifier::type_invariant]
    spec fn inv(&self) -> bool {
        self.pos <= self.data@.len()
    }

    /// The bytes being read.
    pub closed spec fn buffer(&self) -> Seq<u8> {
        self.data@
    }

    /// The current reading position.
    pub closed spec fn offset(&self) -> int {
        self.pos as int
    }

    /// A reader at the start of `data`.
    pub fn new(data: &'a [u8]) -> (res: Self)
        ensures
            res.buffer() == data@,
            res.offset() == 0,
    {
        Self { data, pos: 0 }
    }

    /// Returns the current reading position.
    pub fn position(&self) -> (res: usize)
        ensures
            res == self.offset(),
            res <= self.buffer().len(),
    {
        proof { use_type_invariant(self); }
        self.pos
    }

    /// Checks that `n` more bytes are available.
    pub fn ensure(&self, n: usize) -> (res: Result<(), GgufError>)
        ensures
            res is Ok <==> self.offset() + n <= self.buffer().len(),
            res matches Err(e) ==> e is UnexpectedEof,
    {
        proof { use_type_invariant(self); }
        if n > self.data.len() - self.pos {
            Err(GgufError::UnexpectedEof)
        } else {
            Ok(())
        }
    }

    /// Reads `n <= 8` bytes as an unsigned little-endian number.
    fn read_le(&mut self, n: usize) -> (res: u64)
        requires
            n <= 8,
            old(self).offset() + n <= old(self).buffer().len(),
        ensures
            res == le_value(old(self).buffer().subrange(old(self).offset(), old(self).offset() + n)),
            final(self).buffer() == old(self).buffer(),
            final(self).offset() == old(self).offset() + n,
    {
        proof { use_type_invariant(&*self); }
        let p = self.pos;
        let total = self.data.len();
        let ghost b = self.data@;
        let mut v: u64 = 0;
        let mut i: usize = n;
        proof {
            lemma_pow256_le(0, 8);
            assert(b.subrange(p + n, p + n) =~= Seq::<u8>::empty());
        }
        while i > 0
            invariant
                i <= n <= 8,
                p + n <= b.len(),
                b.len() == total,
                b == self.data@,
                v == le_value(b.subrange(p + i, p + n)),
                v < pow256((n - i) as nat),
            decreases i,
        {
            i = i - 1;
            proof {
                let s = b.subrange(p + i, p + n);
                assert(s.drop_first() =~= b.subrange(p + i + 1, p + n));
                assert(s[0] == b[p + i]);
                lemma_pow256_le((n - i) as nat, 8);
                lemma_pow256_eight();
            }
            v = v * 256 + self.data[p + i] as u64;
        }
        self.pos = p + n;
        v
    }

    /// Reads an unsigned 8-bit integer.
    pub fn read_u8(&mut self) -> (res: Result<u8, GgufError>)
        ensures
            final(self).buffer() == old(self).buffer(),
            match spec_read_fixed(old(self).buffer(), old(self).offset(), 1) {
                Ok((v, q)) => res == Ok::<u8, GgufError>(v as u8) && final(self).offset() == q,
                Err(f) => res matches Err(e) && reports(e, f) && final(self).offset() == old(self).offset(),
            },
    {
        proof { use_type_invariant(&*self); }
        self.ensure(1)?;
        let v = self.read_le(1);
        Ok(v as u8)
    }

    /// Reads a signed 8-bit integer.
    pub fn read_i8(&mut self) -> (res: Result<i8, GgufError>)
        ensures
            final(self).buffer() == old(self).buffer(),
            match spec_read_fixed(old(self).buffer(), old(self).offset(), 1) {
                Ok((v, q)) => res == Ok::<i8, GgufError>((v as u8) as i8) && final(self).offset() == q,
                Err(f) => res matches Err(e) && reports(e, f) && final(self).offset() == old(self).offset(),
            },
    {
        proof { use_type_invariant(&*self); }
        self.ensure(1)?;
        let v = self.read_le(1);
        Ok((v as u8) as i8)
    }

    /// Reads a little-endian unsigned 16-bit integer.
    pub fn read_u16(&mut self) -> (res: Result<u16, GgufError>)
        ensures
            final(self).buffer() == old(self).buffer(),
            match spec_read_fixed(old(self).buffer(), old(self).offset(), 2) {
                Ok((v, q)) => res == Ok::<u16, GgufError>(v as u16) && final(self).offset() == q,
                Err(f) => res matches Err(e) && reports(e, f) && final(self).offset() == old(self).offset(),
            },
    {
        proof { use_type_invariant(&*self); }
        self.ensure(2)?;
        let v = self.read_le(2);
        Ok(v as u16)
    }

    /// Reads a little-endian signed 16-bit integer.
    pub fn read_i16(&mut self) -> (res: Result<i16, GgufError>)
        ensures
            final(self).buffer() == old(self).buffer(),
            match spec_read_fixed(old(self).buffer(), old(self).offset(), 2) {
                Ok((v, q)) => res == Ok::<i16, GgufError>((v as u16) as i16) && final(self).offset() == q,
                Err(f) => res matches Err(e) && reports(e, f) && final(self).offset() == old(self).offset(),
            },
    {
        proof { use_type_invariant(&*self); }
        self.ensure(2)?;
        let v = self.read_le(2);
        Ok((v as u16) as i16)
    }

    /// Reads a little-endian unsigned 32-bit integer.
    pub fn read_u32(&mut self) -> (res: Result<u32, GgufError>)
        ensures
            final(self).buffer() == old(self).buffer(),
            match spec_read_fixed(old(self).buffer(), old(self).offset(), 4) {
                Ok((v, q)) => res == Ok::<u32, GgufError>(v as u32) && final(self).offset() == q,
                Err(f) => res matches Err(e) && reports(e, f) && final(self).offset() == old(self).offset(),
            },
    {
        proof { use_type_invariant(&*self); }
        self.ensure(4)?;
        let v = self.read_le(4);
        Ok(v as u32)
    }

    /// Reads a little-endian signed 32-bit integer.
    pub fn read_i32(&mut self) -> (res: Result<i32, GgufError>)
        ensures
            final(self).buffer() == old(self).buffer(),
            match spec_read_fixed(old(self).buffer(), old(self).offset(), 4) {
                Ok((v, q)) => res == Ok::<i32, GgufError>((v as u32) as i32) && final(self).offset() == q,
                Err(f) => res matches Err(e) && reports(e, f) && final(self).offset() == old(self).offset(),
            },
    {
        proof { use_type_invariant(&*self); }
        self.ensure(4)?;
        let v = self.read_le(4);
        Ok((v as u32) as i32)
    }

    /// Reads a little-endian unsigned 64-bit integer.
    pub fn read_u64(&mut self) -> (res: Result<u64, GgufError>)
        ensures
            final(self).buffer() == old(self).buffer(),
            match spec_read_fixed(old(self).buffer(), old(self).offset(), 8) {
                Ok((v, q)) => res == Ok::<u64, GgufError>(v as u64) && final(self).offset() == q,
                Err(f) => res matches Err(e) && reports(e, f) && final(self).offset() == old(self).offset(),
            },
    {
        proof { use_type_invariant(&*self); }
        self.ensure(8)?;
        let v = self.read_le(8);
        Ok(v)
    }

    /// Reads a little-endian signed 64-bit integer.
    pub fn read_i64(&mut self) -> (res: Result<i64, GgufError>)
        ensures
            final(self).buffer() == old(self).buffer(),
            match spec_read_fixed(old(self).buffer(), old(self).offset(), 8) {
                Ok((v, q)) => res == Ok::<i64, GgufError>((v as u64) as i64) && final(self).offset() == q,
                Err(f) => res matches Err(e) && reports(e, f) && final(self).offset() == old(self).offset(),
            },
    {
        proof { use_type_invariant(&*self); }
        self.ensure(8)?;
        let v = self.read_le(8);
        Ok(v as i64)
    }

    /// Reads the bit pattern of a little-endian 32-bit float.
    pub fn read_f32(&mut self) -> (res: Result<u32, GgufError>)
        ensures
            final(self).buffer() == old(self).buffer(),
            match spec_read_fixed(old(self).buffer(), old(self).offset(), 4) {
                Ok((v, q)) => res == Ok::<u32, GgufError>(v as u32) && final(self).offset() == q,
                Err(f) => res matches Err(e) && reports(e, f) && final(self).offset() == old(self).offset(),
            },
    {
        self.read_u32()
    }

    /// Reads the bit pattern of a little-endian 64-bit float.
    pub fn read_f64(&mut self) -> (res: Result<u64, GgufError>)
        ensures
            final(self).buffer() == old(self).buffer(),
            match spec_read_fixed(old(self).buffer(), old(self).offset(), 8) {
                Ok((v, q)) => res == Ok::<u64, GgufError>(v as u64) && final(self).offset() == q,
                Err(f) => res matches Err(e) && reports(e, f) && final(self).offset() == old(self).offset(),
            },
    {
        self.read_u64()
    }

    /// Reads a string: a `u64` byte length followed by that many bytes of
    /// UTF-8 text.
    pub fn read_string(&mut self) -> (res: Result<String, GgufError>)
        ensures
            final(self).buffer() == old(self).buffer(),
            final(self).offset() <= final(self).buffer().len(),
            match spec_read_string(old(self).buffer(), old(self).offset()) {
                Ok((s, q)) => res matches Ok(t) && t@ == s && final(self).offset() == q,
                Err(f) => res matches Err(e) && reports(e, f),
            },
    {
        proof { use_type_invariant(&*self); }
        let len = self.read_u64()? as usize;
        self.ensure(len)?;
        let total = self.data.len();
        proof { use_type_invariant(&*self); }
        let bytes = slice_subrange(self.data, self.pos, self.pos + len);
        match utf8_to_str(bytes) {
            Ok(s) => {
                let t = s.to_owned();
                self.pos = self.pos + len;
                Ok(t)
            },
            Err(reason) => {
                let mut msg = crate::text::owned("invalid UTF-8 in string: ");
                msg.append(utf8_error_text(&reason).as_str());
                Err(GgufError::DecodeError(msg))
            },
        }
    }

    /// Reads one metadata value of the given type; an array is its element
    /// type code, its `u64` length and then its elements.
    pub fn read_value(&mut self, gguf_type: GgufType) -> (res: Result<GgufValue, GgufError>)
        ensures
            final(self).buffer() == old(self).buffer(),
            match spec_read_value(old(self).buffer(), old(self).offset(), gguf_type) {
                Ok((v, q)) => res matches Ok(x) && x@ == v && final(self).offset() == q,
                Err(f) => res matches Err(e) && reports(e, f),
            },
        decreases old(self).buffer().len() - old(self).offset(),
    {
        proof { use_type_invariant(&*self); }
        match gguf_type {
            GgufType::Uint8 => Ok(GgufValue::U8(self.read_u8()?)),
            GgufType::Int8 => Ok(GgufValue::I8(self.read_i8()?)),
            GgufType::Uint16 => Ok(GgufValue::U16(self.read_u16()?)),
            GgufType::Int16 => Ok(GgufValue::I16(self.read_i16()?)),
            GgufType::Uint32 => Ok(GgufValue::U32(self.read_u32()?)),
            GgufType::Int32 => Ok(GgufValue::I32(self.read_i32()?)),
            GgufType::Float32 => Ok(GgufValue::F32(self.read_f32()?)),
            GgufType::Bool => {
                let v = self.read_i8()?;
                Ok(GgufValue::Bool(v != 0))
            },
            GgufType::String => Ok(GgufValue::Str(self.read_string()?)),
            GgufType::Uint64 => Ok(GgufValue::U64(self.read_u64()?)),
            GgufType::Int64 => Ok(GgufValue::I64(self.read_i64()?)),
            GgufType::Float64 => Ok(GgufValue::F64(self.read_f64()?)),
            GgufType::Array => {
                let ghost b = self.data@;
                let ghost p0 = self.pos as int;
                let elem_type_raw = self.read_i32()?;
                let elem_type = GgufType::from_i32(elem_type_raw)?;
                let n = self.read_u64()? as usize;
                let ghost r0 = self.pos as int;
                let mut data: Vec<GgufValue> = Vec::new();
                let mut i: usize = 0;
                proof {
                    assert(values_model(data@) =~= Seq::<ValueModel>::empty());
                    assert(prepend_items(Seq::empty(), spec_read_elems(b, r0, elem_type, n as nat))
                        =~= spec_read_elems(b, r0, elem_type, n as nat)) by {
                        if let Ok((vs, e)) = spec_read_elems(b, r0, elem_type, n as nat) {
                            assert(Seq::<ValueModel>::empty() + vs =~= vs);
                        }
                    }
                }
                while i < n
                    invariant
                        b == self.data@,
                        self.pos <= b.len(),
                        p0 + 12 == r0,
                        r0 <= self.pos,
                        i <= n,
                        old(self).buffer() == b,
                        old(self).offset() == p0,
                        gguf_type == GgufType::Array,
                        spec_read_value(b, p0, GgufType::Array) == match spec_read_elems(b, r0, elem_type, n as nat) {
                            Ok((vs, e)) => Ok((ValueModel::Array(elem_type, vs), e)),
                            Err(f) => Err(f),
                        },
                        prepend_items(values_model(data@), spec_read_elems(b, self.pos as int, elem_type, (n - i) as nat))
                            == spec_read_elems(b, r0, elem_type, n as nat),
                    decreases n - i,
                {
                    proof { use_type_invariant(&*self); }
                    let ghost pos = self.pos as int;
                    proof {
                        lemma_read_value_advances(b, pos, elem_type);
                    }
                    let v = self.read_value(elem_type)?;
                    proof {
                        let q = self.pos as int;
                        let ms = values_model(data@);
                        let m = value_model(v);
                        lemma_values_model_push(data@, v);
                        assert(spec_read_elems(b, pos, elem_type, (n - i) as nat)
                            == prepend_items(seq![m], spec_read_elems(b, q, elem_type, (n - i - 1) as nat)));
                        if let Ok((vs, e)) = spec_read_elems(b, q, elem_type, (n - i - 1) as nat) {
                            assert(ms.push(m) + vs =~= ms + (seq![m] + vs));
                        }
                    }
                    data.push(v);
                    i = i + 1;
                }
                proof {
                    let ms = values_model(data@);
                    assert(ms + Seq::<ValueModel>::empty() =~= ms);
                }
                Ok(GgufValue::Array { elem_type, data })
            },
        }
    }
}

/// The powers of 256 of the integer widths.
pub proof fn lemma_pow256_eight()
    ensures
        pow256(1) == 0x100,
        pow256(2) == 0x1_0000,
        pow256(4) == 0x1_0000_0000,
        pow256(8) == 0x1_0000_0000_0000_0000,
{
    reveal_with_fuel(pow256, 9);
}

/// `pow256` grows with its exponent.
pub proof fn lemma_pow256_le(i: nat, j: nat)
    requires
        i <= j,
    ensures
        1 <= pow256(i) <= pow256(j),
    decreases j,
{
    if j > 0 {
        if i < j {
            lemma_pow256_le(i, (j - 1) as nat);
        } else {
            lemma_pow256_le(0, (j - 1) as nat);
        }
    }
}

/// A boolean metadata value is one byte: it reads as `true` exactly when
/// that byte is not zero, and the reading moves past it; with no byte left it
/// is the end of the bytes.
pub proof fn law_bool_value_byte(b: Seq<u8>, p: int)
    requires
        0 <= p,
    ensures
        p < b.len() ==> spec_read_value(b, p, GgufType::Bool) == Ok::<(ValueModel, int), ReadFailure>(
            (ValueModel::Bool(b[p] != 0), p + 1),
        ),
        p >= b.len() ==> spec_read_value(b, p, GgufType::Bool) == Err::<(ValueModel, int), ReadFailure>(ReadFailure::Eof),
{
    if p < b.len() {
        let s = b.subrange(p, p + 1);
        reveal_with_fuel(le_value, 2);
        assert(s.drop_first() =~= Seq::<u8>::empty());
        assert(s[0] == b[p]);
        assert(le_value(s) == b[p] as nat);
        let v = b[p];
        assert((((v as nat) as u8) as i8 != 0) == (v != 0)) by (bit_vector);
    }
}

/// The number that bytes `p .. p + k` of `b` stand for, least significant
/// byte first, as a sum of the bytes weighted by their places.
pub open spec fn bytes_le(b: Seq<u8>, p: int, k: int) -> nat
    decreases k,
{
    if k <= 0 {
        0
    } else {
        bytes_le(b, p, k - 1) + pow256((k - 1) as nat) * (b[p + k - 1] as nat)
    }
}

/// `le_value` of `k` bytes at `p` is the place-weighted sum of those bytes.
proof fn lemma_le_value_bytes(b: Seq<u8>, p: int, k: int)
    requires
        0 <= p,
        0 <= k,
        p + k <= b.len(),
    ensures
        le_value(b.subrange(p, p + k)) == bytes_le(b, p, k),
    decreases k,
{
    if k > 0 {
        let s = b.subrange(p, p + k);
        lemma_le_value_bytes(b, p + 1, k - 1);
        assert(s.drop_first() =~= b.subrange(p + 1, p + k));
        lemma_bytes_le_shift(b, p, k);
    }
}

/// Splitting off the lowest byte of a place-weighted sum.
proof fn lemma_bytes_le_shift(b: Seq<u8>, p: int, k: int)
    requires
        k > 0,
    ensures
        bytes_le(b, p, k) == b[p] + 256 * bytes_le(b, p + 1, k - 1),
    decreases k,
{
    if k > 1 {
        lemma_bytes_le_shift(b, p, k - 1);
        let w = pow256((k - 2) as nat);
        let x = b[p + k - 1] as nat;
        assert(pow256((k - 1) as nat) == 256 * w);
        assert(bytes_le(b, p, k) == bytes_le(b, p, k - 1) + pow256((k - 1) as nat) * x);
        assert(bytes_le(b, p + 1, k - 1) == bytes_le(b, p + 1, k - 2) + w * x);
        assert((256 * w) * x == 256 * (w * x)) by (nonlinear_arith);
        assert(bytes_le(b, p, k) == b[p] + 256 * bytes_le(b, p + 1, k - 1));
    } else {
        assert(pow256(0) == 1);
        assert(bytes_le(b, p + 1, 0) == 0);
        assert(bytes_le(b, p, 0) == 0);
        assert(bytes_le(b, p, 1) == bytes_le(b, p, 0) + pow256(0) * (b[p] as nat));
        assert(bytes_le(b, p, 1) == b[p]);
    }
}

/// A numeric metadata value is read from its bytes, least significant first,
/// and the reading moves past them: one byte for the 8-bit types, two for
/// the 16-bit ones, four for the 32-bit ones (a float as its bit pattern) and
/// eight for the 64-bit ones; signed types take the two's complement of the
/// same bits.
pub proof fn law_numeric_value_bytes(b: Seq<u8>, p: int)
    requires
        0 <= p,
    ensures
        p + 1 <= b.len() ==> spec_read_value(b, p, GgufType::Uint8) == Ok::<(ValueModel, int), ReadFailure>(
            (ValueModel::U8(b[p]), p + 1),
        ) && spec_read_value(b, p, GgufType::Int8) == Ok::<(ValueModel, int), ReadFailure>(
            (ValueModel::I8(b[p] as i8), p + 1),
        ),
        p + 2 <= b.len() ==> spec_read_value(b, p, GgufType::Uint16) == Ok::<(ValueModel, int), ReadFailure>(
            (ValueModel::U16((b[p] + 256 * b[p + 1]) as u16), p + 2),
        ),
        p + 4 <= b.len() ==> {
            let v = b[p] + 256 * b[p + 1] + 65536 * b[p + 2] + 16777216 * b[p + 3];
            &&& spec_read_value(b, p, GgufType::Uint32) == Ok::<(ValueModel, int), ReadFailure>(
                (ValueModel::U32(v as u32), p + 4),
            )
            &&& spec_read_value(b, p, GgufType::Int32) == Ok::<(ValueModel, int), ReadFailure>(
                (ValueModel::I32((v as u32) as i32), p + 4),
            )
            &&& spec_read_value(b, p, GgufType::Float32) == Ok::<(ValueModel, int), ReadFailure>(
                (ValueModel::F32(v as u32), p + 4),
            )
        },
        p + 8 <= b.len() ==> {
            let v = bytes_le(b, p, 8);
            &&& v == b[p] + 256 * b[p + 1] + 65536 * b[p + 2] + 16777216 * b[p + 3] + 0x1_0000_0000 * b[p + 4]
                + 0x100_0000_0000 * b[p + 5] + 0x1_0000_0000_0000 * b[p + 6] + 0x100_0000_0000_0000 * b[p + 7]
            &&& spec_read_value(b, p, GgufType::Uint64) == Ok::<(ValueModel, int), ReadFailure>(
                (ValueModel::U64(v as u64), p + 8),
            )
            &&& spec_read_value(b, p, GgufType::Int64) == Ok::<(ValueModel, int), ReadFailure>(
                (ValueModel::I64((v as u64) as i64), p + 8),
            )
        },
        p + 1 > b.len() ==> spec_read_value(b, p, GgufType::Uint8) == Err::<(ValueModel, int), ReadFailure>(ReadFailure::Eof),
{
    reveal_with_fuel(pow256, 9);
    reveal_with_fuel(bytes_le, 9);
    if p + 1 <= b.len() {
        lemma_le_value_bytes(b, p, 1);
        let x = b[p];
        assert(bytes_le(b, p, 1) == bytes_le(b, p, 0) + pow256(0) * (b[p] as nat));
        assert(bytes_le(b, p, 0) == 0);
        assert(pow256(0) == 1);
        assert(pow256(0) * (x as nat) == x as nat) by (nonlinear_arith)
            requires
                pow256(0) == 1;
        assert(bytes_le(b, p, 1) == x);
        assert(le_value(b.subrange(p, p + 1)) == bytes_le(b, p, 1));
        assert(le_value(b.subrange(p, p + 1)) == x);
        assert(spec_read_fixed(b, p, 1) == Ok::<(nat, int), ReadFailure>((x as nat, p + 1)));
        assert((x as nat) as u8 == x);
        assert(((x as nat) as u8) as i8 == x as i8);
    }
    if p + 2 <= b.len() {
        lemma_le_value_bytes(b, p, 2);
        assert(bytes_le(b, p, 1) == bytes_le(b, p, 0) + pow256(0) * (b[p] as nat));
        assert(bytes_le(b, p, 2) == bytes_le(b, p, 1) + pow256(1) * (b[p + 1] as nat));
        assert(pow256(0) == 1 && pow256(1) == 256);
        let y = b[p + 1] as nat;
        let z = b[p] as nat;
        assert(pow256(0) * z == z && pow256(1) * y == 256 * y) by (nonlinear_arith)
            requires
                pow256(0) == 1,
                pow256(1) == 256;
        assert(bytes_le(b, p, 2) == b[p] + 256 * b[p + 1]);
        assert(spec_read_fixed(b, p, 2) == Ok::<(nat, int), ReadFailure>(((b[p] + 256 * b[p + 1]) as nat, p + 2)));
    }
    if p + 4 <= b.len() {
        lemma_le_value_bytes(b, p, 4);
    }
    if p + 8 <= b.len() {
        lemma_le_value_bytes(b, p, 8);
    }
}

} // verus!

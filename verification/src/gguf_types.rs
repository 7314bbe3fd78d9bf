//! Value and tensor type codes of the GGUF format, its error type and
//! alignment arithmetic.

use vstd::prelude::*;

use crate::text::{message_with_number, signed_decimal};
use vstd::arithmetic::power2::{pow2, lemma_pow2_pos};
use vstd::bits::{low_bits_mask, lemma_usize_low_bits_mask_is_mod};

verus! {

/// GGUF magic bytes: "GGUF" read as a little-endian `u32`.
pub const GGUF_MAGIC: u32 = 0x4655_4747;

/// Supported GGUF version.
pub const GGUF_VERSION: u32 = 3;

/// Default alignment for tensor data.
pub const GGUF_DEFAULT_ALIGNMENT: usize = 32;

/// GGUF metadata value types (13 total), in the order of their codes.
#[derive(Debug, Clone, Copy, PartialEq, Eq, Structural)]
pub enum GgufType {
    /// Unsigned 8-bit integer.
    Uint8,
    /// Signed 8-bit integer.
    Int8,
    /// Unsigned 16-bit integer.
    Uint16,
    /// Signed 16-bit integer.
    Int16,
    /// Unsigned 32-bit integer.
    Uint32,
    /// Signed 32-bit integer.
    Int32,
    /// 32-bit IEEE 754 float.
    Float32,
    /// Boolean (stored as int8).
    Bool,
    /// UTF-8 string.
    String,
    /// Array of homogeneous values.
    Array,
    /// Unsigned 64-bit integer.
    Uint64,
    /// Signed 64-bit integer.
    Int64,
    /// 64-bit IEEE 754 float.
    Float64,
}

/// The code under which a value type is stored in a GGUF file.
pub open spec fn gguf_type_code(t: GgufType) -> i32 {
    match t {
        GgufType::Uint8 => 0,
        GgufType::Int8 => 1,
        GgufType::Uint16 => 2,
        GgufType::Int16 => 3,
        GgufType::Uint32 => 4,
        GgufType::Int32 => 5,
        GgufType::Float32 => 6,
        GgufType::Bool => 7,
        GgufType::String => 8,
        GgufType::Array => 9,
        GgufType::Uint64 => 10,
        GgufType::Int64 => 11,
        GgufType::Float64 => 12,
    }
}

/// The value type stored under a code, if the code names one.
pub open spec fn gguf_type_of_code(v: i32) -> Option<GgufType> {
    match v {
        0 => Some(GgufType::Uint8),
        1 => Some(GgufType::Int8),
        2 => Some(GgufType::Uint16),
        3 => Some(GgufType::Int16),
        4 => Some(GgufType::Uint32),
        5 => Some(GgufType::Int32),
        6 => Some(GgufType::Float32),
        7 => Some(GgufType::Bool),
        8 => Some(GgufType::String),
        9 => Some(GgufType::Array),
        10 => Some(GgufType::Uint64),
        11 => Some(GgufType::Int64),
        12 => Some(GgufType::Float64),
        _ => None,
    }
}

/// Byte size of one value of a fixed-size type; 0 for strings and arrays.
pub open spec fn gguf_type_size(t: GgufType) -> nat {
    match t {
        GgufType::Uint8 | GgufType::Int8 | GgufType::Bool => 1,
        GgufType::Uint16 | GgufType::Int16 => 2,
        GgufType::Uint32 | GgufType::Int32 | GgufType::Float32 => 4,
        GgufType::Uint64 | GgufType::Int64 | GgufType::Float64 => 8,
        GgufType::String | GgufType::Array => 0,
    }
}

/// Human-readable name of a value type.
pub open spec fn gguf_type_name(t: GgufType) -> Seq<char> {
    match t {
        GgufType::Uint8 => "u8"@,
        GgufType::Int8 => "i8"@,
        GgufType::Uint16 => "u16"@,
        GgufType::Int16 => "i16"@,
        GgufType::Uint32 => "u32"@,
        GgufType::Int32 => "i32"@,
        GgufType::Float32 => "f32"@,
        GgufType::Bool => "bool"@,
        GgufType::String => "str"@,
        GgufType::Array => "arr"@,
        GgufType::Uint64 => "u64"@,
        GgufType::Int64 => "i64"@,
        GgufType::Float64 => "f64"@,
    }
}

/// Decoding the code of a value type gives back that type, and a code decodes
/// to a type exactly when it is the code of that type.
pub proof fn lemma_gguf_type_code_roundtrip(t: GgufType, v: i32)
    ensures
        gguf_type_of_code(gguf_type_code(t)) == Some(t),
        gguf_type_of_code(v) == Some(t) <==> gguf_type_code(t) == v,
{
}

/// The name of a variant, as `Debug` prints it.
pub open spec fn gguf_type_variant_name(t: GgufType) -> Seq<char> {
    match t {
        GgufType::Uint8 => "Uint8"@,
        GgufType::Int8 => "Int8"@,
        GgufType::Uint16 => "Uint16"@,
        GgufType::Int16 => "Int16"@,
        GgufType::Uint32 => "Uint32"@,
        GgufType::Int32 => "Int32"@,
        GgufType::Float32 => "Float32"@,
        GgufType::Bool => "Bool"@,
        GgufType::String => "String"@,
        GgufType::Array => "Array"@,
        GgufType::Uint64 => "Uint64"@,
        GgufType::Int64 => "Int64"@,
        GgufType::Float64 => "Float64"@,
    }
}

impl GgufType {
    /// The code under which this type is stored in a GGUF file.
    pub fn code(self) -> (res: i32)
        ensures
            res == gguf_type_code(self),
    {
        match self {
            GgufType::Uint8 => 0,
            GgufType::Int8 => 1,
            GgufType::Uint16 => 2,
            GgufType::Int16 => 3,
            GgufType::Uint32 => 4,
            GgufType::Int32 => 5,
            GgufType::Float32 => 6,
            GgufType::Bool => 7,
            GgufType::String => 8,
            GgufType::Array => 9,
            GgufType::Uint64 => 10,
            GgufType::Int64 => 11,
            GgufType::Float64 => 12,
        }
    }

    /// The name of this type's variant, as `Debug` prints it.
    pub fn variant_name(self) -> (res: &'static str)
        ensures
            res@ == gguf_type_variant_name(self),
    {
        match self {
            GgufType::Uint8 => "Uint8",
            GgufType::Int8 => "Int8",
            GgufType::Uint16 => "Uint16",
            GgufType::Int16 => "Int16",
            GgufType::Uint32 => "Uint32",
            GgufType::Int32 => "Int32",
            GgufType::Float32 => "Float32",
            GgufType::Bool => "Bool",
            GgufType::String => "String",
            GgufType::Array => "Array",
            GgufType::Uint64 => "Uint64",
            GgufType::Int64 => "Int64",
            GgufType::Float64 => "Float64",
        }
    }

    /// Try to convert from a raw i32 value.
    ///
    /// Fails with a `DecodeError` naming the code when it is not a valid
    /// GGUF value type.
    pub fn from_i32(v: i32) -> (res: Result<Self, GgufError>)
        ensures
            match gguf_type_of_code(v) {
                Some(t) => res == Ok::<GgufType, GgufError>(t),
                None => res matches Err(GgufError::DecodeError(msg))
                    && msg@ == "unknown gguf_type: "@ + signed_decimal(v as int),
            },
    {
        match v {
            0 => Ok(GgufType::Uint8),
            1 => Ok(GgufType::Int8),
            2 => Ok(GgufType::Uint16),
            3 => Ok(GgufType::Int16),
            4 => Ok(GgufType::Uint32),
            5 => Ok(GgufType::Int32),
            6 => Ok(GgufType::Float32),
            7 => Ok(GgufType::Bool),
            8 => Ok(GgufType::String),
            9 => Ok(GgufType::Array),
            10 => Ok(GgufType::Uint64),
            11 => Ok(GgufType::Int64),
            12 => Ok(GgufType::Float64),
            _ => Err(GgufError::DecodeError(message_with_number("unknown gguf_type: ", v as i64))),
        }
    }

    /// Returns the size in bytes of a single value of this type.
    /// Returns 0 for variable-size types (String, Array).
    pub fn size_of(self) -> (res: usize)
        ensures
            res == gguf_type_size(self),
    {
        match self {
            GgufType::Uint8 | GgufType::Int8 | GgufType::Bool => 1,
            GgufType::Uint16 | GgufType::Int16 => 2,
            GgufType::Uint32 | GgufType::Int32 | GgufType::Float32 => 4,
            GgufType::Uint64 | GgufType::Int64 | GgufType::Float64 => 8,
            GgufType::String | GgufType::Array => 0,
        }
    }

    /// Returns the human-readable name of this type.
    pub fn name(self) -> (res: &'static str)
        ensures
            res@ == gguf_type_name(self),
    {
        match self {
            GgufType::Uint8 => "u8",
            GgufType::Int8 => "i8",
            GgufType::Uint16 => "u16",
            GgufType::Int16 => "i16",
            GgufType::Uint32 => "u32",
            GgufType::Int32 => "i32",
            GgufType::Float32 => "f32",
            GgufType::Bool => "bool",
            GgufType::String => "str",
            GgufType::Array => "arr",
            GgufType::Uint64 => "u64",
            GgufType::Int64 => "i64",
            GgufType::Float64 => "f64",
        }
    }
}

/// GGML tensor data types (stored as i32 codes in GGUF files).
#[allow(non_camel_case_types)]
#[derive(Debug, Clone, Copy, PartialEq, Eq, Structural)]
pub enum GgmlType {
    /// 32-bit float.
    F32,
    /// 16-bit float.
    F16,
    /// 4-bit quantized (variant 0).
    Q4_0,
    /// 4-bit quantized (variant 1).
    Q4_1,
    /// 5-bit quantized (variant 0).
    Q5_0,
    /// 5-bit quantized (variant 1).
    Q5_1,
    /// 8-bit quantized (variant 0).
    Q8_0,
    /// 8-bit quantized (variant 1).
    Q8_1,
    /// 2-bit K-quants.
    Q2_K,
    /// 3-bit K-quants.
    Q3_K,
    /// 4-bit K-quants.
    Q4_K,
    /// 5-bit K-quants.
    Q5_K,
    /// 6-bit K-quants.
    Q6_K,
    /// 8-bit K-quants.
    Q8_K,
    /// IQ2 XXS.
    Iq2Xxs,
    /// IQ2 XS.
    Iq2Xs,
    /// IQ3 XXS.
    Iq3Xxs,
    /// IQ1 S.
    Iq1S,
    /// IQ4 NL.
    Iq4Nl,
    /// IQ3 S.
    Iq3S,
    /// IQ2 S.
    Iq2S,
    /// IQ4 XS.
    Iq4Xs,
    /// 8-bit integer.
    I8,
    /// 16-bit integer.
    I16,
    /// 32-bit integer.
    I32,
    /// 64-bit integer.
    I64,
    /// 64-bit float.
    F64,
    /// IQ1 M.
    Iq1M,
    /// Brain float 16.
    Bf16,
    /// Ternary quantized 1.0.
    Tq1_0,
    /// Ternary quantized 2.0.
    Tq2_0,
    /// MXFP4.
    Mxfp4,
    /// NVFP4.
    Nvfp4,
    /// 1-bit quantized.
    Q1_0,
}

/// The code under which a tensor type is stored in a GGUF file.
pub open spec fn ggml_type_code(t: GgmlType) -> i32 {
    match t {
        GgmlType::F32 => 0,
        GgmlType::F16 => 1,
        GgmlType::Q4_0 => 2,
        GgmlType::Q4_1 => 3,
        GgmlType::Q5_0 => 6,
        GgmlType::Q5_1 => 7,
        GgmlType::Q8_0 => 8,
        GgmlType::Q8_1 => 9,
        GgmlType::Q2_K => 10,
        GgmlType::Q3_K => 11,
        GgmlType::Q4_K => 12,
        GgmlType::Q5_K => 13,
        GgmlType::Q6_K => 14,
        GgmlType::Q8_K => 15,
        GgmlType::Iq2Xxs => 16,
        GgmlType::Iq2Xs => 17,
        GgmlType::Iq3Xxs => 18,
        GgmlType::Iq1S => 19,
        GgmlType::Iq4Nl => 20,
        GgmlType::Iq3S => 21,
        GgmlType::Iq2S => 22,
        GgmlType::Iq4Xs => 23,
        GgmlType::I8 => 24,
        GgmlType::I16 => 25,
        GgmlType::I32 => 26,
        GgmlType::I64 => 27,
        GgmlType::F64 => 28,
        GgmlType::Iq1M => 29,
        GgmlType::Bf16 => 30,
        GgmlType::Tq1_0 => 34,
        GgmlType::Tq2_0 => 35,
        GgmlType::Mxfp4 => 39,
        GgmlType::Nvfp4 => 40,
        GgmlType::Q1_0 => 41,
    }
}

/// The tensor type stored under a code, if the code names one.
pub open spec fn ggml_type_of_code(v: i32) -> Option<GgmlType> {
    match v {
        0 => Some(GgmlType::F32),
        1 => Some(GgmlType::F16),
        2 => Some(GgmlType::Q4_0),
        3 => Some(GgmlType::Q4_1),
        6 => Some(GgmlType::Q5_0),
        7 => Some(GgmlType::Q5_1),
        8 => Some(GgmlType::Q8_0),
        9 => Some(GgmlType::Q8_1),
        10 => Some(GgmlType::Q2_K),
        11 => Some(GgmlType::Q3_K),
        12 => Some(GgmlType::Q4_K),
        13 => Some(GgmlType::Q5_K),
        14 => Some(GgmlType::Q6_K),
        15 => Some(GgmlType::Q8_K),
        16 => Some(GgmlType::Iq2Xxs),
        17 => Some(GgmlType::Iq2Xs),
        18 => Some(GgmlType::Iq3Xxs),
        19 => Some(GgmlType::Iq1S),
        20 => Some(GgmlType::Iq4Nl),
        21 => Some(GgmlType::Iq3S),
        22 => Some(GgmlType::Iq2S),
        23 => Some(GgmlType::Iq4Xs),
        24 => Some(GgmlType::I8),
        25 => Some(GgmlType::I16),
        26 => Some(GgmlType::I32),
        27 => Some(GgmlType::I64),
        28 => Some(GgmlType::F64),
        29 => Some(GgmlType::Iq1M),
        30 => Some(GgmlType::Bf16),
        34 => Some(GgmlType::Tq1_0),
        35 => Some(GgmlType::Tq2_0),
        39 => Some(GgmlType::Mxfp4),
        40 => Some(GgmlType::Nvfp4),
        41 => Some(GgmlType::Q1_0),
        _ => None,
    }
}

/// Human-readable name of a tensor type.
pub open spec fn ggml_type_name(t: GgmlType) -> Seq<char> {
    match t {
        GgmlType::F32 => "f32"@,
        GgmlType::F16 => "f16"@,
        GgmlType::Q4_0 => "q4_0"@,
        GgmlType::Q4_1 => "q4_1"@,
        GgmlType::Q5_0 => "q5_0"@,
        GgmlType::Q5_1 => "q5_1"@,
        GgmlType::Q8_0 => "q8_0"@,
        GgmlType::Q8_1 => "q8_1"@,
        GgmlType::Q2_K => "q2_k"@,
        GgmlType::Q3_K => "q3_k"@,
        GgmlType::Q4_K => "q4_k"@,
        GgmlType::Q5_K => "q5_k"@,
        GgmlType::Q6_K => "q6_k"@,
        GgmlType::Q8_K => "q8_k"@,
        GgmlType::Iq2Xxs => "iq2_xxs"@,
        GgmlType::Iq2Xs => "iq2_xs"@,
        GgmlType::Iq3Xxs => "iq3_xxs"@,
        GgmlType::Iq1S => "iq1_s"@,
        GgmlType::Iq4Nl => "iq4_nl"@,
        GgmlType::Iq3S => "iq3_s"@,
        GgmlType::Iq2S => "iq2_s"@,
        GgmlType::Iq4Xs => "iq4_xs"@,
        GgmlType::I8 => "i8"@,
        GgmlType::I16 => "i16"@,
        GgmlType::I32 => "i32"@,
        GgmlType::I64 => "i64"@,
        GgmlType::F64 => "f64"@,
        GgmlType::Iq1M => "iq1_m"@,
        GgmlType::Bf16 => "bf16"@,
        GgmlType::Tq1_0 => "tq1_0"@,
        GgmlType::Tq2_0 => "tq2_0"@,
        GgmlType::Mxfp4 => "mxfp4"@,
        GgmlType::Nvfp4 => "nvfp4"@,
        GgmlType::Q1_0 => "q1_0"@,
    }
}

/// Decoding the code of a tensor type gives back that type, and a code decodes
/// to a type exactly when it is the code of that type.
pub proof fn lemma_ggml_type_code_roundtrip(t: GgmlType, v: i32)
    ensures
        ggml_type_of_code(ggml_type_code(t)) == Some(t),
        ggml_type_of_code(v) == Some(t) <==> ggml_type_code(t) == v,
{
}

/// The name of a variant, as `Debug` prints it.
pub open spec fn ggml_type_variant_name(t: GgmlType) -> Seq<char> {
    match t {
        GgmlType::F32 => "F32"@,
        GgmlType::F16 => "F16"@,
        GgmlType::Q4_0 => "Q4_0"@,
        GgmlType::Q4_1 => "Q4_1"@,
        GgmlType::Q5_0 => "Q5_0"@,
        GgmlType::Q5_1 => "Q5_1"@,
        GgmlType::Q8_0 => "Q8_0"@,
        GgmlType::Q8_1 => "Q8_1"@,
        GgmlType::Q2_K => "Q2_K"@,
        GgmlType::Q3_K => "Q3_K"@,
        GgmlType::Q4_K => "Q4_K"@,
        GgmlType::Q5_K => "Q5_K"@,
        GgmlType::Q6_K => "Q6_K"@,
        GgmlType::Q8_K => "Q8_K"@,
        GgmlType::Iq2Xxs => "Iq2Xxs"@,
        GgmlType::Iq2Xs => "Iq2Xs"@,
        GgmlType::Iq3Xxs => "Iq3Xxs"@,
        GgmlType::Iq1S => "Iq1S"@,
        GgmlType::Iq4Nl => "Iq4Nl"@,
        GgmlType::Iq3S => "Iq3S"@,
        GgmlType::Iq2S => "Iq2S"@,
        GgmlType::Iq4Xs => "Iq4Xs"@,
        GgmlType::I8 => "I8"@,
        GgmlType::I16 => "I16"@,
        GgmlType::I32 => "I32"@,
        GgmlType::I64 => "I64"@,
        GgmlType::F64 => "F64"@,
        GgmlType::Iq1M => "Iq1M"@,
        GgmlType::Bf16 => "Bf16"@,
        GgmlType::Tq1_0 => "Tq1_0"@,
        GgmlType::Tq2_0 => "Tq2_0"@,
        GgmlType::Mxfp4 => "Mxfp4"@,
        GgmlType::Nvfp4 => "Nvfp4"@,
        GgmlType::Q1_0 => "Q1_0"@,
    }
}

impl GgmlType {
    /// The code under which this type is stored in a GGUF file.
    pub fn code(self) -> (res: i32)
        ensures
            res == ggml_type_code(self),
    {
        match self {
            GgmlType::F32 => 0,
            GgmlType::F16 => 1,
            GgmlType::Q4_0 => 2,
            GgmlType::Q4_1 => 3,
            GgmlType::Q5_0 => 6,
            GgmlType::Q5_1 => 7,
            GgmlType::Q8_0 => 8,
            GgmlType::Q8_1 => 9,
            GgmlType::Q2_K => 10,
            GgmlType::Q3_K => 11,
            GgmlType::Q4_K => 12,
            GgmlType::Q5_K => 13,
            GgmlType::Q6_K => 14,
            GgmlType::Q8_K => 15,
            GgmlType::Iq2Xxs => 16,
            GgmlType::Iq2Xs => 17,
            GgmlType::Iq3Xxs => 18,
            GgmlType::Iq1S => 19,
            GgmlType::Iq4Nl => 20,
            GgmlType::Iq3S => 21,
            GgmlType::Iq2S => 22,
            GgmlType::Iq4Xs => 23,
            GgmlType::I8 => 24,
            GgmlType::I16 => 25,
            GgmlType::I32 => 26,
            GgmlType::I64 => 27,
            GgmlType::F64 => 28,
            GgmlType::Iq1M => 29,
            GgmlType::Bf16 => 30,
            GgmlType::Tq1_0 => 34,
            GgmlType::Tq2_0 => 35,
            GgmlType::Mxfp4 => 39,
            GgmlType::Nvfp4 => 40,
            GgmlType::Q1_0 => 41,
        }
    }

    /// The name of this type's variant, as `Debug` prints it.
    pub fn variant_name(self) -> (res: &'static str)
        ensures
            res@ == ggml_type_variant_name(self),
    {
        match self {
            GgmlType::F32 => "F32",
            GgmlType::F16 => "F16",
            GgmlType::Q4_0 => "Q4_0",
            GgmlType::Q4_1 => "Q4_1",
            GgmlType::Q5_0 => "Q5_0",
            GgmlType::Q5_1 => "Q5_1",
            GgmlType::Q8_0 => "Q8_0",
            GgmlType::Q8_1 => "Q8_1",
            GgmlType::Q2_K => "Q2_K",
            GgmlType::Q3_K => "Q3_K",
            GgmlType::Q4_K => "Q4_K",
            GgmlType::Q5_K => "Q5_K",
            GgmlType::Q6_K => "Q6_K",
            GgmlType::Q8_K => "Q8_K",
            GgmlType::Iq2Xxs => "Iq2Xxs",
            GgmlType::Iq2Xs => "Iq2Xs",
            GgmlType::Iq3Xxs => "Iq3Xxs",
            GgmlType::Iq1S => "Iq1S",
            GgmlType::Iq4Nl => "Iq4Nl",
            GgmlType::Iq3S => "Iq3S",
            GgmlType::Iq2S => "Iq2S",
            GgmlType::Iq4Xs => "Iq4Xs",
            GgmlType::I8 => "I8",
            GgmlType::I16 => "I16",
            GgmlType::I32 => "I32",
            GgmlType::I64 => "I64",
            GgmlType::F64 => "F64",
            GgmlType::Iq1M => "Iq1M",
            GgmlType::Bf16 => "Bf16",
            GgmlType::Tq1_0 => "Tq1_0",
            GgmlType::Tq2_0 => "Tq2_0",
            GgmlType::Mxfp4 => "Mxfp4",
            GgmlType::Nvfp4 => "Nvfp4",
            GgmlType::Q1_0 => "Q1_0",
        }
    }

    /// Try to convert from a raw i32 value.
    ///
    /// Fails with a `DecodeError` naming the code when it is not a valid
    /// GGML tensor type.
    pub fn from_i32(v: i32) -> (res: Result<Self, GgufError>)
        ensures
            match ggml_type_of_code(v) {
                Some(t) => res == Ok::<GgmlType, GgufError>(t),
                None => res matches Err(GgufError::DecodeError(msg))
                    && msg@ == "unknown ggml_type: "@ + signed_decimal(v as int),
            },
    {
        match v {
            0 => Ok(GgmlType::F32),
            1 => Ok(GgmlType::F16),
            2 => Ok(GgmlType::Q4_0),
            3 => Ok(GgmlType::Q4_1),
            6 => Ok(GgmlType::Q5_0),
            7 => Ok(GgmlType::Q5_1),
            8 => Ok(GgmlType::Q8_0),
            9 => Ok(GgmlType::Q8_1),
            10 => Ok(GgmlType::Q2_K),
            11 => Ok(GgmlType::Q3_K),
            12 => Ok(GgmlType::Q4_K),
            13 => Ok(GgmlType::Q5_K),
            14 => Ok(GgmlType::Q6_K),
            15 => Ok(GgmlType::Q8_K),
            16 => Ok(GgmlType::Iq2Xxs),
            17 => Ok(GgmlType::Iq2Xs),
            18 => Ok(GgmlType::Iq3Xxs),
            19 => Ok(GgmlType::Iq1S),
            20 => Ok(GgmlType::Iq4Nl),
            21 => Ok(GgmlType::Iq3S),
            22 => Ok(GgmlType::Iq2S),
            23 => Ok(GgmlType::Iq4Xs),
            24 => Ok(GgmlType::I8),
            25 => Ok(GgmlType::I16),
            26 => Ok(GgmlType::I32),
            27 => Ok(GgmlType::I64),
            28 => Ok(GgmlType::F64),
            29 => Ok(GgmlType::Iq1M),
            30 => Ok(GgmlType::Bf16),
            34 => Ok(GgmlType::Tq1_0),
            35 => Ok(GgmlType::Tq2_0),
            39 => Ok(GgmlType::Mxfp4),
            40 => Ok(GgmlType::Nvfp4),
            41 => Ok(GgmlType::Q1_0),
            _ => Err(GgufError::DecodeError(message_with_number("unknown ggml_type: ", v as i64))),
        }
    }

    /// Returns the human-readable name.
    pub fn name(self) -> (res: &'static str)
        ensures
            res@ == ggml_type_name(self),
    {
        match self {
            GgmlType::F32 => "f32",
            GgmlType::F16 => "f16",
            GgmlType::Q4_0 => "q4_0",
            GgmlType::Q4_1 => "q4_1",
            GgmlType::Q5_0 => "q5_0",
            GgmlType::Q5_1 => "q5_1",
            GgmlType::Q8_0 => "q8_0",
            GgmlType::Q8_1 => "q8_1",
            GgmlType::Q2_K => "q2_k",
            GgmlType::Q3_K => "q3_k",
            GgmlType::Q4_K => "q4_k",
            GgmlType::Q5_K => "q5_k",
            GgmlType::Q6_K => "q6_k",
            GgmlType::Q8_K => "q8_k",
            GgmlType::Iq2Xxs => "iq2_xxs",
            GgmlType::Iq2Xs => "iq2_xs",
            GgmlType::Iq3Xxs => "iq3_xxs",
            GgmlType::Iq1S => "iq1_s",
            GgmlType::Iq4Nl => "iq4_nl",
            GgmlType::Iq3S => "iq3_s",
            GgmlType::Iq2S => "iq2_s",
            GgmlType::Iq4Xs => "iq4_xs",
            GgmlType::I8 => "i8",
            GgmlType::I16 => "i16",
            GgmlType::I32 => "i32",
            GgmlType::I64 => "i64",
            GgmlType::F64 => "f64",
            GgmlType::Iq1M => "iq1_m",
            GgmlType::Bf16 => "bf16",
            GgmlType::Tq1_0 => "tq1_0",
            GgmlType::Tq2_0 => "tq2_0",
            GgmlType::Mxfp4 => "mxfp4",
            GgmlType::Nvfp4 => "nvfp4",
            GgmlType::Q1_0 => "q1_0",
        }
    }
}

/// A character of a type name: a lowercase ASCII letter, a digit or `_`.
pub open spec fn name_char(c: char) -> bool {
    ('a' <= c && c <= 'z') || ('0' <= c && c <= '9') || c == '_'
}

/// The character at position `i` of a text, as a number, or 0 past its end.
pub open spec fn char_code_at(s: Seq<char>, i: int) -> int {
    if 0 <= i < s.len() { s[i] as int } else { 0 }
}

/// A number that determines a text of at most seven ASCII characters: its
/// length and its characters.
pub open spec fn short_text_key(s: Seq<char>) -> int {
    s.len() + 8 * (char_code_at(s, 0) + 256 * (char_code_at(s, 1) + 256 * (char_code_at(s, 2) + 256 * (
    char_code_at(s, 3) + 256 * (char_code_at(s, 4) + 256 * (char_code_at(s, 5) + 256 * char_code_at(s, 6)))))))
}

/// The names of the value types are distinct and non-empty, and made of
/// lowercase ASCII letters, digits and `_`.
pub proof fn law_gguf_type_names(t1: GgufType, t2: GgufType)
    ensures
        t1 != t2 ==> gguf_type_name(t1) != gguf_type_name(t2),
        gguf_type_name(t1).len() > 0,
        forall|i: int| 0 <= i < gguf_type_name(t1).len() ==> #[trigger] name_char(gguf_type_name(t1)[i]),
{
    reveal_strlit("arr");
    reveal_strlit("bool");
    reveal_strlit("f32");
    reveal_strlit("f64");
    reveal_strlit("i16");
    reveal_strlit("i32");
    reveal_strlit("i64");
    reveal_strlit("i8");
    reveal_strlit("str");
    reveal_strlit("u16");
    reveal_strlit("u32");
    reveal_strlit("u64");
    reveal_strlit("u8");
    assert(short_text_key(gguf_type_name(t1)) != short_text_key(gguf_type_name(t2)) || t1 == t2);
}

/// The names of the tensor types are distinct and non-empty, and made of
/// lowercase ASCII letters, digits and `_`.
pub proof fn law_ggml_type_names(t1: GgmlType, t2: GgmlType)
    ensures
        t1 != t2 ==> ggml_type_name(t1) != ggml_type_name(t2),
        ggml_type_name(t1).len() > 0,
        forall|i: int| 0 <= i < ggml_type_name(t1).len() ==> #[trigger] name_char(ggml_type_name(t1)[i]),
{
    reveal_strlit("bf16");
    reveal_strlit("f16");
    reveal_strlit("f32");
    reveal_strlit("f64");
    reveal_strlit("i16");
    reveal_strlit("i32");
    reveal_strlit("i64");
    reveal_strlit("i8");
    reveal_strlit("iq1_m");
    reveal_strlit("iq1_s");
    reveal_strlit("iq2_s");
    reveal_strlit("iq2_xs");
    reveal_strlit("iq2_xxs");
    reveal_strlit("iq3_s");
    reveal_strlit("iq3_xxs");
    reveal_strlit("iq4_nl");
    reveal_strlit("iq4_xs");
    reveal_strlit("mxfp4");
    reveal_strlit("nvfp4");
    reveal_strlit("q1_0");
    reveal_strlit("q2_k");
    reveal_strlit("q3_k");
    reveal_strlit("q4_0");
    reveal_strlit("q4_1");
    reveal_strlit("q4_k");
    reveal_strlit("q5_0");
    reveal_strlit("q5_1");
    reveal_strlit("q5_k");
    reveal_strlit("q6_k");
    reveal_strlit("q8_0");
    reveal_strlit("q8_1");
    reveal_strlit("q8_k");
    reveal_strlit("tq1_0");
    reveal_strlit("tq2_0");
    assert(short_text_key(ggml_type_name(t1)) != short_text_key(ggml_type_name(t2)) || t1 == t2);
}

#[verifier::external_type_specification]
#[verifier::external_body]
pub struct ExIoError(std::io::Error);

/// Errors that can occur when reading GGUF files.
#[derive(Debug)]
pub enum GgufError {
    /// The file could not be opened or read.
    Io(std::io::Error),
    /// The file does not have a valid GGUF magic number.
    InvalidMagic,
    /// The GGUF version is not supported.
    UnsupportedVersion(u32),
    /// A value could not be decoded.
    DecodeError(String),
    /// The file is truncated or incomplete.
    UnexpectedEof,
    /// The tensor index is out of range (index, number of tensors).
    TensorIndexOutOfRange(usize, usize),
    /// The KV key index is out of range (index, number of pairs).
    KvIndexOutOfRange(usize, usize),
}

/// Whether `a` is a power of two.
pub open spec fn is_power_of_two(a: usize) -> bool {
    exists|k: nat| k < usize::BITS && a == pow2(k)
}

/// Align `val` up to the next multiple of `alignment`, with the bit trick
/// `(val + alignment - 1) & !(alignment - 1)`; for a power-of-two alignment
/// that is the least multiple of `alignment` not below `val`.
pub fn align_up(val: usize, alignment: usize) -> (res: usize)
    requires
        alignment >= 1,
        val + alignment - 1 <= usize::MAX,
    ensures
        res == (((val + alignment - 1) as usize) & !((alignment - 1) as usize)),
        is_power_of_two(alignment) ==> res % alignment == 0 && val <= res < val + alignment,
{
    let res = (val + (alignment - 1)) & !(alignment - 1);
    proof {
        lemma_align_up_power_of_two(val, alignment);
    }
    res
}

/// For a power-of-two alignment the bit trick of `align_up` rounds up to a
/// multiple of the alignment and moves by less than one alignment step.
pub proof fn lemma_align_up_power_of_two(val: usize, alignment: usize)
    requires
        alignment >= 1,
        val + alignment - 1 <= usize::MAX,
    ensures
        is_power_of_two(alignment) ==> {
            let res = ((val + alignment - 1) as usize) & !((alignment - 1) as usize);
            res % alignment == 0 && val <= res < val + alignment
        },
{
    if is_power_of_two(alignment) {
        let k = choose|k: nat| k < usize::BITS && alignment == pow2(k);
        let x: usize = (val + alignment - 1) as usize;
        let m: usize = (alignment - 1) as usize;
        let res: usize = x & !m;
        lemma_pow2_pos(k);
        assert(low_bits_mask(k) == pow2(k) - 1);
        assert(m == low_bits_mask(k) as usize);
        lemma_usize_low_bits_mask_is_mod(x, k);
        lemma_usize_low_bits_mask_is_mod(res, k);
        assert(res & m == 0 && res + (x & m) == x && (x & m) <= m) by (bit_vector)
            requires
                res == x & !m;
        assert(x % alignment < alignment);
    }
}

} // verus!

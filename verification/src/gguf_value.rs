//! Metadata values stored in a GGUF file and their mathematical model.

use vstd::prelude::*;

use crate::gguf_types::GgufType;

verus! {

/// A single GGUF metadata value.
///
/// Floating-point values are kept as their IEEE 754 bit patterns, exactly as
/// stored in the file; `f32::from_bits` / `f64::from_bits` give the numbers.
#[derive(Debug)]
pub enum GgufValue {
    /// Unsigned 8-bit integer.
    U8(u8),
    /// Signed 8-bit integer.
    I8(i8),
    /// Unsigned 16-bit integer.
    U16(u16),
    /// Signed 16-bit integer.
    I16(i16),
    /// Unsigned 32-bit integer.
    U32(u32),
    /// Signed 32-bit integer.
    I32(i32),
    /// 32-bit float, as its bit pattern.
    F32(u32),
    /// Boolean.
    Bool(bool),
    /// String.
    Str(String),
    /// Unsigned 64-bit integer.
    U64(u64),
    /// Signed 64-bit integer.
    I64(i64),
    /// 64-bit float, as its bit pattern.
    F64(u64),
    /// Array of values.
    Array {
        /// Element type.
        elem_type: GgufType,
        /// Elements.
        data: Vec<GgufValue>,
    },
}

/// The mathematical model of a metadata value: strings as character
/// sequences and arrays as sequences of models.
pub enum ValueModel {
    U8(u8),
    I8(i8),
    U16(u16),
    I16(i16),
    U32(u32),
    I32(i32),
    F32(u32),
    Bool(bool),
    Str(Seq<char>),
    U64(u64),
    I64(i64),
    F64(u64),
    Array(GgufType, Seq<ValueModel>),
}

/// The model of a value.
pub open spec fn value_model(v: GgufValue) -> ValueModel
    decreases v, 0int,
{
    match v {
        GgufValue::U8(x) => ValueModel::U8(x),
        GgufValue::I8(x) => ValueModel::I8(x),
        GgufValue::U16(x) => ValueModel::U16(x),
        GgufValue::I16(x) => ValueModel::I16(x),
        GgufValue::U32(x) => ValueModel::U32(x),
        GgufValue::I32(x) => ValueModel::I32(x),
        GgufValue::F32(x) => ValueModel::F32(x),
        GgufValue::Bool(x) => ValueModel::Bool(x),
        GgufValue::Str(s) => ValueModel::Str(s@),
        GgufValue::U64(x) => ValueModel::U64(x),
        GgufValue::I64(x) => ValueModel::I64(x),
        GgufValue::F64(x) => ValueModel::F64(x),
        GgufValue::Array { elem_type, data } => ValueModel::Array(elem_type, values_model(data@)),
    }
}

/// The models of a sequence of values, element by element.
pub open spec fn values_model(s: Seq<GgufValue>) -> Seq<ValueModel>
    decreases s, 1int,
{
    if s.len() == 0 {
        Seq::empty()
    } else {
        values_model(s.subrange(0, s.len() - 1)).push(value_model(s[s.len() - 1]))
    }
}

impl Clone for GgufValue {
    fn clone(&self) -> (res: Self)
        ensures
            res@ == self@,
    {
        self.deep_clone()
    }
}

impl View for GgufValue {
    type V = ValueModel;

    open spec fn view(&self) -> ValueModel {
        value_model(*self)
    }
}

/// Appending a value appends its model.
pub proof fn lemma_values_model_push(s: Seq<GgufValue>, v: GgufValue)
    ensures
        values_model(s.push(v)) == values_model(s).push(value_model(v)),
{
    assert(s.push(v).subrange(0, s.len() as int) =~= s);
}

/// The model sequence has one model per value, each the model of that value.
pub proof fn lemma_values_model_index(s: Seq<GgufValue>)
    ensures
        values_model(s).len() == s.len(),
        forall|i: int| 0 <= i < s.len() ==> #[trigger] values_model(s)[i] == value_model(s[i]),
    decreases s.len(),
{
    if s.len() > 0 {
        let t = s.subrange(0, s.len() - 1);
        lemma_values_model_index(t);
        assert forall|i: int| 0 <= i < s.len() implies #[trigger] values_model(s)[i] == value_model(s[i]) by {
            if i < s.len() - 1 {
                assert(t[i] == s[i]);
            }
        }
    }
}

impl GgufValue {
    /// A copy of this value, element by element for arrays.
    #[verifier::loop_isolation(false)]
    pub fn deep_clone(&self) -> (res: GgufValue)
        ensures
            res@ == self@,
        decreases self,
    {
        match self {
            GgufValue::U8(x) => GgufValue::U8(*x),
            GgufValue::I8(x) => GgufValue::I8(*x),
            GgufValue::U16(x) => GgufValue::U16(*x),
            GgufValue::I16(x) => GgufValue::I16(*x),
            GgufValue::U32(x) => GgufValue::U32(*x),
            GgufValue::I32(x) => GgufValue::I32(*x),
            GgufValue::F32(x) => GgufValue::F32(*x),
            GgufValue::Bool(x) => GgufValue::Bool(*x),
            GgufValue::Str(s) => GgufValue::Str(s.clone()),
            GgufValue::U64(x) => GgufValue::U64(*x),
            GgufValue::I64(x) => GgufValue::I64(*x),
            GgufValue::F64(x) => GgufValue::F64(*x),
            GgufValue::Array { elem_type, data } => {
                let mut out: Vec<GgufValue> = Vec::new();
                let mut i: usize = 0;
                while i < data.len()
                    invariant
                        i <= data@.len(),
                        values_model(out@) == values_model(data@.subrange(0, i as int)),
                    decreases data@.len() - i,
                {
                    proof {
                        let d: Vec<GgufValue> = self->data;
                        assert(decreases_to!(*self => self->data));
                        assert(decreases_to!(d => d@));
                        assert(decreases_to!(d@ => d@[i as int]));
                        assert(decreases_to!(*self => d@[i as int]));
                    }
                    let c = data[i].deep_clone();
                    proof {
                        lemma_values_model_push(out@, c);
                        lemma_values_model_push(data@.subrange(0, i as int), data@[i as int]);
                        assert(data@.subrange(0, i as int).push(data@[i as int]) =~= data@.subrange(0, i + 1));
                    }
                    out.push(c);
                    i = i + 1;
                }
                assert(data@.subrange(0, data@.len() as int) =~= data@);
                GgufValue::Array { elem_type: *elem_type, data: out }
            },
        }
    }

    /// Returns the GGUF type of this value.
    pub fn gguf_type(&self) -> (res: GgufType)
        ensures
            res == value_type(self@),
    {
        match self {
            GgufValue::U8(_) => GgufType::Uint8,
            GgufValue::I8(_) => GgufType::Int8,
            GgufValue::U16(_) => GgufType::Uint16,
            GgufValue::I16(_) => GgufType::Int16,
            GgufValue::U32(_) => GgufType::Uint32,
            GgufValue::I32(_) => GgufType::Int32,
            GgufValue::F32(_) => GgufType::Float32,
            GgufValue::Bool(_) => GgufType::Bool,
            GgufValue::Str(_) => GgufType::String,
            GgufValue::U64(_) => GgufType::Uint64,
            GgufValue::I64(_) => GgufType::Int64,
            GgufValue::F64(_) => GgufType::Float64,
            GgufValue::Array { .. } => GgufType::Array,
        }
    }
}

/// The type tag of a value model.
pub open spec fn value_type(v: ValueModel) -> GgufType {
    match v {
        ValueModel::U8(_) => GgufType::Uint8,
        ValueModel::I8(_) => GgufType::Int8,
        ValueModel::U16(_) => GgufType::Uint16,
        ValueModel::I16(_) => GgufType::Int16,
        ValueModel::U32(_) => GgufType::Uint32,
        ValueModel::I32(_) => GgufType::Int32,
        ValueModel::F32(_) => GgufType::Float32,
        ValueModel::Bool(_) => GgufType::Bool,
        ValueModel::Str(_) => GgufType::String,
        ValueModel::U64(_) => GgufType::Uint64,
        ValueModel::I64(_) => GgufType::Int64,
        ValueModel::F64(_) => GgufType::Float64,
        ValueModel::Array(_, _) => GgufType::Array,
    }
}

} // verus!

//! Tensors with owned byte storage, their element types, and computation
//! graphs.

use vstd::prelude::*;
use vstd::string::StringExecFns;

verus! {

/// Errors that can occur during tensor operations.
#[derive(Debug)]
pub enum TensorError {
    /// The tensor shape is invalid for the given operation.
    InvalidShape(String),
    /// The data type is not supported.
    UnsupportedDType(DType),
    /// The tensor size exceeds available memory.
    TensorTooLarge(usize),
}

/// Data types supported by the tensor library.
#[derive(Debug, Clone, Copy, PartialEq, Eq, Structural)]
pub enum DType {
    /// 32-bit floating point.
    F32,
    /// 16-bit floating point (IEEE 754-2008 binary16).
    F16,
    /// 16-bit brain floating point.
    BF16,
    /// 8-bit integer.
    I8,
    /// 16-bit integer.
    I16,
    /// 32-bit integer.
    I32,
    /// 64-bit integer.
    I64,
    /// 4-bit quantized (`Q4_0`).
    Q4_0,
    /// 4-bit quantized (`Q4_1`).
    Q4_1,
    /// 8-bit quantized (`Q8_0`).
    Q8_0,
}

/// The number of bits of one element of a data type.
pub open spec fn dtype_bits(d: DType) -> nat {
    match d {
        DType::F32 | DType::I32 => 32,
        DType::F16 | DType::BF16 | DType::I16 => 16,
        DType::I64 => 64,
        DType::I8 | DType::Q8_0 => 8,
        DType::Q4_0 | DType::Q4_1 => 4,
    }
}

impl DType {
    /// Returns the size of a single element of this type in bits; the size
    /// in bytes is this divided by 8 (half a byte for the 4-bit types).
    pub fn bit_width(self) -> (res: usize)
        ensures
            res == dtype_bits(self),
    {
        match self {
            DType::F32 | DType::I32 => 32,
            DType::F16 | DType::BF16 | DType::I16 => 16,
            DType::I64 => 64,
            DType::I8 | DType::Q8_0 => 8,
            DType::Q4_0 | DType::Q4_1 => 4,
        }
    }
}

/// The product of the dimensions of a shape, multiplied in order from 1;
/// absent when a partial product exceeds `usize::MAX`.
pub open spec fn shape_product(shape: Seq<usize>, acc: nat) -> Option<nat>
    decreases shape.len(),
{
    if shape.len() == 0 {
        Some(acc)
    } else {
        let x: nat = acc * (shape[0] as nat);
        if x > usize::MAX {
            None
        } else {
            shape_product(shape.drop_first(), x)
        }
    }
}

/// The number of bytes that hold `count` elements of a data type: the bit
/// count rounded up to whole bytes.
pub open spec fn byte_count(dtype: DType, count: nat) -> nat {
    ((count * dtype_bits(dtype) + 7) / 8) as nat
}

/// Whether a tensor of this type and shape can be created: its element count
/// fits in a `usize` and its bytes in an allocation.
pub open spec fn tensor_fits(dtype: DType, shape: Seq<usize>) -> bool {
    match shape_product(shape, 1) {
        Some(count) => byte_count(dtype, count) <= isize::MAX,
        None => false,
    }
}

/// The element count of a shape that fits.
pub open spec fn element_count_of(shape: Seq<usize>) -> nat {
    shape_product(shape, 1).unwrap()
}

/// The product of the dimensions of a shape whose product fits.
fn product(shape: &[usize]) -> (res: usize)
    requires
        shape_product(shape@, 1) is Some,
    ensures
        res == element_count_of(shape@),
{
    let mut acc: usize = 1;
    let mut i: usize = 0;
    proof {
        assert(shape@.subrange(0, shape@.len() as int) =~= shape@);
    }
    while i < shape.len()
        invariant
            i <= shape@.len(),
            shape_product(shape@, 1) == shape_product(shape@.subrange(i as int, shape@.len() as int), acc as nat),
            shape_product(shape@, 1) is Some,
        decreases shape@.len() - i,
    {
        proof {
            let tail = shape@.subrange(i as int, shape@.len() as int);
            assert(tail.drop_first() =~= shape@.subrange(i + 1, shape@.len() as int));
            assert(tail[0] == shape@[i as int]);
        }
        acc = acc * shape[i];
        i = i + 1;
    }
    proof {
        assert(shape@.subrange(i as int, shape@.len() as int) =~= Seq::<usize>::empty());
    }
    acc
}

/// A copy of a shape.
pub(crate) fn copy_dims(shape: &[usize]) -> (res: Vec<usize>)
    ensures
        res@ == shape@,
{
    let mut dims: Vec<usize> = Vec::new();
    let mut j: usize = 0;
    while j < shape.len()
        invariant
            j <= shape@.len(),
            dims@ == shape@.subrange(0, j as int),
        decreases shape@.len() - j,
    {
        dims.push(shape[j]);
        j = j + 1;
        proof {
            assert(dims@ =~= shape@.subrange(0, j as int));
        }
    }
    proof {
        assert(dims@ =~= shape@);
    }
    dims
}

/// The four bytes of a 32-bit word, least significant first.
pub open spec fn u32_le_bytes(w: u32) -> Seq<u8> {
    seq![(w & 0xff) as u8, ((w >> 8) & 0xff) as u8, ((w >> 16) & 0xff) as u8, ((w >> 24) & 0xff) as u8]
}

/// The bytes of a sequence of 32-bit words, each least significant byte
/// first, one word after another.
pub open spec fn words_le_bytes(ws: Seq<u32>) -> Seq<u8>
    decreases ws.len(),
{
    if ws.len() == 0 {
        Seq::empty()
    } else {
        words_le_bytes(ws.drop_last()) + u32_le_bytes(ws.last())
    }
}

/// Four bytes per word.
pub proof fn lemma_words_le_bytes_len(ws: Seq<u32>)
    ensures
        words_le_bytes(ws).len() == 4 * ws.len(),
    decreases ws.len(),
{
    if ws.len() > 0 {
        lemma_words_le_bytes_len(ws.drop_last());
    }
}

/// A multi-dimensional tensor with owned data.
#[derive(Debug, Clone)]
pub struct Tensor {
    dtype: DType,
    shape: Vec<usize>,
    data: Vec<u8>,
}

impl Tensor {
    /// The data type.
    pub closed spec fn spec_dtype(&self) -> DType {
        self.dtype
    }

    /// The shape.
    pub closed spec fn spec_shape(&self) -> Seq<usize> {
        self.shape@
    }

    /// The bytes.
    pub closed spec fn spec_data(&self) -> Seq<u8> {
        self.data@
    }

    /// Whether the shape's element count fits and the data has exactly the
    /// bytes of that many elements.
    pub open spec fn wf(&self) -> bool {
        &&& tensor_fits(self.spec_dtype(), self.spec_shape())
        &&& self.spec_data().len() == byte_count(self.spec_dtype(), element_count_of(self.spec_shape()))
    }

    /// Create a new tensor with the given dtype and shape, zero-initialized,
    /// with as many bytes as the elements need, rounded up.
    pub fn new(dtype: DType, shape: &[usize]) -> (res: Self)
        requires
            tensor_fits(dtype, shape@),
        ensures
            res.wf(),
            res.spec_dtype() == dtype,
            res.spec_shape() == shape@,
            res.spec_data() == Seq::new(byte_count(dtype, element_count_of(shape@)), |i: int| 0u8),
    {
        let count = product(shape);
        let bits = dtype.bit_width();
        let ghost bc = byte_count(dtype, count as nat);
        proof {
            assert((count / 8) * bits + ((count % 8) * bits + 7) / 8 == (count * bits + 7) / 8) by (nonlinear_arith)
                requires
                    bits <= 64;
            assert((count / 8) * bits <= (count * bits + 7) / 8) by (nonlinear_arith)
                requires
                    bits <= 64;
        }
        let byte_size = (count / 8) * bits + ((count % 8) * bits + 7) / 8;
        let data: Vec<u8> = vec![0u8; byte_size];
        proof {
            assert(data@ =~= Seq::new(byte_size as nat, |j: int| 0u8));
        }
        let dims = copy_dims(shape);
        Tensor { dtype, shape: dims, data }
    }

    /// Returns the data type of this tensor.
    pub fn dtype(&self) -> (res: DType)
        ensures
            res == self.spec_dtype(),
    {
        self.dtype
    }

    /// Returns the shape of this tensor.
    pub fn shape(&self) -> (res: &[usize])
        ensures
            res@ == self.spec_shape(),
    {
        self.shape.as_slice()
    }

    /// Returns the number of dimensions.
    pub fn ndim(&self) -> (res: usize)
        ensures
            res == self.spec_shape().len(),
    {
        self.shape.len()
    }

    /// Returns the total number of elements.
    pub fn element_count(&self) -> (res: usize)
        requires
            self.wf(),
        ensures
            res == element_count_of(self.spec_shape()),
    {
        product(self.shape.as_slice())
    }

    /// Returns the size of the data in bytes.
    pub fn byte_size(&self) -> (res: usize)
        ensures
            res == self.spec_data().len(),
    {
        self.data.len()
    }

    /// Returns a reference to the raw byte data.
    pub fn data(&self) -> (res: &[u8])
        ensures
            res@ == self.spec_data(),
    {
        self.data.as_slice()
    }

    /// Returns a mutable reference to the raw byte data; the type and shape
    /// stay as they are, and the data becomes what is written through it.
    pub fn data_mut(&mut self) -> (res: &mut [u8])
        ensures
            res@ == old(self).spec_data(),
            final(self).spec_data() == final(res)@,
            final(self).spec_dtype() == old(self).spec_dtype(),
            final(self).spec_shape() == old(self).spec_shape(),
    {
        self.data.as_mut_slice()
    }

    /// Create an `F32` tensor of the given shape from the bit patterns of its
    /// elements, in order; each element takes four bytes, least significant
    /// first.
    pub fn from_f32_bits(shape: &[usize], bits: &[u32]) -> (res: Self)
        requires
            tensor_fits(DType::F32, shape@),
            element_count_of(shape@) == bits@.len(),
        ensures
            res.wf(),
            res.spec_dtype() == DType::F32,
            res.spec_shape() == shape@,
            res.spec_data() == words_le_bytes(bits@),
    {
        let mut data: Vec<u8> = Vec::new();
        let mut i: usize = 0;
        proof {
            assert(bits@.take(0) =~= Seq::<u32>::empty());
        }
        while i < bits.len()
            invariant
                i <= bits@.len(),
                data@ == words_le_bytes(bits@.take(i as int)),
            decreases bits@.len() - i,
        {
            let w = bits[i];
            data.push((w & 0xff) as u8);
            data.push(((w >> 8) & 0xff) as u8);
            data.push(((w >> 16) & 0xff) as u8);
            data.push(((w >> 24) & 0xff) as u8);
            proof {
                assert(bits@.take(i + 1).drop_last() =~= bits@.take(i as int));
                assert(bits@.take(i + 1).last() == w);
                assert(data@ =~= words_le_bytes(bits@.take(i + 1)));
            }
            i = i + 1;
        }
        proof {
            assert(bits@.take(i as int) =~= bits@);
            lemma_words_le_bytes_len(bits@);
            let n = bits@.len();
            assert((n * 32 + 7) / 8 == 4 * n) by (nonlinear_arith);
        }
        let dims = copy_dims(shape);
        Tensor { dtype: DType::F32, shape: dims, data }
    }
}

/// Types of operations in the computation graph.
#[derive(Debug)]
pub enum GraphOp {
    /// Element-wise addition.
    Add,
    /// Element-wise multiplication.
    Mul,
    /// Matrix multiplication.
    MatMul,
    /// `ReLU` activation.
    Relu,
    /// Softmax activation.
    Softmax,
    /// No-op (placeholder).
    Noop,
}

/// A single operation node in the computation graph.
#[derive(Debug)]
pub struct GraphNode {
    name: String,
    op: GraphOp,
}

/// A computation graph representing a sequence of tensor operations.
pub struct ComputeGraph {
    nodes: Vec<GraphNode>,
    finalized: bool,
}

impl ComputeGraph {
    /// The nodes in order, as name and operation.
    pub closed spec fn spec_nodes(&self) -> Seq<(Seq<char>, GraphOp)> {
        self.nodes@.map_values(|n: GraphNode| (n.name@, n.op))
    }

    /// Whether the graph is finalized.
    pub closed spec fn spec_finalized(&self) -> bool {
        self.finalized
    }

    /// Create a new empty computation graph.
    pub fn new() -> (res: Self)
        ensures
            res.spec_nodes() == Seq::<(Seq<char>, GraphOp)>::empty(),
            !res.spec_finalized(),
    {
        let res = ComputeGraph { nodes: Vec::new(), finalized: false };
        assert(res.spec_nodes() =~= Seq::<(Seq<char>, GraphOp)>::empty());
        res
    }

    /// Add a new node at the end of a graph that is not finalized.
    pub fn add_node(&mut self, name: &str, op: GraphOp)
        requires
            !old(self).spec_finalized(),
        ensures
            final(self).spec_nodes() == old(self).spec_nodes().push((name@, op)),
            !final(self).spec_finalized(),
    {
        let node = GraphNode { name: String::from_str(name), op };
        self.nodes.push(node);
        assert(self.spec_nodes() =~= old(self).spec_nodes().push((name@, op)));
    }

    /// Finalize the graph, preventing further modifications.
    pub fn finalize(&mut self)
        ensures
            final(self).spec_nodes() == old(self).spec_nodes(),
            final(self).spec_finalized(),
    {
        self.finalized = true;
    }

    /// Returns the number of nodes in the graph.
    pub fn node_count(&self) -> (res: usize)
        ensures
            res == self.spec_nodes().len(),
    {
        self.nodes.len()
    }

    /// Returns whether the graph has been finalized.
    pub fn is_finalized(&self) -> (res: bool)
        ensures
            res == self.spec_finalized(),
    {
        self.finalized
    }
}

impl Default for ComputeGraph {
    fn default() -> (res: Self)
        ensures
            res.spec_nodes() == Seq::<(Seq<char>, GraphOp)>::empty(),
            !res.spec_finalized(),
    {
        Self::new()
    }
}

/// Each element type takes a fixed size per element, so a tensor of `n`
/// elements holds: four bytes each for `F32` and `I32`; two bytes each for
/// the 16-bit types `F16`, `BF16` and `I16`; eight bytes each for `I64`; one
/// byte each for `I8` and `Q8_0`; and half a byte each, rounded up, for
/// `Q4_0` and `Q4_1`.
pub proof fn law_dtype_element_bytes(n: nat)
    ensures
        byte_count(DType::F32, n) == 4 * n,
        byte_count(DType::I32, n) == 4 * n,
        byte_count(DType::F16, n) == 2 * n,
        byte_count(DType::BF16, n) == 2 * n,
        byte_count(DType::I16, n) == 2 * n,
        byte_count(DType::I64, n) == 8 * n,
        byte_count(DType::I8, n) == n,
        byte_count(DType::Q8_0, n) == n,
        byte_count(DType::Q4_0, n) == (n + 1) / 2,
        byte_count(DType::Q4_1, n) == (n + 1) / 2,
{
    assert((n * 32 + 7) / 8 == 4 * n) by (nonlinear_arith);
    assert((n * 16 + 7) / 8 == 2 * n) by (nonlinear_arith);
    assert((n * 64 + 7) / 8 == 8 * n) by (nonlinear_arith);
    assert((n * 8 + 7) / 8 == n) by (nonlinear_arith);
    assert((n * 4 + 7) / 8 == (n + 1) / 2) by (nonlinear_arith);
}

/// A call that changes a computation graph.
pub enum GraphCall {
    /// `add_node` with this name and operation.
    AddNode(Seq<char>, GraphOp),
    /// `finalize`.
    Finalize,
}

/// Whether a call may be made on a graph: `add_node` only while the graph is
/// not finalized, `finalize` always.
pub open spec fn call_allowed(g: ComputeGraph, c: GraphCall) -> bool {
    match c {
        GraphCall::AddNode(_, _) => !g.spec_finalized(),
        GraphCall::Finalize => true,
    }
}

/// What a call leaves of a graph, as its contract states.
pub open spec fn call_step(g: ComputeGraph, c: GraphCall, g2: ComputeGraph) -> bool {
    match c {
        GraphCall::AddNode(name, op) => g2.spec_nodes() == g.spec_nodes().push((name, op)) && !g2.spec_finalized(),
        GraphCall::Finalize => g2.spec_nodes() == g.spec_nodes() && g2.spec_finalized(),
    }
}

/// Once a graph is finalized it stays so: along any run of allowed calls
/// from a finalized graph, each graph is finalized and has the same nodes.
/// In particular, finalizing a finalized graph changes nothing.
pub proof fn law_finalized_graph_is_frozen(run: Seq<ComputeGraph>, calls: Seq<GraphCall>)
    requires
        run.len() == calls.len() + 1,
        run[0].spec_finalized(),
        forall|i: int| 0 <= i < calls.len() ==> call_allowed(run[i], #[trigger] calls[i]) && call_step(run[i], calls[i], run[i + 1]),
    ensures
        forall|i: int| 0 <= i < run.len() ==> (#[trigger] run[i]).spec_finalized() && run[i].spec_nodes() == run[0].spec_nodes(),
    decreases calls.len(),
{
    if calls.len() > 0 {
        let k = calls.len() - 1;
        law_finalized_graph_is_frozen(run.drop_last(), calls.drop_last());
        assert(run.drop_last()[k] == run[k]);
        assert(call_allowed(run[k], calls[k]) && call_step(run[k], calls[k], run[k + 1]));
        assert forall|i: int| 0 <= i < run.len() implies (#[trigger] run[i]).spec_finalized() && run[i].spec_nodes() == run[0].spec_nodes() by {
            if i < run.len() - 1 {
                assert(run.drop_last()[i] == run[i]);
            }
        }
    }
}

} // verus!

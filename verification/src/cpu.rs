//! The CPU backend: thread-count configuration and the shape bookkeeping of
//! its tensor operations.

use vstd::prelude::*;
use crate::tensor::{DType, Tensor, tensor_fits};

verus! {

/// The thread count a backend runs with: the one asked for, or, when that
/// is 0, the parallelism the machine reports (1 when it reports none).
pub open spec fn chosen_threads(n_threads: usize, available: Option<usize>) -> usize {
    if n_threads != 0 {
        n_threads
    } else {
        match available {
            Some(n) => if n > 0 { n } else { 1 },
            None => 1,
        }
    }
}

/// Executes a computation graph on the CPU.
pub struct CpuBackend {
    n_threads: usize,
}

impl CpuBackend {
    /// The number of worker threads.
    pub closed spec fn spec_n_threads(&self) -> usize {
        self.n_threads
    }

    /// Create a new CPU backend with the given number of threads.
    ///
    /// If `n_threads` is 0, uses the number of available parallel threads,
    /// `available` as the platform reports it (`None` when it cannot say,
    /// which gives one thread).
    pub fn new(n_threads: usize, available: Option<usize>) -> (res: Self)
        ensures
            res.spec_n_threads() == chosen_threads(n_threads, available),
            res.spec_n_threads() > 0,
    {
        let n = if n_threads == 0 {
            match available {
                Some(n) => if n > 0 { n } else { 1 },
                None => 1,
            }
        } else {
            n_threads
        };
        CpuBackend { n_threads: n }
    }

    /// Execute matrix multiplication: `C = A * B^T`.
    ///
    /// Both operands are matrices with the same number of columns; the result
    /// is an `F32` tensor with as many rows as `b` and as many columns as `a`
    /// has rows, with storage for all its elements. The element values, float
    /// products, are not stated here.
    pub fn matmul(&self, a: &Tensor, b: &Tensor) -> (res: Tensor)
        requires
            a.spec_shape().len() == 2,
            b.spec_shape().len() == 2,
            a.spec_shape()[1] == b.spec_shape()[1],
            tensor_fits(DType::F32, seq![b.spec_shape()[0], a.spec_shape()[0]]),
        ensures
            res.wf(),
            res.spec_dtype() == DType::F32,
            res.spec_shape() == seq![b.spec_shape()[0], a.spec_shape()[0]],
    {
        let out_rows = b.shape()[0];
        let out_cols = a.shape()[0];
        let dims: Vec<usize> = vec![out_rows, out_cols];
        proof {
            assert(dims@ =~= seq![b.spec_shape()[0], a.spec_shape()[0]]);
        }
        Tensor::new(DType::F32, dims.as_slice())
    }

    /// Execute element-wise addition: `C = A + B`.
    ///
    /// The operands have the same shape; the result is a tensor of `a`'s type
    /// and that shape, with storage for all its elements. The element values,
    /// float sums, are not stated here.
    pub fn add(&self, a: &Tensor, b: &Tensor) -> (res: Tensor)
        requires
            a.wf(),
            a.spec_shape() == b.spec_shape(),
        ensures
            res.wf(),
            res.spec_dtype() == a.spec_dtype(),
            res.spec_shape() == a.spec_shape(),
    {
        Tensor::new(a.dtype(), a.shape())
    }

    /// Returns the number of worker threads.
    pub fn n_threads(&self) -> (res: usize)
        ensures
            res == self.spec_n_threads(),
    {
        self.n_threads
    }
}

} // verus!

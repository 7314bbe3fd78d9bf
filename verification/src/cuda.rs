//! The CUDA backend as built without a CUDA toolkit: a GTX 1050 (compute
//! 6.1, 2 GiB of VRAM, 640 cores) described but not present, so that every
//! device operation reports that CUDA is not available.

use vstd::prelude::*;
use vstd::string::StringExecFns;
use crate::tensor::{Tensor, copy_dims, element_count_of};
use crate::text::{append_decimal, append_signed_decimal, owned, signed_decimal};

verus! {

/// Errors that can occur during CUDA operations.
#[derive(Debug)]
pub enum CudaError {
    /// CUDA is not available on this system.
    NotAvailable(String),
    /// Insufficient VRAM for the requested operation.
    OutOfMemory {
        /// Bytes required for the operation.
        needed: usize,
        /// Bytes currently available.
        available: usize,
    },
    /// A CUDA runtime error occurred.
    RuntimeError(String),
}

/// The VRAM of the target card in bytes: 2 GiB.
pub const GTX1050_VRAM: usize = 2147483648;

/// The CUDA cores of the target card.
pub const GTX1050_CUDA_CORES: usize = 640;

/// CUDA backend for GPU-accelerated tensor operations.
///
/// Describes a GTX 1050 (compute 6.1, 2GB VRAM, 640 CUDA cores).
pub struct CudaBackend {
    available: bool,
    total_vram: usize,
    free_vram: usize,
    cuda_cores: usize,
    compute_major: i32,
    compute_minor: i32,
}

/// The text of a compute capability: major and minor version joined by a
/// dot.
pub open spec fn capability_text(major: i32, minor: i32) -> Seq<char> {
    signed_decimal(major as int) + seq!['.'] + signed_decimal(minor as int)
}

impl CudaBackend {
    /// Whether CUDA is available.
    pub closed spec fn spec_available(&self) -> bool {
        self.available
    }

    /// Total VRAM in bytes.
    pub closed spec fn spec_total_vram(&self) -> usize {
        self.total_vram
    }

    /// Free VRAM in bytes.
    pub closed spec fn spec_free_vram(&self) -> usize {
        self.free_vram
    }

    /// Number of CUDA cores.
    pub closed spec fn spec_cuda_cores(&self) -> usize {
        self.cuda_cores
    }

    /// Compute capability, major and minor version.
    pub closed spec fn spec_capability(&self) -> (i32, i32) {
        (self.compute_major, self.compute_minor)
    }

    /// The description of the target card, with CUDA not available.
    pub open spec fn is_gtx1050_stub(&self) -> bool {
        &&& !self.spec_available()
        &&& self.spec_total_vram() == GTX1050_VRAM
        &&& self.spec_free_vram() == GTX1050_VRAM
        &&& self.spec_cuda_cores() == GTX1050_CUDA_CORES
        &&& self.spec_capability() == (6i32, 1i32)
    }

    /// The description of the target card, with CUDA not available.
    fn gtx1050_stub() -> (res: Self)
        ensures
            res.is_gtx1050_stub(),
    {
        CudaBackend {
            available: false,
            total_vram: GTX1050_VRAM,
            free_vram: GTX1050_VRAM,
            cuda_cores: GTX1050_CUDA_CORES,
            compute_major: 6,
            compute_minor: 1,
        }
    }

    /// Initialize the CUDA backend.
    ///
    /// Without CUDA support this always succeeds with the description of the
    /// target card and CUDA marked as not available.
    pub fn new() -> (res: Result<Self, CudaError>)
        ensures
            res matches Ok(b) && b.is_gtx1050_stub(),
    {
        Ok(Self::gtx1050_stub())
    }

    /// Returns whether CUDA is available.
    pub fn is_available(&self) -> (res: bool)
        ensures
            res == self.spec_available(),
    {
        self.available
    }

    /// Returns the total VRAM in bytes.
    pub fn total_vram(&self) -> (res: usize)
        ensures
            res == self.spec_total_vram(),
    {
        self.total_vram
    }

    /// Returns the free VRAM in bytes.
    pub fn free_vram(&self) -> (res: usize)
        ensures
            res == self.spec_free_vram(),
    {
        self.free_vram
    }

    /// Returns the number of CUDA cores.
    pub fn cuda_cores(&self) -> (res: usize)
        ensures
            res == self.spec_cuda_cores(),
    {
        self.cuda_cores
    }

    /// Returns the compute capability as a string (e.g., "6.1").
    pub fn compute_capability(&self) -> (res: String)
        ensures
            res@ == capability_text(self.spec_capability().0, self.spec_capability().1),
    {
        let mut s = String::new();
        append_signed_decimal(&mut s, self.compute_major as i64);
        proof {
            reveal_strlit(".");
        }
        s.append(".");
        append_signed_decimal(&mut s, self.compute_minor as i64);
        proof {
            assert(s@ =~= capability_text(self.compute_major, self.compute_minor));
        }
        s
    }

    /// Copy a tensor from host memory to device memory.
    ///
    /// Fails with `OutOfMemory` when the tensor's bytes exceed the free VRAM;
    /// otherwise the device tensor records the tensor's size, element count
    /// and shape.
    pub fn copy_to_device(&self, tensor: &Tensor) -> (res: Result<DeviceTensor, CudaError>)
        requires
            tensor.wf(),
        ensures
            tensor.spec_data().len() > self.spec_free_vram() ==> (res matches Err(CudaError::OutOfMemory {
                needed,
                available,
            }) && needed == tensor.spec_data().len() && available == self.spec_free_vram()),
            tensor.spec_data().len() <= self.spec_free_vram() ==> (res matches Ok(d)
                && d.spec_size() == tensor.spec_data().len()
                && d.spec_element_count() == element_count_of(tensor.spec_shape())
                && d.spec_shape() == tensor.spec_shape()),
    {
        if tensor.byte_size() > self.free_vram {
            return Err(CudaError::OutOfMemory { needed: tensor.byte_size(), available: self.free_vram });
        }
        let dims = copy_dims(tensor.shape());
        Ok(DeviceTensor { size: tensor.byte_size(), element_count: tensor.element_count(), shape: dims })
    }

    /// Execute matrix multiplication on GPU: C = A × B^T.
    ///
    /// Fails with `NotAvailable` when CUDA is not available; otherwise the
    /// operands are matrices, and it fails with `RuntimeError` when their
    /// column counts differ, and with `NotAvailable` when they agree, as no
    /// CUDA support is built in.
    pub fn matmul(&self, a: &DeviceTensor, b: &DeviceTensor) -> (res: Result<DeviceTensor, CudaError>)
        requires
            self.spec_available() ==> a.spec_shape().len() >= 2 && b.spec_shape().len() >= 2,
        ensures
            !self.spec_available() ==> res matches Err(CudaError::NotAvailable(_)),
            self.spec_available() && a.spec_shape()[1] != b.spec_shape()[1]
                ==> res matches Err(CudaError::RuntimeError(_)),
            self.spec_available() && a.spec_shape()[1] == b.spec_shape()[1]
                ==> res matches Err(CudaError::NotAvailable(_)),
    {
        if !self.available {
            return Err(CudaError::NotAvailable(owned("CUDA backend not available")));
        }
        let k = a.shape[1];
        let k2 = b.shape[1];
        if k != k2 {
            let mut msg = owned("inner dimensions must match: ");
            append_decimal(&mut msg, k as u64);
            msg.append(" vs ");
            append_decimal(&mut msg, k2 as u64);
            return Err(CudaError::RuntimeError(msg));
        }
        Err(CudaError::NotAvailable(owned("CUDA feature not enabled")))
    }
}

impl Default for CudaBackend {
    fn default() -> (res: Self)
        ensures
            res.is_gtx1050_stub(),
    {
        match Self::new() {
            Ok(b) => b,
            Err(_) => Self::gtx1050_stub(),
        }
    }
}

/// A tensor stored in device (GPU) memory.
pub struct DeviceTensor {
    size: usize,
    element_count: usize,
    shape: Vec<usize>,
}

impl DeviceTensor {
    /// Size in bytes.
    pub closed spec fn spec_size(&self) -> usize {
        self.size
    }

    /// Number of elements.
    pub closed spec fn spec_element_count(&self) -> usize {
        self.element_count
    }

    /// Shape dimensions.
    pub closed spec fn spec_shape(&self) -> Seq<usize> {
        self.shape@
    }

    /// Returns the size of the device tensor in bytes.
    pub fn byte_size(&self) -> (res: usize)
        ensures
            res == self.spec_size(),
    {
        self.size
    }

    /// Returns the number of elements.
    pub fn element_count(&self) -> (res: usize)
        ensures
            res == self.spec_element_count(),
    {
        self.element_count
    }

    /// Returns the shape of the tensor.
    pub fn shape(&self) -> (res: &[usize])
        ensures
            res@ == self.spec_shape(),
    {
        self.shape.as_slice()
    }

    /// Copy device data back to host, as the bit patterns of its `f32`
    /// elements; without CUDA support there is no device data, and this fails
    /// with `NotAvailable`.
    pub fn to_host(&self) -> (res: Result<Vec<u32>, CudaError>)
        ensures
            res matches Err(CudaError::NotAvailable(_)),
    {
        Err(CudaError::NotAvailable(owned("CUDA feature not enabled")))
    }
}

} // verus!

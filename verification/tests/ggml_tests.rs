use llama_rs::cpu::CpuBackend;
use llama_rs::gguf_header::{ElementBits, TensorInfo};
use llama_rs::gguf_types::GgmlType;
use llama_rs::cuda::{CudaBackend, CudaError};
use llama_rs::tensor::{ComputeGraph, DType, GraphOp, Tensor};

#[test]
fn new_tensor_should_have_correct_shape() {
    let tensor = Tensor::new(DType::F32, &[2, 3]);
    assert_eq!(tensor.shape(), &[2, 3]);
    assert_eq!(tensor.ndim(), 2);
}

#[test]
fn new_tensor_should_be_zero_initialized() {
    let tensor = Tensor::new(DType::F32, &[2, 2]);
    assert!(tensor.data().iter().all(|&b| b == 0));
}

#[test]
fn dtype_size_should_be_correct() {
    assert_eq!(DType::F32.bit_width() as f64 / 8.0, 4.0);
    assert_eq!(DType::F16.bit_width() as f64 / 8.0, 2.0);
    assert_eq!(DType::Q4_0.bit_width() as f64 / 8.0, 0.5);
}

#[test]
fn compute_graph_should_track_node_count() {
    let mut graph = ComputeGraph::new();
    assert_eq!(graph.node_count(), 0);
    graph.add_node("add1", GraphOp::Add);
    graph.add_node("mul1", GraphOp::Mul);
    assert_eq!(graph.node_count(), 2);
}

#[test]
fn finalize_should_prevent_modifications() {
    let mut graph = ComputeGraph::new();
    graph.finalize();
    assert!(graph.is_finalized());
}

#[test]
fn tensor_byte_size_rounds_up_half_bytes() {
    let t = Tensor::new(DType::Q4_0, &[3]);
    assert_eq!(t.byte_size(), 2);
    assert_eq!(t.element_count(), 3);
    let t = Tensor::new(DType::I64, &[2, 2]);
    assert_eq!(t.byte_size(), 32);
    assert_eq!(t.dtype(), DType::I64);
    let scalar = Tensor::new(DType::F16, &[]);
    assert_eq!(scalar.element_count(), 1);
    assert_eq!(scalar.byte_size(), 2);
}

#[test]
fn tensor_from_f32_bits_stores_little_endian_words() {
    let t = Tensor::from_f32_bits(&[2], &[1.0f32.to_bits(), (-2.0f32).to_bits()]);
    assert_eq!(t.dtype(), DType::F32);
    assert_eq!(t.shape(), &[2]);
    let mut expected = Vec::new();
    expected.extend_from_slice(&1.0f32.to_le_bytes());
    expected.extend_from_slice(&(-2.0f32).to_le_bytes());
    assert_eq!(t.data(), expected.as_slice());
}

#[test]
fn tensor_data_mut_writes_through() {
    let mut t = Tensor::new(DType::I8, &[4]);
    t.data_mut()[2] = 9;
    assert_eq!(t.data(), &[0, 0, 9, 0]);
    assert_eq!(t.shape(), &[4]);
}

#[test]
fn default_graph_is_empty_and_open() {
    let g = ComputeGraph::default();
    assert_eq!(g.node_count(), 0);
    assert!(!g.is_finalized());
}

#[test]
fn cpu_backend_should_default_thread_count() {
    let backend = CpuBackend::new(0, None);
    assert!(backend.n_threads() > 0);
}

#[test]
fn cpu_backend_should_use_explicit_thread_count() {
    let backend = CpuBackend::new(4, Some(16));
    assert_eq!(backend.n_threads(), 4);
}

#[test]
fn cpu_backend_without_reported_parallelism_uses_one_thread() {
    assert_eq!(CpuBackend::new(0, None).n_threads(), 1);
    assert_eq!(CpuBackend::new(0, Some(6)).n_threads(), 6);
}

#[test]
fn matmul_should_require_2d_tensors() {
    let backend = CpuBackend::new(1, None);
    let a = Tensor::new(DType::F32, &[2, 3]);
    let b = Tensor::new(DType::F32, &[4, 3]);
    let _result = backend.matmul(&a, &b);
}

#[test]
fn matmul_result_has_rows_of_b_and_columns_of_a_rows() {
    let backend = CpuBackend::new(1, None);
    let a = Tensor::new(DType::F16, &[2, 3]);
    let b = Tensor::new(DType::F32, &[4, 3]);
    let c = backend.matmul(&a, &b);
    assert_eq!(c.shape(), &[4, 2]);
    assert_eq!(c.dtype(), DType::F32);
    assert_eq!(c.byte_size(), 32);
    let s = backend.add(&a, &a);
    assert_eq!(s.shape(), &[2, 3]);
    assert_eq!(s.dtype(), DType::F16);
    assert_eq!(s.byte_size(), 12);
}

#[test]
fn cuda_backend_should_report_vram() {
    let backend = CudaBackend::new().unwrap_or_default();
    assert_eq!(backend.total_vram(), 2 * 1024 * 1024 * 1024);
}

#[test]
fn cuda_backend_should_report_cuda_cores() {
    let backend = CudaBackend::new().unwrap_or_default();
    assert_eq!(backend.cuda_cores(), 640);
}

#[test]
fn cuda_backend_should_report_compute_capability() {
    let backend = CudaBackend::new().unwrap_or_default();
    assert_eq!(backend.compute_capability(), "6.1");
}

#[test]
fn copy_to_device_should_fail_for_large_tensor() {
    let backend = CudaBackend::new().unwrap_or_default();
    let large = Tensor::new(DType::F32, &[1_000_000_000]);
    let result = backend.copy_to_device(&large);
    assert!(result.is_err());
}

#[test]
fn copy_to_device_records_size_and_shape() {
    let backend = CudaBackend::default();
    assert!(!backend.is_available());
    assert_eq!(backend.free_vram(), 2 * 1024 * 1024 * 1024);
    let t = Tensor::new(DType::F32, &[3, 5]);
    let d = backend.copy_to_device(&t).unwrap();
    assert_eq!(d.byte_size(), 60);
    assert_eq!(d.element_count(), 15);
    assert_eq!(d.shape(), &[3, 5]);
    assert!(matches!(d.to_host(), Err(CudaError::NotAvailable(_))));
    match backend.matmul(&d, &d) {
        Err(CudaError::NotAvailable(msg)) => assert_eq!(msg, "CUDA backend not available"),
        _ => panic!("expected NotAvailable"),
    }
}

#[test]
fn copy_to_device_reports_needed_and_available_bytes() {
    let backend = CudaBackend::default();
    let t = Tensor::new(DType::I64, &[300_000_000]);
    match backend.copy_to_device(&t) {
        Err(CudaError::OutOfMemory { needed, available }) => {
            assert_eq!(needed, 2_400_000_000);
            assert_eq!(available, 2 * 1024 * 1024 * 1024);
        },
        _ => panic!("expected OutOfMemory"),
    }
}

#[test]
fn f32_data_written_is_read_back() {
    let bits = vec![0.25f32.to_bits(), (-7.5f32).to_bits(), f32::MAX.to_bits()];
    let t = Tensor::from_f32_bits(&[3], &bits);
    let info = TensorInfo { name: "t".to_string(), n_dims: 1, shape: vec![3], dtype: GgmlType::F32, offset: 0 };
    match info.element_bits(t.data()).unwrap() {
        ElementBits::F32(w) => assert_eq!(w, bits),
        _ => panic!("expected f32 words"),
    }
}

#[test]
fn a_finalized_graph_stays_finalized() {
    let mut graph = ComputeGraph::new();
    graph.add_node("a", GraphOp::Relu);
    graph.finalize();
    graph.finalize();
    assert!(graph.is_finalized());
    assert_eq!(graph.node_count(), 1);
}

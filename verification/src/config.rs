//! Configuration values shared by the tools: inference settings, the common
//! command-line arguments and the server's completion defaults.

use vstd::prelude::*;

verus! {

/// Configuration for inference.
#[derive(Debug, Clone)]
pub struct ModelConfig {
    /// Number of worker threads.
    pub n_threads: usize,
    /// Whether to use CUDA.
    pub use_cuda: bool,
    /// Context size in tokens.
    pub n_ctx: usize,
    /// Batch size for prompt processing.
    pub n_batch: usize,
}

impl Default for ModelConfig {
    fn default() -> (res: Self)
        ensures
            res.n_threads == 4,
            !res.use_cuda,
            res.n_ctx == 2048,
            res.n_batch == 512,
    {
        ModelConfig { n_threads: 4, use_cuda: false, n_ctx: 2048, n_batch: 512 }
    }
}

/// Common arguments for llama inference tools.
#[derive(Debug)]
pub struct CommonArgs {
    /// Path to the model file (GGUF format).
    pub model: String,
    /// Number of threads to use for computation.
    pub threads: usize,
    /// Context size (number of tokens).
    pub ctx_size: usize,
    /// Batch size for prompt processing.
    pub batch_size: usize,
    /// Use CUDA acceleration if available.
    pub use_cuda: bool,
}

/// The number of tokens a completion request generates when it does not
/// say.
pub fn default_max_tokens() -> (res: usize)
    ensures
        res == 128,
{
    128
}

} // verus!

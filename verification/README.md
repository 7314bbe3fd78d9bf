# llama_rs

Support code for LLaMA inference, verified with Verus: the GGUF v3 container
format, tensor bookkeeping, the CPU and (stubbed) CUDA backends, the
tokenizer, the key/value cache, model loading and the bookkeeping of token
generation.

## Layout

- `src/` — the verified library.
  - `gguf_types`, `gguf_value`, `cursor`, `gguf_header`, `gguf_reader`:
    GGUF value and tensor types, little-endian reading with its meaning
    stated over the bytes, header parsing, metadata lookup and tensor data
    access over a memory map.
  - `tensor`, `cpu`, `cuda`: tensors with owned bytes, computation graphs,
    and the shape bookkeeping of the backends.
  - `tokenizer`, `interner`, `kv_cache`, `model`, `context`, `config`: the
    inference-side data structures; `model` loads a model from a parsed
    GGUF file, `context` holds the tokenizer and the generation state.
  - `tokenizer_laws`, `loading_laws`: proved properties that span several
    functions (encode/decode round trip, data written then read back,
    tensors found by name after loading).
- `tests/` — tests of the library on concrete values.
- `app/` — what stays outside the verified library: file and network I/O,
  command-line parsing, CPU feature detection, and the floating-point
  inference code (normalisation, attention, sampling, the forward pass).

Floats are carried through the library as their bit patterns (`u32` for
`f32`, `u16` for `f16`); `app/` converts them.

# gguf_quant

Planning for inference with GGUF-quantized weights, verified with Verus.

- `src/` is the library. It decides when the fast matrix-vector kernels apply and works out the
  arguments of their launches: weights, sizes and strides. It keeps the per-device scratch
  workspaces, reads the hyperparameters of a Mistral3 model, lists and loads its tensors and puts
  them to their uses, and makes the decisions of a pass: masks, rotary rows, key and value caches,
  expert routing. Floats are handled by their bit patterns; what only a
  device can do (allocating, building a tensor, joining two) is handed in as a closure.
- `app/` runs the plans: `cuda.rs` on CUDA devices, with the kernels declared in `ffi.rs`, and
  `mistral3.rs` on the tensors of any backend.
- `tests/` runs the library on concrete values.

# sn_inference

The core of an on-device inference runtime for LLaMA and Qwen3 models, written
in Verus: each function of `src/` carries a contract that Verus proves.

- `src/` — the verified library: safetensors headers and tensor layouts,
  key/value cache bookkeeping, attention masks, weight-name routing, attention
  sizes, chat templates (rewriting and rendering), the tokenizer's token sets,
  the generation and streaming decisions, the model registry, the
  nearest-neighbour index bookkeeping, and the debug layout of tensors.
- `tests/` — tests of the library on concrete values.
- `app/` — the runtime around it: tensors on the MLX runtime, file access,
  threads and the float arithmetic of embeddings, rotary frequencies and
  statistics.

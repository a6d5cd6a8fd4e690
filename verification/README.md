# egg_llm

The logic of an in-process LLM chat client for llama.cpp (`libllama`), as a
Verus-verified library, with the programs that drive the C library in `app/`.

- `src/text.rs` — Unicode white space and trimming, decimal integer parsing
  with the semantics of `str::parse`, string/char/byte conversions.
- `src/line_editor.rs` — the raw-mode line editor (Enter, Backspace, Ctrl-D,
  Ctrl-C), one byte at a time.
- `src/chat.rs` — input commands, the conversation history, ChatML, and the
  buffer protocol of the model's own chat template.
- `src/tokens.rs` — the two-call tokenizer protocol and token text.
- `src/generation.rs` — the decode/sample/emit loop as a state machine that
  never decodes past the context and stops at the token limit.
- `src/self_test.rs` — the backend self-test verdict.
- `src/settings.rs` — command-line and environment settings.
- `src/setup.rs` — terminal mode bookkeeping and the model download command.
- `src/gpu_probe.rs` — sizes, device/queue/memory selection and read-back
  checks of the Vulkan write-back probe.
- `app/` — `main`, the libllama and Vulkan bindings, terminal and process I/O.

# voidweb

The verified core of an LLM inference server and of its browser shell.

`src/` is the library, checked with Verus:

- `kv_cache` — paged KV-cache block manager with reference counts and a
  prefix cache keyed by a rolling token hash.
- `radix_cache` — RadixAttention prefix tree: lookup, insertion with edge
  splitting, LRU eviction of leaves.
- `scheduler` — continuous-batching scheduler: chunked prefill, decode
  batches, step commits.
- `tokenizer` — byte-level BPE tokenizer built from the parts of a
  `tokenizer.json`.
- `quantization`, `loader` — quantisation schemes and safetensors headers;
  the weight table of sharded, memory-mapped files.
- `engine`, `chat`, `metrics` — model sizing, the chat front end's
  decisions, counters and their Prometheus page.
- `sandbox`, `tor_proxy`, `antibot` — per-process sandbox policies, Tor
  routing and `torrc`, browser fingerprint data.
- `json`, `text` — parsed JSON as plain values; decimal text and paths.

`app/` is the server program around it: HTTP handlers, the kernel library
bridge, sampling (floating point), file and process I/O.

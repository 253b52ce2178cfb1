# mimo_tts

The verified core of a MiMo text-to-speech work queue, written in Verus.

`src/` holds the logic, each public function with a `requires`/`ensures`
contract that Verus proves:

- lifecycles of tasks, chunks, batches and groups (`task`, `chunk`, `batch`,
  `group`), batch submission (`submission`) and event routing (`events`);
- text chunking for the synthesis API (`chunker`, `text`);
- token-bucket rate limiting with degraded mode (`rate_limiter`) and the
  provider load balancer with its circuit breaker (`balancer`);
- the worker's retry, back-off and pause decisions (`worker`), the task
  queue's reconciliation and merge planning (`orchestrator`), the watchdog
  and patrol thresholds (`patrol`);
- WAV headers and merging (`wav`), the audio cache (`cache`), pending
  imports (`imports`), listing SQL and pagination (`listing`), API models,
  presets, configuration and request bodies (`models`, `constants`, `config`,
  `mimo`).

Calls into `uuid`, `chrono`, `base64` and `linked-hash-map` stand behind
small trusted wrappers whose contracts are documented where they are
declared (`id`, `clock`, `mimo`, `cache`).

`tests/` exercises the library on concrete values; `app/` is a thin
command-line front end (configuration, port probing, voice and model
listings, WAV merging) that does the file and network I/O.

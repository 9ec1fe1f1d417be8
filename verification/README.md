# NexusNet

The building blocks of an adaptive networking engine, written in Verus: every
function of the library states what it returns or changes, and Verus proves it.

| Module        | Holds                                                        |
| ------------- | ------------------------------------------------------------ |
| `protocol`    | versions, frames, the header, encoder and stream decoder      |
| `encryption`  | keys and their derivation, nonces, sealing, replay protection |
| `compression` | codecs, framed payloads, the adaptive compressor              |
| `cache`       | an LRU cache with expiry, digests, deduplication              |
| `router`      | circuit breaking, routing strategies, the router              |
| `analytics`   | latency histograms, throughput, connection statistics         |
| `optimizer`   | estimates, grading, strategies, congestion, trend prediction  |
| `plugin_api`  | plugin metadata and registry, interceptor chains              |
| `engine`      | configuration, validation, lifecycle                          |
| `cli`         | commands and the lines they print                             |

Properties that relate several operations stand as public proof functions next
to what they speak of: that decoding undoes encoding however a stream is cut,
that an opened message is the sealed one, that a counter is accepted once, that
the least recently used entry leaves first, that each endpoint gets its turns.

Nothing is computed in floating point. Averages are kept in fixed fractions of a
unit and move by exact shares; the line through recent samples is drawn with whole
numbers of any size.

`app/` is the program around the library: the command line, the process
environment, logging and serialisation.

What the library takes from other crates (ciphers, key derivation, compression
formats, byte buffers, the clock) stands behind small wrappers whose doc comments
say what is taken on trust.

## Configuration

| Variable                         | Setting            | Value                            |
| -------------------------------- | ------------------ | -------------------------------- |
| `NEXUSNET_NAME`                  | `name`             | not empty                        |
| `NEXUSNET_LOG_LEVEL`             | `log_level`        | `trace`, `debug`, `info`, `warn` (or `warning`), `error`, `off` |
| `NEXUSNET_LOG_FORMAT`            | `log_format`       | `full`, `compact`, `pretty`, `json` |
| `NEXUSNET_WORKER_THREADS`        | `worker_threads`   | positive, or `auto`              |
| `NEXUSNET_SHUTDOWN_TIMEOUT_SECS` | `shutdown_timeout` | whole seconds                    |
| `NEXUSNET_INSTALL_LOGGING`       | `install_logging`  | a boolean                        |
| `NEXUSNET_METRICS_ENABLED`       | `metrics_enabled`  | a boolean                        |

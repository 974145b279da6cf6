# wcm_base_log_forwarder

A log forwarder whose stages are WebAssembly components. Lines are gathered into
batches, parsed, filtered, formatted and sent over HTTP; every stage calls a
plugin.

- `src/` is the library: the decisions of the forwarder and of its Rust plugins,
  with contracts that Verus proves. What is computed in floating point, the byte
  budget of a batch and the fractions that are reported, is left to `app/`.
  - `batch`, `dispatch`: gathering lines and passing batches on.
  - `pool`, `parse_stage`, `json_parser`: parser instances, attempts at a batch,
    ids, times, and the parser for JSON lines.
  - `filter_stage`, `level_filter`, `fault_filter`: what goes on of a batch.
  - `frames`, `format_stage`: reading framed output and putting chunks together.
  - `transport_stage`, `transport_plugin`, `endpoint`, `headers`, `base64`: cutting
    lines into chunks and bodies, requests, retries, usage.
  - `config`, `limiter`, `hot_swap`, `pipeline`, `stats`, `report`: settings,
    memory limits, exchange of plugins, workers, counts and what is reported.
  - `tail_input`, `usage`, `host_check`: following a file, plugin times, trying a
    transport plugin out.
- `tests/` runs the library on concrete values.
- `app/` is the program around it: threads, channels, wasmtime, input, output,
  and the glue of the plugins. A plugin is built from it for a WebAssembly target
  with `--cfg plugin="parse"`, `"filter"` or `"transport"`.

Public proof functions whose names begin with `law_` state what holds over several
calls, such as that no line is lost between input and batches, that what is framed
is read back, and that all lines of a batch are posted in their order.

# unwasm_core

The core of a WebAssembly decompiler: reading a module, reading what it says about
itself, and the runtime that decompiled code stands on. Everything under `src/` is
verified with Verus.

- `module` reads a binary module through `wasmparser`. What the decoder yields has a
  name in the contracts; everything that is done with it is exact over those names.
  Nothing is skipped: an operator that is not modelled is an error that names it.
- `ops` has the numeric instructions: their operands, results and templates.
- `analysis` reads a module for what it says about itself: the C stack and its frames,
  calls and what is reachable, text and names, embind registrations, C++ classes, and
  who reads and writes an offset.
- `rt` is linear memory, plain and shared, with its atomics, waits and watchpoints, and
  the integer arithmetic where wasm and Rust disagree. Where an instruction traps, the
  function asks for the condition under which it does not.
- `hostlib` is the mechanical half of a host: WASI over a filesystem that lives in a
  struct, the C++ runtime's exceptions, Emscripten's runtime, embind and the clock.
- `text` has texts as sequences of characters, and ordered maps from them.

Laws that relate several functions stand in the `laws` file of each part as public proof
functions; those of the data image stand in `analysis/image_laws.rs`, and those over all
the calls made of a host in `hostlib/history.rs`.

`app/` turns the library's answers into what a caller of decompiled code sees: panics
where wasm traps, blocked threads where wasm waits, floating point, and errors with
`Display`. `tests/` runs the library.

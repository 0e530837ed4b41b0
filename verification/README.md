# dx_build

The decisions behind `dx` builds, verified with Verus.

- `artifacts`, `scrub`: a marker around one build generation, and what a generation that was
  interrupted has to have removed from Cargo's build directories.
- `build_state`: the journal through which an external development loop asks for rebuilds and learns
  what became of them.
- `publication`: publishing a file so that a reader finds the old text or the whole new one.
- `rustcwrapper`, `response_file`: capturing rustc invocations, telling link steps apart, and running
  a captured invocation again.
- `wasm_hotpatch_metadata`: what wasm-bindgen did to the base module of a hot patch.
- `names`, `paths`, `text`: what the others share.

The modules whose names end in `_laws` state what holds over whole operations, as proof functions.

None of this touches a file, a clock or a process. An operation that needs one is a state machine: it
names what is due, and takes what came of it. `app/` performs what is due.

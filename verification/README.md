# aemu

A user-mode ARM machine and what is needed to feed it, written in Rust and
proved with Verus.

- `src/armv6/`: the processor. Each instruction is a mathematical function from
  machine state and memory to the state, the memory and the trap that follow;
  the executable code is proved to compute that function. Floating point is done
  on bit patterns, with its own verified rounding.
- `src/elf_loader.rs`, `src/elf_dynamic.rs`, `src/elf_linker.rs`,
  `src/elf_probe.rs`: planning, loading, linking and probing 32-bit ARM files.
- `src/apk_plan.rs`, `src/zip_probe.rs`: the native libraries of an application
  package. Only stored entries can be taken out of an archive.
- `src/dex_index.rs`, `src/dex/`: an index of the classes of a package and the
  member lookups that native code makes in it.
- `src/gles_trace.rs`: inspecting texture uploads.
- `src/dynarmic_backend.rs`, `src/guest_memory.rs`: what surrounds a recompiling
  engine.
- `src/armv6/laws.rs`, `src/armv6/mapping.rs`, `src/armv6/neon_laws.rs` and
  `src/armv6/vfp_laws.rs`: what holds across instructions.
- `app/`: file access and the engine's C interface, which are not verified.

What is taken on trust is small: reading UTF-8 text, showing and making file
paths. Each such function is marked and says what is claimed of it.

//! A user-mode ARM machine with the loaders and indexes that feed it: an
//! interpreter for A32, Thumb, VFP and NEON code, ELF planning, loading and
//! linking, DEX indexing and APK planning.

pub mod apk_plan;
pub mod armv6;
pub mod bytes;
pub mod dex;
pub mod dex_index;
pub mod dynarmic_backend;
pub mod elf_dynamic;
pub mod elf_dynamic_laws;
pub mod elf_linker;
pub mod elf_loader;
pub mod elf_loader_laws;
pub mod elf_probe;
pub mod gles_laws;
pub mod gles_trace;
pub mod guest_memory;
pub mod order;
pub mod paths;
pub mod strings;
pub mod text;
pub mod text_laws;
pub mod zip_laws;
pub mod zip_probe;

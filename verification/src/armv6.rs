//! The ARM machine: registers, memory and the instruction interpreter.

pub mod a32_decode;
pub mod a32_laws;
pub mod alu;
pub mod arm_data;
pub mod arm_media;
pub mod arm_misc;
pub mod arm_multiply;
pub mod arm_transfer;
pub mod bits;
pub mod cpu;
pub mod exec;
pub mod float;
pub mod float_round;
pub mod laws;
pub mod mapping;
pub mod media_laws;
pub mod memory;
pub mod misc_laws;
pub mod multiply_laws;
pub mod neon;
pub mod neon_arith;
pub mod neon_elements;
pub mod neon_float;
pub mod neon_lane;
pub mod neon_laws;
pub mod neon_mem;
pub mod neon_mem_laws;
pub mod neon_misc;
pub mod neon_numbers;
pub mod neon_scalar_laws;
pub mod neon_three;
pub mod neon_three_laws;
pub mod neon_two;
pub mod numbers;
pub mod shift_laws;
pub mod neon_vector_laws;
pub mod thumb;
pub mod thumb32;
pub mod thumb32_laws;
pub mod thumb_laws;
pub mod transfer_laws;
pub mod trap;
pub mod vfp;
pub mod vfp_laws;
pub mod vfp_math;
pub mod vfp_meaning;
pub mod vfp_regs;
pub mod wide_shifts;
pub mod wide_transfer_laws;
pub mod word_parts;

pub use cpu::{Cpsr, Cpu, CpuCore, CpuState, Isa, VFP_FPSID_ARM1136};
pub use memory::{MemState, Memory, VecMemory};
pub use trap::{Result, Trap, TrapView};

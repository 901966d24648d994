//! Which decoder an A32 word reaches.

use super::alu::holds;
use super::arm_data::{arm_branch, arm_coprocessor, arm_data_processing};
use super::arm_misc::arm_misc;
use super::arm_multiply::arm_multiply;
use super::arm_transfer::{arm_block_transfer, arm_halfword_transfer, arm_single_transfer};
use super::cpu::{beside, passed, CpuState};
use super::exec::{arm, arm_early, declined, settled};
use super::memory::MemState;
use super::trap::TrapView;
use super::vfp::{fp_arithmetic, fp_compare, fp_convert, fp_moves, vfp};
use vstd::prelude::*;

verus! {

/// Whether a word is a data-processing word.
pub open spec fn is_data(instr: u32) -> bool {
    instr & 0x0c00_0000 == 0 && instr & 0x0200_0090 != 0x90 && instr & 0x0190_0000 != 0x0100_0000
}

/// Whether a word is a branch.
pub open spec fn is_branch(instr: u32) -> bool {
    instr & 0x0e00_0000 == 0x0a00_0000
}

/// Whether a word is a block transfer.
pub open spec fn is_block(instr: u32) -> bool {
    instr & 0x0e00_0000 == 0x0800_0000
}

/// Whether a word is a word or byte transfer.
pub open spec fn is_single(instr: u32) -> bool {
    (instr & 0x0e00_0000 == 0x0400_0000 || instr & 0x0e00_0010 == 0x0600_0000)
}

/// Whether a word is a halfword, signed or doubleword transfer.
pub open spec fn is_halfword(instr: u32) -> bool {
    instr & 0x0e00_0090 == 0x90 && instr & 0x60 != 0
}

/// Whether a word is a multiplication.
pub open spec fn is_multiply(instr: u32) -> bool {
    (instr & 0x0f00_00f0 == 0x90 || instr & 0x0f90_0090 == 0x0100_0080 || instr & 0x0f80_0010 == 0x0700_0010 && (instr & 0x0ff0_00d0 == 0x0700_0010 || instr & 0x0ff0_00d0 == 0x0700_0050 || instr & 0x0ff0_00d0 == 0x0740_0010 || instr & 0x0ff0_00d0 == 0x0740_0050 || instr & 0x0ff0_00d0 == 0x0750_0010 || instr & 0x0ff0_00d0 == 0x0750_00d0))
}

/// Whether a word is neither unconditional nor kept back by its condition.
pub open spec fn runs(s: CpuState, instr: u32) -> bool {
    (instr >> 28) & 0xf != 0xf && holds((instr >> 28) & 0xf, s.cpsr)
}

proof fn keys(instr: u32)
    ensures
        ((instr >> 28) & 0xf != 0xf ==> instr & 0xfe00_0000 != 0xfa00_0000 && instr != 0xf57f_f01f),
        (instr & 0x0c00_0000 != 0x0c00_0000 ==> instr & 0x0e00_0a00 != 0x0c00_0a00 && instr & 0x0f00_0f00 != 0x0d00_0a00 && instr & 0x0f00_0f00 != 0x0d00_0b00 && instr & 0x0ff0_0fd0 != 0x0c40_0a10 && instr & 0x0ff0_0fd0 != 0x0c40_0b10 && instr & 0x0ff0_0fd0 != 0x0c50_0a10 && instr & 0x0ff0_0fd0 != 0x0c50_0b10 && instr & 0x0fd0_0f3f != 0x0e00_0b30 && instr & 0x0fd0_0f1f != 0x0e40_0b10 && instr & 0x0f50_0f3f != 0x0e10_0b30 && instr & 0x0f50_0f1f != 0x0e50_0b10 && instr & 0x0f90_0f5f != 0x0e80_0b10 && instr & 0x0fb0_0f7f != 0x0e00_0a10 && instr & 0x0fb0_0f7f != 0x0e10_0a10 && instr & 0x0f90_0f7f != 0x0e00_0b10 && instr & 0x0f90_0f7f != 0x0e10_0b10 && instr & 0x0fe0_0fff != 0x0ee0_0a10 && instr & 0x0fb0_0ff0 != 0x0eb0_0b00 && instr & 0x0fb0_0ff0 != 0x0eb0_0a00 && instr & 0x0fbf_0f40 != 0x0eb4_0a40 && instr & 0x0fbf_0f7f != 0x0eb5_0a40 && instr & 0x0fbf_0f40 != 0x0eb4_0b40 && instr & 0x0fbf_0f7f != 0x0eb5_0b40 && instr & 0x0fbf_0fc0 != 0x0eb7_0ac0 && instr & 0x0fbf_0fc0 != 0x0eb7_0bc0 && instr & 0x0fbf_0fc0 != 0x0ebd_0ac0 && instr & 0x0fbf_0fc0 != 0x0ebd_0a40 && instr & 0x0fbf_0fc0 != 0x0ebc_0ac0 && instr & 0x0fbf_0fc0 != 0x0ebc_0a40 && instr & 0x0fbf_0fc0 != 0x0ebd_0bc0 && instr & 0x0fbf_0fc0 != 0x0ebd_0b40 && instr & 0x0fbf_0fc0 != 0x0ebc_0bc0 && instr & 0x0fbf_0fc0 != 0x0ebc_0b40 && instr & 0x0fbf_0fc0 != 0x0eb8_0ac0 && instr & 0x0fbf_0fc0 != 0x0eb8_0a40 && instr & 0x0fbf_0fc0 != 0x0eb8_0bc0 && instr & 0x0fbf_0fc0 != 0x0eb8_0b40 && instr & 0x0fbf_0fc0 != 0x0eb0_0a40 && instr & 0x0fbf_0fc0 != 0x0eb1_0a40 && instr & 0x0fbf_0fc0 != 0x0eb0_0ac0 && instr & 0x0fbf_0fc0 != 0x0eb1_0ac0 && instr & 0x0fbf_0fc0 != 0x0eb0_0b40 && instr & 0x0fbf_0fc0 != 0x0eb1_0b40 && instr & 0x0fbf_0fc0 != 0x0eb0_0bc0 && instr & 0x0fbf_0fc0 != 0x0eb1_0bc0 && instr & 0x0fb0_0f40 & !0x100u32 != 0x0e00_0a00 && instr & 0x0fb0_0f40 & !0x100u32 != 0x0e00_0a40 && instr & 0x0fb0_0f40 & !0x100u32 != 0x0e10_0a00 && instr & 0x0fb0_0f40 & !0x100u32 != 0x0e10_0a40 && instr & 0x0fb0_0f40 & !0x100u32 != 0x0e20_0a00 && instr & 0x0fb0_0f40 & !0x100u32 != 0x0e20_0a40 && instr & 0x0fb0_0f40 & !0x100u32 != 0x0e30_0a00 && instr & 0x0fb0_0f40 & !0x100u32 != 0x0e30_0a40 && instr & 0x0fb0_0f40 & !0x100u32 != 0x0e80_0a00 && instr & 0x0ff0_0000 != 0x0c50_0000 && instr & 0x0ff0_0000 != 0x0c40_0000 && instr & 0x0e00_0010 != 0x0e00_0010),
        (instr & 0x0c00_0000 == 0 && instr & 0x0200_0090 != 0x90 && instr & 0x0190_0000 != 0x0100_0000 ==> instr & 0x0c00_0000 != 0x0c00_0000 && instr & 0x0fff_fff0 != 0x012f_ff10
        && instr & 0x0fff_fff0 != 0x012f_ff20
        && instr & 0x0fff_fff0 != 0x012f_ff30
        && instr & 0x0ff0_00f0 != 0x0120_0070
        && instr & 0xfff0_00f0 != 0xe7f0_00f0
        && instr & 0x0f00_0000 != 0x0f00_0000
        && instr & 0x0fff_f000 != 0x0320_f000
        && instr & 0x0ff0_0000 != 0x0300_0000
        && instr & 0x0ff0_0000 != 0x0340_0000
        && instr & 0x0fe0_0070 != 0x07a0_0050
        && instr & 0x0fe0_0070 != 0x07e0_0050
        && instr & 0x0fe0_0070 != 0x07c0_0010
        && instr & 0x0fe0_007f != 0x07c0_001f
        && instr & 0x0fff_0ff0 != 0x06ff_0f30
        && instr & 0x0ff0_f0f0 != 0x0710_f010
        && instr & 0x0ff0_f0f0 != 0x0730_f010
        && instr & 0x0fff_0ff0 != 0x016f_0f10
        && instr & 0x0fff_0ff0 != 0x06bf_0f30
        && instr & 0x0fff_0ff0 != 0x06bf_0fb0
        && instr & 0x0fff_0ff0 != 0x06ff_0fb0
        && instr & 0x0fff_0fff != 0x014f_0000
        && instr & 0x0fff_0fff != 0x010f_0000
        && instr & 0x0ff0_fff0 != 0x0160_f000
        && instr & 0x0ff0_f000 != 0x0360_f000
        && instr & 0x0ff0_fff0 != 0x0120_f000
        && instr & 0x0ff0_f000 != 0x0320_f000
        && instr & 0x0ff0_0070 != 0x0680_0070
        && instr & 0x0ff0_0070 != 0x06a0_0070
        && instr & 0x0ff0_0070 != 0x06b0_0070
        && instr & 0x0ff0_0070 != 0x06c0_0070
        && instr & 0x0ff0_0070 != 0x06e0_0070
        && instr & 0x0ff0_0070 != 0x06f0_0070
        && instr & 0x0ff0_00f0 != 0x0780_0010
        && instr & 0x0ff0_0090 != 0x0680_0010
        && instr & 0x0ff0_0ff0 != 0x0680_0fb0
        && instr & 0x0f80_0f10 != 0x0600_0f10
        && instr & 0x0f90_0ff0 != 0x0100_0050
        && instr & 0x0ff0_0ff0 != 0x06a0_0f30
        && instr & 0x0ff0_0ff0 != 0x06e0_0f30
        && instr & 0x0fe0_0030 != 0x06a0_0010
        && instr & 0x0fe0_0030 != 0x06e0_0010
        && instr & 0x0ff0_0ff0 != 0x0100_0090
        && instr & 0x0ff0_0ff0 != 0x0140_0090
        && instr & 0x0ff0_0fff != 0x0190_0f9f
        && instr & 0x0ff0_0fff != 0x01b0_0f9f
        && instr & 0x0ff0_0fff != 0x01d0_0f9f
        && instr & 0x0ff0_0fff != 0x01f0_0f9f
        && instr & 0x0ff0_0ff0 != 0x0180_0f90
        && instr & 0x0ff0_0ff0 != 0x01a0_0f90
        && instr & 0x0ff0_0ff0 != 0x01c0_0f90
        && instr & 0x0ff0_0ff0 != 0x01e0_0f90
        && instr & 0x0ff0_00f0 != 0x0040_0090
        && instr & 0x0ff0_00d0 != 0x0700_0010
        && instr & 0x0ff0_00d0 != 0x0700_0050
        && instr & 0x0ff0_00d0 != 0x0740_0010
        && instr & 0x0ff0_00d0 != 0x0740_0050
        && instr & 0x0ff0_00d0 != 0x0750_0010
        && instr & 0x0ff0_00d0 != 0x0750_00d0
        && instr & 0x0ff0_0090 != 0x0100_0080
        && instr & 0x0ff0_0090 != 0x0140_0080
        && instr & 0x0ff0_00b0 != 0x0120_0080
        && instr & 0x0ff0_00b0 != 0x0120_00a0
        && instr & 0x0ff0_0090 != 0x0160_0080
        && instr & 0x0f80_00f0 != 0x0080_0090
        && instr & 0x0fc0_00f0 != 0x0000_0090
        && (instr & 0x90 != 0x90 || (instr >> 25) & 7 != 0 || (instr >> 5) & 3 == 0)
        && ((instr >> 25) & 7 == 0 || (instr >> 25) & 7 == 1)
        && (instr >> 26) & 3 == 0),
        (instr & 0x0e00_0000 == 0x0a00_0000 ==> instr & 0x0c00_0000 != 0x0c00_0000 && instr & 0x0fff_fff0 != 0x012f_ff10
        && instr & 0x0fff_fff0 != 0x012f_ff20
        && instr & 0x0fff_fff0 != 0x012f_ff30
        && instr & 0x0ff0_00f0 != 0x0120_0070
        && instr & 0xfff0_00f0 != 0xe7f0_00f0
        && instr & 0x0f00_0000 != 0x0f00_0000
        && instr & 0x0fff_f000 != 0x0320_f000
        && instr & 0x0ff0_0000 != 0x0300_0000
        && instr & 0x0ff0_0000 != 0x0340_0000
        && instr & 0x0fe0_0070 != 0x07a0_0050
        && instr & 0x0fe0_0070 != 0x07e0_0050
        && instr & 0x0fe0_0070 != 0x07c0_0010
        && instr & 0x0fe0_007f != 0x07c0_001f
        && instr & 0x0fff_0ff0 != 0x06ff_0f30
        && instr & 0x0ff0_f0f0 != 0x0710_f010
        && instr & 0x0ff0_f0f0 != 0x0730_f010
        && instr & 0x0fff_0ff0 != 0x016f_0f10
        && instr & 0x0fff_0ff0 != 0x06bf_0f30
        && instr & 0x0fff_0ff0 != 0x06bf_0fb0
        && instr & 0x0fff_0ff0 != 0x06ff_0fb0
        && instr & 0x0fff_0fff != 0x014f_0000
        && instr & 0x0fff_0fff != 0x010f_0000
        && instr & 0x0ff0_fff0 != 0x0160_f000
        && instr & 0x0ff0_f000 != 0x0360_f000
        && instr & 0x0ff0_fff0 != 0x0120_f000
        && instr & 0x0ff0_f000 != 0x0320_f000
        && instr & 0x0ff0_0070 != 0x0680_0070
        && instr & 0x0ff0_0070 != 0x06a0_0070
        && instr & 0x0ff0_0070 != 0x06b0_0070
        && instr & 0x0ff0_0070 != 0x06c0_0070
        && instr & 0x0ff0_0070 != 0x06e0_0070
        && instr & 0x0ff0_0070 != 0x06f0_0070
        && instr & 0x0ff0_00f0 != 0x0780_0010
        && instr & 0x0ff0_0090 != 0x0680_0010
        && instr & 0x0ff0_0ff0 != 0x0680_0fb0
        && instr & 0x0f80_0f10 != 0x0600_0f10
        && instr & 0x0f90_0ff0 != 0x0100_0050
        && instr & 0x0ff0_0ff0 != 0x06a0_0f30
        && instr & 0x0ff0_0ff0 != 0x06e0_0f30
        && instr & 0x0fe0_0030 != 0x06a0_0010
        && instr & 0x0fe0_0030 != 0x06e0_0010
        && instr & 0x0ff0_0ff0 != 0x0100_0090
        && instr & 0x0ff0_0ff0 != 0x0140_0090
        && instr & 0x0ff0_0fff != 0x0190_0f9f
        && instr & 0x0ff0_0fff != 0x01b0_0f9f
        && instr & 0x0ff0_0fff != 0x01d0_0f9f
        && instr & 0x0ff0_0fff != 0x01f0_0f9f
        && instr & 0x0ff0_0ff0 != 0x0180_0f90
        && instr & 0x0ff0_0ff0 != 0x01a0_0f90
        && instr & 0x0ff0_0ff0 != 0x01c0_0f90
        && instr & 0x0ff0_0ff0 != 0x01e0_0f90
        && instr & 0x0ff0_00f0 != 0x0040_0090
        && instr & 0x0ff0_00d0 != 0x0700_0010
        && instr & 0x0ff0_00d0 != 0x0700_0050
        && instr & 0x0ff0_00d0 != 0x0740_0010
        && instr & 0x0ff0_00d0 != 0x0740_0050
        && instr & 0x0ff0_00d0 != 0x0750_0010
        && instr & 0x0ff0_00d0 != 0x0750_00d0
        && instr & 0x0ff0_0090 != 0x0100_0080
        && instr & 0x0ff0_0090 != 0x0140_0080
        && instr & 0x0ff0_00b0 != 0x0120_0080
        && instr & 0x0ff0_00b0 != 0x0120_00a0
        && instr & 0x0ff0_0090 != 0x0160_0080
        && instr & 0x0f80_00f0 != 0x0080_0090
        && instr & 0x0fc0_00f0 != 0x0000_0090
        && (instr & 0x90 != 0x90 || (instr >> 25) & 7 != 0 || (instr >> 5) & 3 == 0)
        && (instr >> 25) & 7 == 5),
        (instr & 0x0e00_0000 == 0x0800_0000 ==> instr & 0x0c00_0000 != 0x0c00_0000 && instr & 0x0fff_fff0 != 0x012f_ff10
        && instr & 0x0fff_fff0 != 0x012f_ff20
        && instr & 0x0fff_fff0 != 0x012f_ff30
        && instr & 0x0ff0_00f0 != 0x0120_0070
        && instr & 0xfff0_00f0 != 0xe7f0_00f0
        && instr & 0x0f00_0000 != 0x0f00_0000
        && instr & 0x0fff_f000 != 0x0320_f000
        && instr & 0x0ff0_0000 != 0x0300_0000
        && instr & 0x0ff0_0000 != 0x0340_0000
        && instr & 0x0fe0_0070 != 0x07a0_0050
        && instr & 0x0fe0_0070 != 0x07e0_0050
        && instr & 0x0fe0_0070 != 0x07c0_0010
        && instr & 0x0fe0_007f != 0x07c0_001f
        && instr & 0x0fff_0ff0 != 0x06ff_0f30
        && instr & 0x0ff0_f0f0 != 0x0710_f010
        && instr & 0x0ff0_f0f0 != 0x0730_f010
        && instr & 0x0fff_0ff0 != 0x016f_0f10
        && instr & 0x0fff_0ff0 != 0x06bf_0f30
        && instr & 0x0fff_0ff0 != 0x06bf_0fb0
        && instr & 0x0fff_0ff0 != 0x06ff_0fb0
        && instr & 0x0fff_0fff != 0x014f_0000
        && instr & 0x0fff_0fff != 0x010f_0000
        && instr & 0x0ff0_fff0 != 0x0160_f000
        && instr & 0x0ff0_f000 != 0x0360_f000
        && instr & 0x0ff0_fff0 != 0x0120_f000
        && instr & 0x0ff0_f000 != 0x0320_f000
        && instr & 0x0ff0_0070 != 0x0680_0070
        && instr & 0x0ff0_0070 != 0x06a0_0070
        && instr & 0x0ff0_0070 != 0x06b0_0070
        && instr & 0x0ff0_0070 != 0x06c0_0070
        && instr & 0x0ff0_0070 != 0x06e0_0070
        && instr & 0x0ff0_0070 != 0x06f0_0070
        && instr & 0x0ff0_00f0 != 0x0780_0010
        && instr & 0x0ff0_0090 != 0x0680_0010
        && instr & 0x0ff0_0ff0 != 0x0680_0fb0
        && instr & 0x0f80_0f10 != 0x0600_0f10
        && instr & 0x0f90_0ff0 != 0x0100_0050
        && instr & 0x0ff0_0ff0 != 0x06a0_0f30
        && instr & 0x0ff0_0ff0 != 0x06e0_0f30
        && instr & 0x0fe0_0030 != 0x06a0_0010
        && instr & 0x0fe0_0030 != 0x06e0_0010
        && instr & 0x0ff0_0ff0 != 0x0100_0090
        && instr & 0x0ff0_0ff0 != 0x0140_0090
        && instr & 0x0ff0_0fff != 0x0190_0f9f
        && instr & 0x0ff0_0fff != 0x01b0_0f9f
        && instr & 0x0ff0_0fff != 0x01d0_0f9f
        && instr & 0x0ff0_0fff != 0x01f0_0f9f
        && instr & 0x0ff0_0ff0 != 0x0180_0f90
        && instr & 0x0ff0_0ff0 != 0x01a0_0f90
        && instr & 0x0ff0_0ff0 != 0x01c0_0f90
        && instr & 0x0ff0_0ff0 != 0x01e0_0f90
        && instr & 0x0ff0_00f0 != 0x0040_0090
        && instr & 0x0ff0_00d0 != 0x0700_0010
        && instr & 0x0ff0_00d0 != 0x0700_0050
        && instr & 0x0ff0_00d0 != 0x0740_0010
        && instr & 0x0ff0_00d0 != 0x0740_0050
        && instr & 0x0ff0_00d0 != 0x0750_0010
        && instr & 0x0ff0_00d0 != 0x0750_00d0
        && instr & 0x0ff0_0090 != 0x0100_0080
        && instr & 0x0ff0_0090 != 0x0140_0080
        && instr & 0x0ff0_00b0 != 0x0120_0080
        && instr & 0x0ff0_00b0 != 0x0120_00a0
        && instr & 0x0ff0_0090 != 0x0160_0080
        && instr & 0x0f80_00f0 != 0x0080_0090
        && instr & 0x0fc0_00f0 != 0x0000_0090
        && (instr & 0x90 != 0x90 || (instr >> 25) & 7 != 0 || (instr >> 5) & 3 == 0)
        && (instr >> 25) & 7 == 4),
        ((instr & 0x0e00_0000 == 0x0400_0000 || instr & 0x0e00_0010 == 0x0600_0000) ==> instr & 0x0c00_0000 != 0x0c00_0000 && instr & 0x0fff_fff0 != 0x012f_ff10
        && instr & 0x0fff_fff0 != 0x012f_ff20
        && instr & 0x0fff_fff0 != 0x012f_ff30
        && instr & 0x0ff0_00f0 != 0x0120_0070
        && instr & 0xfff0_00f0 != 0xe7f0_00f0
        && instr & 0x0f00_0000 != 0x0f00_0000
        && instr & 0x0fff_f000 != 0x0320_f000
        && instr & 0x0ff0_0000 != 0x0300_0000
        && instr & 0x0ff0_0000 != 0x0340_0000
        && instr & 0x0fe0_0070 != 0x07a0_0050
        && instr & 0x0fe0_0070 != 0x07e0_0050
        && instr & 0x0fe0_0070 != 0x07c0_0010
        && instr & 0x0fe0_007f != 0x07c0_001f
        && instr & 0x0fff_0ff0 != 0x06ff_0f30
        && instr & 0x0ff0_f0f0 != 0x0710_f010
        && instr & 0x0ff0_f0f0 != 0x0730_f010
        && instr & 0x0fff_0ff0 != 0x016f_0f10
        && instr & 0x0fff_0ff0 != 0x06bf_0f30
        && instr & 0x0fff_0ff0 != 0x06bf_0fb0
        && instr & 0x0fff_0ff0 != 0x06ff_0fb0
        && instr & 0x0fff_0fff != 0x014f_0000
        && instr & 0x0fff_0fff != 0x010f_0000
        && instr & 0x0ff0_fff0 != 0x0160_f000
        && instr & 0x0ff0_f000 != 0x0360_f000
        && instr & 0x0ff0_fff0 != 0x0120_f000
        && instr & 0x0ff0_f000 != 0x0320_f000
        && instr & 0x0ff0_0070 != 0x0680_0070
        && instr & 0x0ff0_0070 != 0x06a0_0070
        && instr & 0x0ff0_0070 != 0x06b0_0070
        && instr & 0x0ff0_0070 != 0x06c0_0070
        && instr & 0x0ff0_0070 != 0x06e0_0070
        && instr & 0x0ff0_0070 != 0x06f0_0070
        && instr & 0x0ff0_00f0 != 0x0780_0010
        && instr & 0x0ff0_0090 != 0x0680_0010
        && instr & 0x0ff0_0ff0 != 0x0680_0fb0
        && instr & 0x0f80_0f10 != 0x0600_0f10
        && instr & 0x0f90_0ff0 != 0x0100_0050
        && instr & 0x0ff0_0ff0 != 0x06a0_0f30
        && instr & 0x0ff0_0ff0 != 0x06e0_0f30
        && instr & 0x0fe0_0030 != 0x06a0_0010
        && instr & 0x0fe0_0030 != 0x06e0_0010
        && instr & 0x0ff0_0ff0 != 0x0100_0090
        && instr & 0x0ff0_0ff0 != 0x0140_0090
        && instr & 0x0ff0_0fff != 0x0190_0f9f
        && instr & 0x0ff0_0fff != 0x01b0_0f9f
        && instr & 0x0ff0_0fff != 0x01d0_0f9f
        && instr & 0x0ff0_0fff != 0x01f0_0f9f
        && instr & 0x0ff0_0ff0 != 0x0180_0f90
        && instr & 0x0ff0_0ff0 != 0x01a0_0f90
        && instr & 0x0ff0_0ff0 != 0x01c0_0f90
        && instr & 0x0ff0_0ff0 != 0x01e0_0f90
        && instr & 0x0ff0_00f0 != 0x0040_0090
        && instr & 0x0ff0_00d0 != 0x0700_0010
        && instr & 0x0ff0_00d0 != 0x0700_0050
        && instr & 0x0ff0_00d0 != 0x0740_0010
        && instr & 0x0ff0_00d0 != 0x0740_0050
        && instr & 0x0ff0_00d0 != 0x0750_0010
        && instr & 0x0ff0_00d0 != 0x0750_00d0
        && instr & 0x0ff0_0090 != 0x0100_0080
        && instr & 0x0ff0_0090 != 0x0140_0080
        && instr & 0x0ff0_00b0 != 0x0120_0080
        && instr & 0x0ff0_00b0 != 0x0120_00a0
        && instr & 0x0ff0_0090 != 0x0160_0080
        && instr & 0x0f80_00f0 != 0x0080_0090
        && instr & 0x0fc0_00f0 != 0x0000_0090
        && (instr & 0x90 != 0x90 || (instr >> 25) & 7 != 0 || (instr >> 5) & 3 == 0)
        && ((instr >> 25) & 7 == 2 || (instr >> 25) & 7 == 3)),
        (instr & 0x0e00_0090 == 0x90 && instr & 0x60 != 0 ==> instr & 0x0c00_0000 != 0x0c00_0000 && instr & 0x0fff_fff0 != 0x012f_ff10
        && instr & 0x0fff_fff0 != 0x012f_ff20
        && instr & 0x0fff_fff0 != 0x012f_ff30
        && instr & 0x0ff0_00f0 != 0x0120_0070
        && instr & 0xfff0_00f0 != 0xe7f0_00f0
        && instr & 0x0f00_0000 != 0x0f00_0000
        && instr & 0x0fff_f000 != 0x0320_f000
        && instr & 0x0ff0_0000 != 0x0300_0000
        && instr & 0x0ff0_0000 != 0x0340_0000
        && instr & 0x0fe0_0070 != 0x07a0_0050
        && instr & 0x0fe0_0070 != 0x07e0_0050
        && instr & 0x0fe0_0070 != 0x07c0_0010
        && instr & 0x0fe0_007f != 0x07c0_001f
        && instr & 0x0fff_0ff0 != 0x06ff_0f30
        && instr & 0x0ff0_f0f0 != 0x0710_f010
        && instr & 0x0ff0_f0f0 != 0x0730_f010
        && instr & 0x0fff_0ff0 != 0x016f_0f10
        && instr & 0x0fff_0ff0 != 0x06bf_0f30
        && instr & 0x0fff_0ff0 != 0x06bf_0fb0
        && instr & 0x0fff_0ff0 != 0x06ff_0fb0
        && instr & 0x0fff_0fff != 0x014f_0000
        && instr & 0x0fff_0fff != 0x010f_0000
        && instr & 0x0ff0_fff0 != 0x0160_f000
        && instr & 0x0ff0_f000 != 0x0360_f000
        && instr & 0x0ff0_fff0 != 0x0120_f000
        && instr & 0x0ff0_f000 != 0x0320_f000
        && instr & 0x0ff0_0070 != 0x0680_0070
        && instr & 0x0ff0_0070 != 0x06a0_0070
        && instr & 0x0ff0_0070 != 0x06b0_0070
        && instr & 0x0ff0_0070 != 0x06c0_0070
        && instr & 0x0ff0_0070 != 0x06e0_0070
        && instr & 0x0ff0_0070 != 0x06f0_0070
        && instr & 0x0ff0_00f0 != 0x0780_0010
        && instr & 0x0ff0_0090 != 0x0680_0010
        && instr & 0x0ff0_0ff0 != 0x0680_0fb0
        && instr & 0x0f80_0f10 != 0x0600_0f10
        && instr & 0x0f90_0ff0 != 0x0100_0050
        && instr & 0x0ff0_0ff0 != 0x06a0_0f30
        && instr & 0x0ff0_0ff0 != 0x06e0_0f30
        && instr & 0x0fe0_0030 != 0x06a0_0010
        && instr & 0x0fe0_0030 != 0x06e0_0010
        && instr & 0x0ff0_0ff0 != 0x0100_0090
        && instr & 0x0ff0_0ff0 != 0x0140_0090
        && instr & 0x0ff0_0fff != 0x0190_0f9f
        && instr & 0x0ff0_0fff != 0x01b0_0f9f
        && instr & 0x0ff0_0fff != 0x01d0_0f9f
        && instr & 0x0ff0_0fff != 0x01f0_0f9f
        && instr & 0x0ff0_0ff0 != 0x0180_0f90
        && instr & 0x0ff0_0ff0 != 0x01a0_0f90
        && instr & 0x0ff0_0ff0 != 0x01c0_0f90
        && instr & 0x0ff0_0ff0 != 0x01e0_0f90
        && instr & 0x0ff0_00f0 != 0x0040_0090
        && instr & 0x0ff0_00d0 != 0x0700_0010
        && instr & 0x0ff0_00d0 != 0x0700_0050
        && instr & 0x0ff0_00d0 != 0x0740_0010
        && instr & 0x0ff0_00d0 != 0x0740_0050
        && instr & 0x0ff0_00d0 != 0x0750_0010
        && instr & 0x0ff0_00d0 != 0x0750_00d0
        && instr & 0x0ff0_0090 != 0x0100_0080
        && instr & 0x0ff0_0090 != 0x0140_0080
        && instr & 0x0ff0_00b0 != 0x0120_0080
        && instr & 0x0ff0_00b0 != 0x0120_00a0
        && instr & 0x0ff0_0090 != 0x0160_0080
        && instr & 0x0f80_00f0 != 0x0080_0090
        && instr & 0x0fc0_00f0 != 0x0000_0090
        && instr & 0x90 == 0x90
        && (instr >> 25) & 7 == 0
        && (instr >> 5) & 3 != 0),
        ((instr & 0x0f00_00f0 == 0x90 || instr & 0x0f90_0090 == 0x0100_0080 || instr & 0x0f80_0010 == 0x0700_0010 && (instr & 0x0ff0_00d0 == 0x0700_0010 || instr & 0x0ff0_00d0 == 0x0700_0050 || instr & 0x0ff0_00d0 == 0x0740_0010 || instr & 0x0ff0_00d0 == 0x0740_0050 || instr & 0x0ff0_00d0 == 0x0750_0010 || instr & 0x0ff0_00d0 == 0x0750_00d0)) ==> instr & 0x0c00_0000 != 0x0c00_0000 && instr & 0x0fff_fff0 != 0x012f_ff10
        && instr & 0x0fff_fff0 != 0x012f_ff20
        && instr & 0x0fff_fff0 != 0x012f_ff30
        && instr & 0x0ff0_00f0 != 0x0120_0070
        && instr & 0xfff0_00f0 != 0xe7f0_00f0
        && instr & 0x0f00_0000 != 0x0f00_0000
        && instr & 0x0fff_f000 != 0x0320_f000
        && instr & 0x0ff0_0000 != 0x0300_0000
        && instr & 0x0ff0_0000 != 0x0340_0000
        && instr & 0x0fe0_0070 != 0x07a0_0050
        && instr & 0x0fe0_0070 != 0x07e0_0050
        && instr & 0x0fe0_0070 != 0x07c0_0010
        && instr & 0x0fe0_007f != 0x07c0_001f
        && instr & 0x0fff_0ff0 != 0x06ff_0f30
        && instr & 0x0ff0_f0f0 != 0x0710_f010
        && instr & 0x0ff0_f0f0 != 0x0730_f010
        && instr & 0x0fff_0ff0 != 0x016f_0f10
        && instr & 0x0fff_0ff0 != 0x06bf_0f30
        && instr & 0x0fff_0ff0 != 0x06bf_0fb0
        && instr & 0x0fff_0ff0 != 0x06ff_0fb0
        && instr & 0x0fff_0fff != 0x014f_0000
        && instr & 0x0fff_0fff != 0x010f_0000
        && instr & 0x0ff0_fff0 != 0x0160_f000
        && instr & 0x0ff0_f000 != 0x0360_f000
        && instr & 0x0ff0_fff0 != 0x0120_f000
        && instr & 0x0ff0_f000 != 0x0320_f000
        && instr & 0x0ff0_0070 != 0x0680_0070
        && instr & 0x0ff0_0070 != 0x06a0_0070
        && instr & 0x0ff0_0070 != 0x06b0_0070
        && instr & 0x0ff0_0070 != 0x06c0_0070
        && instr & 0x0ff0_0070 != 0x06e0_0070
        && instr & 0x0ff0_0070 != 0x06f0_0070
        && instr & 0x0ff0_00f0 != 0x0780_0010
        && instr & 0x0ff0_0090 != 0x0680_0010
        && instr & 0x0ff0_0ff0 != 0x0680_0fb0
        && instr & 0x0f80_0f10 != 0x0600_0f10
        && instr & 0x0f90_0ff0 != 0x0100_0050
        && instr & 0x0ff0_0ff0 != 0x06a0_0f30
        && instr & 0x0ff0_0ff0 != 0x06e0_0f30
        && instr & 0x0fe0_0030 != 0x06a0_0010
        && instr & 0x0fe0_0030 != 0x06e0_0010
        && instr & 0x0ff0_0ff0 != 0x0100_0090
        && instr & 0x0ff0_0ff0 != 0x0140_0090
        && instr & 0x0ff0_0fff != 0x0190_0f9f
        && instr & 0x0ff0_0fff != 0x01b0_0f9f
        && instr & 0x0ff0_0fff != 0x01d0_0f9f
        && instr & 0x0ff0_0fff != 0x01f0_0f9f
        && instr & 0x0ff0_0ff0 != 0x0180_0f90
        && instr & 0x0ff0_0ff0 != 0x01a0_0f90
        && instr & 0x0ff0_0ff0 != 0x01c0_0f90
        && instr & 0x0ff0_0ff0 != 0x01e0_0f90),
        (instr & 0x0fc0_00f0 == 0x0000_0090 ==> instr & 0x0ff0_00f0 != 0x0040_0090 && instr & 0x0ff0_00d0 != 0x0700_0010 && instr & 0x0ff0_00d0 != 0x0700_0050 && instr & 0x0ff0_00d0 != 0x0740_0010 && instr & 0x0ff0_00d0 != 0x0740_0050 && instr & 0x0ff0_00d0 != 0x0750_0010 && instr & 0x0ff0_00d0 != 0x0750_00d0 && instr & 0x0ff0_0090 != 0x0100_0080 && instr & 0x0ff0_0090 != 0x0140_0080 && instr & 0x0ff0_00b0 != 0x0120_0080 && instr & 0x0ff0_00b0 != 0x0120_00a0 && instr & 0x0ff0_0090 != 0x0160_0080 && instr & 0x0f80_00f0 != 0x0080_0090 && ((instr & 0x0f00_00f0 == 0x90 || instr & 0x0f90_0090 == 0x0100_0080 || instr & 0x0f80_0010 == 0x0700_0010 && (instr & 0x0ff0_00d0 == 0x0700_0010 || instr & 0x0ff0_00d0 == 0x0700_0050 || instr & 0x0ff0_00d0 == 0x0740_0010 || instr & 0x0ff0_00d0 == 0x0740_0050 || instr & 0x0ff0_00d0 == 0x0750_0010 || instr & 0x0ff0_00d0 == 0x0750_00d0)))),
        (instr & 0x0f80_00f0 == 0x0080_0090 ==> instr & 0x0ff0_00f0 != 0x0040_0090 && instr & 0x0ff0_00d0 != 0x0700_0010 && instr & 0x0ff0_00d0 != 0x0700_0050 && instr & 0x0ff0_00d0 != 0x0740_0010 && instr & 0x0ff0_00d0 != 0x0740_0050 && instr & 0x0ff0_00d0 != 0x0750_0010 && instr & 0x0ff0_00d0 != 0x0750_00d0 && instr & 0x0ff0_0090 != 0x0100_0080 && instr & 0x0ff0_0090 != 0x0140_0080 && instr & 0x0ff0_00b0 != 0x0120_0080 && instr & 0x0ff0_00b0 != 0x0120_00a0 && instr & 0x0ff0_0090 != 0x0160_0080 && ((instr & 0x0f00_00f0 == 0x90 || instr & 0x0f90_0090 == 0x0100_0080 || instr & 0x0f80_0010 == 0x0700_0010 && (instr & 0x0ff0_00d0 == 0x0700_0010 || instr & 0x0ff0_00d0 == 0x0700_0050 || instr & 0x0ff0_00d0 == 0x0740_0010 || instr & 0x0ff0_00d0 == 0x0740_0050 || instr & 0x0ff0_00d0 == 0x0750_0010 || instr & 0x0ff0_00d0 == 0x0750_00d0)))),
        (instr & 0x0ff0_00f0 == 0x0040_0090 ==> ((instr & 0x0f00_00f0 == 0x90 || instr & 0x0f90_0090 == 0x0100_0080 || instr & 0x0f80_0010 == 0x0700_0010 && (instr & 0x0ff0_00d0 == 0x0700_0010 || instr & 0x0ff0_00d0 == 0x0700_0050 || instr & 0x0ff0_00d0 == 0x0740_0010 || instr & 0x0ff0_00d0 == 0x0740_0050 || instr & 0x0ff0_00d0 == 0x0750_0010 || instr & 0x0ff0_00d0 == 0x0750_00d0)))),
        (instr & 0x0ff0_0090 == 0x0100_0080 ==> instr & 0x0ff0_00f0 != 0x0040_0090 && instr & 0x0ff0_00d0 != 0x0700_0010 && instr & 0x0ff0_00d0 != 0x0700_0050 && instr & 0x0ff0_00d0 != 0x0740_0010 && instr & 0x0ff0_00d0 != 0x0740_0050 && instr & 0x0ff0_00d0 != 0x0750_0010 && instr & 0x0ff0_00d0 != 0x0750_00d0 && instr & 0x0ff0_0090 != 0x0140_0080 && instr & 0x0ff0_00b0 != 0x0120_0080 && instr & 0x0ff0_00b0 != 0x0120_00a0 && instr & 0x0ff0_0090 != 0x0160_0080 && ((instr & 0x0f00_00f0 == 0x90 || instr & 0x0f90_0090 == 0x0100_0080 || instr & 0x0f80_0010 == 0x0700_0010 && (instr & 0x0ff0_00d0 == 0x0700_0010 || instr & 0x0ff0_00d0 == 0x0700_0050 || instr & 0x0ff0_00d0 == 0x0740_0010 || instr & 0x0ff0_00d0 == 0x0740_0050 || instr & 0x0ff0_00d0 == 0x0750_0010 || instr & 0x0ff0_00d0 == 0x0750_00d0)))),
        (instr & 0x0ff0_0090 == 0x0140_0080 ==> instr & 0x0ff0_00f0 != 0x0040_0090 && instr & 0x0ff0_00d0 != 0x0700_0010 && instr & 0x0ff0_00d0 != 0x0700_0050 && instr & 0x0ff0_00d0 != 0x0740_0010 && instr & 0x0ff0_00d0 != 0x0740_0050 && instr & 0x0ff0_00d0 != 0x0750_0010 && instr & 0x0ff0_00d0 != 0x0750_00d0 && instr & 0x0ff0_0090 != 0x0100_0080 && instr & 0x0ff0_00b0 != 0x0120_0080 && instr & 0x0ff0_00b0 != 0x0120_00a0 && instr & 0x0ff0_0090 != 0x0160_0080 && ((instr & 0x0f00_00f0 == 0x90 || instr & 0x0f90_0090 == 0x0100_0080 || instr & 0x0f80_0010 == 0x0700_0010 && (instr & 0x0ff0_00d0 == 0x0700_0010 || instr & 0x0ff0_00d0 == 0x0700_0050 || instr & 0x0ff0_00d0 == 0x0740_0010 || instr & 0x0ff0_00d0 == 0x0740_0050 || instr & 0x0ff0_00d0 == 0x0750_0010 || instr & 0x0ff0_00d0 == 0x0750_00d0)))),
        (instr & 0x0ff0_00b0 == 0x0120_0080 ==> instr & 0x0ff0_00f0 != 0x0040_0090 && instr & 0x0ff0_00d0 != 0x0700_0010 && instr & 0x0ff0_00d0 != 0x0700_0050 && instr & 0x0ff0_00d0 != 0x0740_0010 && instr & 0x0ff0_00d0 != 0x0740_0050 && instr & 0x0ff0_00d0 != 0x0750_0010 && instr & 0x0ff0_00d0 != 0x0750_00d0 && instr & 0x0ff0_0090 != 0x0100_0080 && instr & 0x0ff0_0090 != 0x0140_0080 && instr & 0x0ff0_00b0 != 0x0120_00a0 && instr & 0x0ff0_0090 != 0x0160_0080 && ((instr & 0x0f00_00f0 == 0x90 || instr & 0x0f90_0090 == 0x0100_0080 || instr & 0x0f80_0010 == 0x0700_0010 && (instr & 0x0ff0_00d0 == 0x0700_0010 || instr & 0x0ff0_00d0 == 0x0700_0050 || instr & 0x0ff0_00d0 == 0x0740_0010 || instr & 0x0ff0_00d0 == 0x0740_0050 || instr & 0x0ff0_00d0 == 0x0750_0010 || instr & 0x0ff0_00d0 == 0x0750_00d0)))),
        (instr & 0x0ff0_00b0 == 0x0120_00a0 ==> instr & 0x0ff0_00f0 != 0x0040_0090 && instr & 0x0ff0_00d0 != 0x0700_0010 && instr & 0x0ff0_00d0 != 0x0700_0050 && instr & 0x0ff0_00d0 != 0x0740_0010 && instr & 0x0ff0_00d0 != 0x0740_0050 && instr & 0x0ff0_00d0 != 0x0750_0010 && instr & 0x0ff0_00d0 != 0x0750_00d0 && instr & 0x0ff0_0090 != 0x0100_0080 && instr & 0x0ff0_0090 != 0x0140_0080 && instr & 0x0ff0_00b0 != 0x0120_0080 && instr & 0x0ff0_0090 != 0x0160_0080 && ((instr & 0x0f00_00f0 == 0x90 || instr & 0x0f90_0090 == 0x0100_0080 || instr & 0x0f80_0010 == 0x0700_0010 && (instr & 0x0ff0_00d0 == 0x0700_0010 || instr & 0x0ff0_00d0 == 0x0700_0050 || instr & 0x0ff0_00d0 == 0x0740_0010 || instr & 0x0ff0_00d0 == 0x0740_0050 || instr & 0x0ff0_00d0 == 0x0750_0010 || instr & 0x0ff0_00d0 == 0x0750_00d0)))),
        (instr & 0x0ff0_0090 == 0x0160_0080 ==> instr & 0x0ff0_00f0 != 0x0040_0090 && instr & 0x0ff0_00d0 != 0x0700_0010 && instr & 0x0ff0_00d0 != 0x0700_0050 && instr & 0x0ff0_00d0 != 0x0740_0010 && instr & 0x0ff0_00d0 != 0x0740_0050 && instr & 0x0ff0_00d0 != 0x0750_0010 && instr & 0x0ff0_00d0 != 0x0750_00d0 && instr & 0x0ff0_0090 != 0x0100_0080 && instr & 0x0ff0_0090 != 0x0140_0080 && instr & 0x0ff0_00b0 != 0x0120_0080 && instr & 0x0ff0_00b0 != 0x0120_00a0 && ((instr & 0x0f00_00f0 == 0x90 || instr & 0x0f90_0090 == 0x0100_0080 || instr & 0x0f80_0010 == 0x0700_0010 && (instr & 0x0ff0_00d0 == 0x0700_0010 || instr & 0x0ff0_00d0 == 0x0700_0050 || instr & 0x0ff0_00d0 == 0x0740_0010 || instr & 0x0ff0_00d0 == 0x0740_0050 || instr & 0x0ff0_00d0 == 0x0750_0010 || instr & 0x0ff0_00d0 == 0x0750_00d0)))),
        (instr & 0x0ff0_00d0 == 0x0700_0010 ==> instr & 0x0ff0_00f0 != 0x0040_0090 && instr & 0x0ff0_0090 != 0x0100_0080 && instr & 0x0ff0_0090 != 0x0140_0080 && instr & 0x0ff0_00b0 != 0x0120_0080 && instr & 0x0ff0_00b0 != 0x0120_00a0 && instr & 0x0ff0_0090 != 0x0160_0080 && ((instr & 0x0f00_00f0 == 0x90 || instr & 0x0f90_0090 == 0x0100_0080 || instr & 0x0f80_0010 == 0x0700_0010 && (instr & 0x0ff0_00d0 == 0x0700_0010 || instr & 0x0ff0_00d0 == 0x0700_0050 || instr & 0x0ff0_00d0 == 0x0740_0010 || instr & 0x0ff0_00d0 == 0x0740_0050 || instr & 0x0ff0_00d0 == 0x0750_0010 || instr & 0x0ff0_00d0 == 0x0750_00d0)))),
        (instr & 0x0ff0_00d0 == 0x0700_0050 ==> instr & 0x0ff0_00f0 != 0x0040_0090 && instr & 0x0ff0_0090 != 0x0100_0080 && instr & 0x0ff0_0090 != 0x0140_0080 && instr & 0x0ff0_00b0 != 0x0120_0080 && instr & 0x0ff0_00b0 != 0x0120_00a0 && instr & 0x0ff0_0090 != 0x0160_0080 && ((instr & 0x0f00_00f0 == 0x90 || instr & 0x0f90_0090 == 0x0100_0080 || instr & 0x0f80_0010 == 0x0700_0010 && (instr & 0x0ff0_00d0 == 0x0700_0010 || instr & 0x0ff0_00d0 == 0x0700_0050 || instr & 0x0ff0_00d0 == 0x0740_0010 || instr & 0x0ff0_00d0 == 0x0740_0050 || instr & 0x0ff0_00d0 == 0x0750_0010 || instr & 0x0ff0_00d0 == 0x0750_00d0)))),
        (instr & 0x0ff0_00d0 == 0x0740_0010 ==> instr & 0x0ff0_00f0 != 0x0040_0090 && instr & 0x0ff0_0090 != 0x0100_0080 && instr & 0x0ff0_0090 != 0x0140_0080 && instr & 0x0ff0_00b0 != 0x0120_0080 && instr & 0x0ff0_00b0 != 0x0120_00a0 && instr & 0x0ff0_0090 != 0x0160_0080 && ((instr & 0x0f00_00f0 == 0x90 || instr & 0x0f90_0090 == 0x0100_0080 || instr & 0x0f80_0010 == 0x0700_0010 && (instr & 0x0ff0_00d0 == 0x0700_0010 || instr & 0x0ff0_00d0 == 0x0700_0050 || instr & 0x0ff0_00d0 == 0x0740_0010 || instr & 0x0ff0_00d0 == 0x0740_0050 || instr & 0x0ff0_00d0 == 0x0750_0010 || instr & 0x0ff0_00d0 == 0x0750_00d0)))),
        (instr & 0x0ff0_00d0 == 0x0740_0050 ==> instr & 0x0ff0_00f0 != 0x0040_0090 && instr & 0x0ff0_0090 != 0x0100_0080 && instr & 0x0ff0_0090 != 0x0140_0080 && instr & 0x0ff0_00b0 != 0x0120_0080 && instr & 0x0ff0_00b0 != 0x0120_00a0 && instr & 0x0ff0_0090 != 0x0160_0080 && ((instr & 0x0f00_00f0 == 0x90 || instr & 0x0f90_0090 == 0x0100_0080 || instr & 0x0f80_0010 == 0x0700_0010 && (instr & 0x0ff0_00d0 == 0x0700_0010 || instr & 0x0ff0_00d0 == 0x0700_0050 || instr & 0x0ff0_00d0 == 0x0740_0010 || instr & 0x0ff0_00d0 == 0x0740_0050 || instr & 0x0ff0_00d0 == 0x0750_0010 || instr & 0x0ff0_00d0 == 0x0750_00d0)))),
        (instr & 0x0ff0_00d0 == 0x0750_0010 ==> instr & 0x0ff0_00f0 != 0x0040_0090 && instr & 0x0ff0_00d0 != 0x0700_0010 && instr & 0x0ff0_00d0 != 0x0700_0050 && instr & 0x0ff0_00d0 != 0x0740_0010 && instr & 0x0ff0_00d0 != 0x0740_0050 && instr & 0x0ff0_0090 != 0x0100_0080 && instr & 0x0ff0_0090 != 0x0140_0080 && instr & 0x0ff0_00b0 != 0x0120_0080 && instr & 0x0ff0_00b0 != 0x0120_00a0 && instr & 0x0ff0_0090 != 0x0160_0080 && ((instr & 0x0f00_00f0 == 0x90 || instr & 0x0f90_0090 == 0x0100_0080 || instr & 0x0f80_0010 == 0x0700_0010 && (instr & 0x0ff0_00d0 == 0x0700_0010 || instr & 0x0ff0_00d0 == 0x0700_0050 || instr & 0x0ff0_00d0 == 0x0740_0010 || instr & 0x0ff0_00d0 == 0x0740_0050 || instr & 0x0ff0_00d0 == 0x0750_0010 || instr & 0x0ff0_00d0 == 0x0750_00d0)))),
        (instr & 0x0ff0_00d0 == 0x0750_00d0 ==> instr & 0x0ff0_00f0 != 0x0040_0090 && instr & 0x0ff0_00d0 != 0x0700_0010 && instr & 0x0ff0_00d0 != 0x0700_0050 && instr & 0x0ff0_00d0 != 0x0740_0010 && instr & 0x0ff0_00d0 != 0x0740_0050 && instr & 0x0ff0_0090 != 0x0100_0080 && instr & 0x0ff0_0090 != 0x0140_0080 && instr & 0x0ff0_00b0 != 0x0120_0080 && instr & 0x0ff0_00b0 != 0x0120_00a0 && instr & 0x0ff0_0090 != 0x0160_0080 && ((instr & 0x0f00_00f0 == 0x90 || instr & 0x0f90_0090 == 0x0100_0080 || instr & 0x0f80_0010 == 0x0700_0010 && (instr & 0x0ff0_00d0 == 0x0700_0010 || instr & 0x0ff0_00d0 == 0x0700_0050 || instr & 0x0ff0_00d0 == 0x0740_0010 || instr & 0x0ff0_00d0 == 0x0740_0050 || instr & 0x0ff0_00d0 == 0x0750_0010 || instr & 0x0ff0_00d0 == 0x0750_00d0)))),
        (instr & 0x0f90_0090 == 0x0100_0080 ==> ((instr & 0x0f00_00f0 == 0x90 || instr & 0x0f90_0090 == 0x0100_0080 || instr & 0x0f80_0010 == 0x0700_0010 && (instr & 0x0ff0_00d0 == 0x0700_0010 || instr & 0x0ff0_00d0 == 0x0700_0050 || instr & 0x0ff0_00d0 == 0x0740_0010 || instr & 0x0ff0_00d0 == 0x0740_0050 || instr & 0x0ff0_00d0 == 0x0750_0010 || instr & 0x0ff0_00d0 == 0x0750_00d0))) && (((instr >> 21) & 3 == 0 && instr & 0x0ff0_0090 == 0x0100_0080) || ((instr >> 21) & 3 == 1 && instr & (1u32 << 5) == 0 && instr & 0x0ff0_00b0 == 0x0120_0080) || ((instr >> 21) & 3 == 1 && instr & (1u32 << 5) != 0 && instr & 0x0ff0_00b0 == 0x0120_00a0) || ((instr >> 21) & 3 == 2 && instr & 0x0ff0_0090 == 0x0140_0080) || ((instr >> 21) & 3 == 3 && instr & 0x0ff0_0090 == 0x0160_0080))),
        (instr & 0x0fb0_0090 == 0x0700_0010 ==> ((instr & 0x0f00_00f0 == 0x90 || instr & 0x0f90_0090 == 0x0100_0080 || instr & 0x0f80_0010 == 0x0700_0010 && (instr & 0x0ff0_00d0 == 0x0700_0010 || instr & 0x0ff0_00d0 == 0x0700_0050 || instr & 0x0ff0_00d0 == 0x0740_0010 || instr & 0x0ff0_00d0 == 0x0740_0050 || instr & 0x0ff0_00d0 == 0x0750_0010 || instr & 0x0ff0_00d0 == 0x0750_00d0))) && (instr & 0x0ff0_00d0 == 0x0700_0010 || instr & 0x0ff0_00d0 == 0x0700_0050 || instr & 0x0ff0_00d0 == 0x0740_0010 || instr & 0x0ff0_00d0 == 0x0740_0050) && (instr & 0x0ff0_00d0 & 0x0040_0000 != 0) == (instr & (1u32 << 22) != 0) && (instr & 0x0ff0_00d0 & 0x40 == 0) == (instr & (1u32 << 6) == 0)),
        (instr & 0x0e00_0090 == 0x90 && instr & 0x60 != 0 ==> instr & 0x90 == 0x90 && (instr >> 25) & 7 == 0 && (instr >> 5) & 3 != 0),
{
    assert(((instr >> 28) & 0xf != 0xf ==> instr & 0xfe00_0000 != 0xfa00_0000 && instr != 0xf57f_f01f)
        && (instr & 0x0c00_0000 != 0x0c00_0000 ==> instr & 0x0e00_0a00 != 0x0c00_0a00 && instr & 0x0f00_0f00 != 0x0d00_0a00 && instr & 0x0f00_0f00 != 0x0d00_0b00 && instr & 0x0ff0_0fd0 != 0x0c40_0a10 && instr & 0x0ff0_0fd0 != 0x0c40_0b10 && instr & 0x0ff0_0fd0 != 0x0c50_0a10 && instr & 0x0ff0_0fd0 != 0x0c50_0b10 && instr & 0x0fd0_0f3f != 0x0e00_0b30 && instr & 0x0fd0_0f1f != 0x0e40_0b10 && instr & 0x0f50_0f3f != 0x0e10_0b30 && instr & 0x0f50_0f1f != 0x0e50_0b10 && instr & 0x0f90_0f5f != 0x0e80_0b10 && instr & 0x0fb0_0f7f != 0x0e00_0a10 && instr & 0x0fb0_0f7f != 0x0e10_0a10 && instr & 0x0f90_0f7f != 0x0e00_0b10 && instr & 0x0f90_0f7f != 0x0e10_0b10 && instr & 0x0fe0_0fff != 0x0ee0_0a10 && instr & 0x0fb0_0ff0 != 0x0eb0_0b00 && instr & 0x0fb0_0ff0 != 0x0eb0_0a00 && instr & 0x0fbf_0f40 != 0x0eb4_0a40 && instr & 0x0fbf_0f7f != 0x0eb5_0a40 && instr & 0x0fbf_0f40 != 0x0eb4_0b40 && instr & 0x0fbf_0f7f != 0x0eb5_0b40 && instr & 0x0fbf_0fc0 != 0x0eb7_0ac0 && instr & 0x0fbf_0fc0 != 0x0eb7_0bc0 && instr & 0x0fbf_0fc0 != 0x0ebd_0ac0 && instr & 0x0fbf_0fc0 != 0x0ebd_0a40 && instr & 0x0fbf_0fc0 != 0x0ebc_0ac0 && instr & 0x0fbf_0fc0 != 0x0ebc_0a40 && instr & 0x0fbf_0fc0 != 0x0ebd_0bc0 && instr & 0x0fbf_0fc0 != 0x0ebd_0b40 && instr & 0x0fbf_0fc0 != 0x0ebc_0bc0 && instr & 0x0fbf_0fc0 != 0x0ebc_0b40 && instr & 0x0fbf_0fc0 != 0x0eb8_0ac0 && instr & 0x0fbf_0fc0 != 0x0eb8_0a40 && instr & 0x0fbf_0fc0 != 0x0eb8_0bc0 && instr & 0x0fbf_0fc0 != 0x0eb8_0b40 && instr & 0x0fbf_0fc0 != 0x0eb0_0a40 && instr & 0x0fbf_0fc0 != 0x0eb1_0a40 && instr & 0x0fbf_0fc0 != 0x0eb0_0ac0 && instr & 0x0fbf_0fc0 != 0x0eb1_0ac0 && instr & 0x0fbf_0fc0 != 0x0eb0_0b40 && instr & 0x0fbf_0fc0 != 0x0eb1_0b40 && instr & 0x0fbf_0fc0 != 0x0eb0_0bc0 && instr & 0x0fbf_0fc0 != 0x0eb1_0bc0 && instr & 0x0fb0_0f40 & !0x100u32 != 0x0e00_0a00 && instr & 0x0fb0_0f40 & !0x100u32 != 0x0e00_0a40 && instr & 0x0fb0_0f40 & !0x100u32 != 0x0e10_0a00 && instr & 0x0fb0_0f40 & !0x100u32 != 0x0e10_0a40 && instr & 0x0fb0_0f40 & !0x100u32 != 0x0e20_0a00 && instr & 0x0fb0_0f40 & !0x100u32 != 0x0e20_0a40 && instr & 0x0fb0_0f40 & !0x100u32 != 0x0e30_0a00 && instr & 0x0fb0_0f40 & !0x100u32 != 0x0e30_0a40 && instr & 0x0fb0_0f40 & !0x100u32 != 0x0e80_0a00 && instr & 0x0ff0_0000 != 0x0c50_0000 && instr & 0x0ff0_0000 != 0x0c40_0000 && instr & 0x0e00_0010 != 0x0e00_0010)
        && (instr & 0x0c00_0000 == 0 && instr & 0x0200_0090 != 0x90 && instr & 0x0190_0000 != 0x0100_0000 ==> instr & 0x0c00_0000 != 0x0c00_0000 && instr & 0x0fff_fff0 != 0x012f_ff10
        && instr & 0x0fff_fff0 != 0x012f_ff20
        && instr & 0x0fff_fff0 != 0x012f_ff30
        && instr & 0x0ff0_00f0 != 0x0120_0070
        && instr & 0xfff0_00f0 != 0xe7f0_00f0
        && instr & 0x0f00_0000 != 0x0f00_0000
        && instr & 0x0fff_f000 != 0x0320_f000
        && instr & 0x0ff0_0000 != 0x0300_0000
        && instr & 0x0ff0_0000 != 0x0340_0000
        && instr & 0x0fe0_0070 != 0x07a0_0050
        && instr & 0x0fe0_0070 != 0x07e0_0050
        && instr & 0x0fe0_0070 != 0x07c0_0010
        && instr & 0x0fe0_007f != 0x07c0_001f
        && instr & 0x0fff_0ff0 != 0x06ff_0f30
        && instr & 0x0ff0_f0f0 != 0x0710_f010
        && instr & 0x0ff0_f0f0 != 0x0730_f010
        && instr & 0x0fff_0ff0 != 0x016f_0f10
        && instr & 0x0fff_0ff0 != 0x06bf_0f30
        && instr & 0x0fff_0ff0 != 0x06bf_0fb0
        && instr & 0x0fff_0ff0 != 0x06ff_0fb0
        && instr & 0x0fff_0fff != 0x014f_0000
        && instr & 0x0fff_0fff != 0x010f_0000
        && instr & 0x0ff0_fff0 != 0x0160_f000
        && instr & 0x0ff0_f000 != 0x0360_f000
        && instr & 0x0ff0_fff0 != 0x0120_f000
        && instr & 0x0ff0_f000 != 0x0320_f000
        && instr & 0x0ff0_0070 != 0x0680_0070
        && instr & 0x0ff0_0070 != 0x06a0_0070
        && instr & 0x0ff0_0070 != 0x06b0_0070
        && instr & 0x0ff0_0070 != 0x06c0_0070
        && instr & 0x0ff0_0070 != 0x06e0_0070
        && instr & 0x0ff0_0070 != 0x06f0_0070
        && instr & 0x0ff0_00f0 != 0x0780_0010
        && instr & 0x0ff0_0090 != 0x0680_0010
        && instr & 0x0ff0_0ff0 != 0x0680_0fb0
        && instr & 0x0f80_0f10 != 0x0600_0f10
        && instr & 0x0f90_0ff0 != 0x0100_0050
        && instr & 0x0ff0_0ff0 != 0x06a0_0f30
        && instr & 0x0ff0_0ff0 != 0x06e0_0f30
        && instr & 0x0fe0_0030 != 0x06a0_0010
        && instr & 0x0fe0_0030 != 0x06e0_0010
        && instr & 0x0ff0_0ff0 != 0x0100_0090
        && instr & 0x0ff0_0ff0 != 0x0140_0090
        && instr & 0x0ff0_0fff != 0x0190_0f9f
        && instr & 0x0ff0_0fff != 0x01b0_0f9f
        && instr & 0x0ff0_0fff != 0x01d0_0f9f
        && instr & 0x0ff0_0fff != 0x01f0_0f9f
        && instr & 0x0ff0_0ff0 != 0x0180_0f90
        && instr & 0x0ff0_0ff0 != 0x01a0_0f90
        && instr & 0x0ff0_0ff0 != 0x01c0_0f90
        && instr & 0x0ff0_0ff0 != 0x01e0_0f90
        && instr & 0x0ff0_00f0 != 0x0040_0090
        && instr & 0x0ff0_00d0 != 0x0700_0010
        && instr & 0x0ff0_00d0 != 0x0700_0050
        && instr & 0x0ff0_00d0 != 0x0740_0010
        && instr & 0x0ff0_00d0 != 0x0740_0050
        && instr & 0x0ff0_00d0 != 0x0750_0010
        && instr & 0x0ff0_00d0 != 0x0750_00d0
        && instr & 0x0ff0_0090 != 0x0100_0080
        && instr & 0x0ff0_0090 != 0x0140_0080
        && instr & 0x0ff0_00b0 != 0x0120_0080
        && instr & 0x0ff0_00b0 != 0x0120_00a0
        && instr & 0x0ff0_0090 != 0x0160_0080
        && instr & 0x0f80_00f0 != 0x0080_0090
        && instr & 0x0fc0_00f0 != 0x0000_0090
        && (instr & 0x90 != 0x90 || (instr >> 25) & 7 != 0 || (instr >> 5) & 3 == 0)
        && ((instr >> 25) & 7 == 0 || (instr >> 25) & 7 == 1)
        && (instr >> 26) & 3 == 0)
        && (instr & 0x0e00_0000 == 0x0a00_0000 ==> instr & 0x0c00_0000 != 0x0c00_0000 && instr & 0x0fff_fff0 != 0x012f_ff10
        && instr & 0x0fff_fff0 != 0x012f_ff20
        && instr & 0x0fff_fff0 != 0x012f_ff30
        && instr & 0x0ff0_00f0 != 0x0120_0070
        && instr & 0xfff0_00f0 != 0xe7f0_00f0
        && instr & 0x0f00_0000 != 0x0f00_0000
        && instr & 0x0fff_f000 != 0x0320_f000
        && instr & 0x0ff0_0000 != 0x0300_0000
        && instr & 0x0ff0_0000 != 0x0340_0000
        && instr & 0x0fe0_0070 != 0x07a0_0050
        && instr & 0x0fe0_0070 != 0x07e0_0050
        && instr & 0x0fe0_0070 != 0x07c0_0010
        && instr & 0x0fe0_007f != 0x07c0_001f
        && instr & 0x0fff_0ff0 != 0x06ff_0f30
        && instr & 0x0ff0_f0f0 != 0x0710_f010
        && instr & 0x0ff0_f0f0 != 0x0730_f010
        && instr & 0x0fff_0ff0 != 0x016f_0f10
        && instr & 0x0fff_0ff0 != 0x06bf_0f30
        && instr & 0x0fff_0ff0 != 0x06bf_0fb0
        && instr & 0x0fff_0ff0 != 0x06ff_0fb0
        && instr & 0x0fff_0fff != 0x014f_0000
        && instr & 0x0fff_0fff != 0x010f_0000
        && instr & 0x0ff0_fff0 != 0x0160_f000
        && instr & 0x0ff0_f000 != 0x0360_f000
        && instr & 0x0ff0_fff0 != 0x0120_f000
        && instr & 0x0ff0_f000 != 0x0320_f000
        && instr & 0x0ff0_0070 != 0x0680_0070
        && instr & 0x0ff0_0070 != 0x06a0_0070
        && instr & 0x0ff0_0070 != 0x06b0_0070
        && instr & 0x0ff0_0070 != 0x06c0_0070
        && instr & 0x0ff0_0070 != 0x06e0_0070
        && instr & 0x0ff0_0070 != 0x06f0_0070
        && instr & 0x0ff0_00f0 != 0x0780_0010
        && instr & 0x0ff0_0090 != 0x0680_0010
        && instr & 0x0ff0_0ff0 != 0x0680_0fb0
        && instr & 0x0f80_0f10 != 0x0600_0f10
        && instr & 0x0f90_0ff0 != 0x0100_0050
        && instr & 0x0ff0_0ff0 != 0x06a0_0f30
        && instr & 0x0ff0_0ff0 != 0x06e0_0f30
        && instr & 0x0fe0_0030 != 0x06a0_0010
        && instr & 0x0fe0_0030 != 0x06e0_0010
        && instr & 0x0ff0_0ff0 != 0x0100_0090
        && instr & 0x0ff0_0ff0 != 0x0140_0090
        && instr & 0x0ff0_0fff != 0x0190_0f9f
        && instr & 0x0ff0_0fff != 0x01b0_0f9f
        && instr & 0x0ff0_0fff != 0x01d0_0f9f
        && instr & 0x0ff0_0fff != 0x01f0_0f9f
        && instr & 0x0ff0_0ff0 != 0x0180_0f90
        && instr & 0x0ff0_0ff0 != 0x01a0_0f90
        && instr & 0x0ff0_0ff0 != 0x01c0_0f90
        && instr & 0x0ff0_0ff0 != 0x01e0_0f90
        && instr & 0x0ff0_00f0 != 0x0040_0090
        && instr & 0x0ff0_00d0 != 0x0700_0010
        && instr & 0x0ff0_00d0 != 0x0700_0050
        && instr & 0x0ff0_00d0 != 0x0740_0010
        && instr & 0x0ff0_00d0 != 0x0740_0050
        && instr & 0x0ff0_00d0 != 0x0750_0010
        && instr & 0x0ff0_00d0 != 0x0750_00d0
        && instr & 0x0ff0_0090 != 0x0100_0080
        && instr & 0x0ff0_0090 != 0x0140_0080
        && instr & 0x0ff0_00b0 != 0x0120_0080
        && instr & 0x0ff0_00b0 != 0x0120_00a0
        && instr & 0x0ff0_0090 != 0x0160_0080
        && instr & 0x0f80_00f0 != 0x0080_0090
        && instr & 0x0fc0_00f0 != 0x0000_0090
        && (instr & 0x90 != 0x90 || (instr >> 25) & 7 != 0 || (instr >> 5) & 3 == 0)
        && (instr >> 25) & 7 == 5)
        && (instr & 0x0e00_0000 == 0x0800_0000 ==> instr & 0x0c00_0000 != 0x0c00_0000 && instr & 0x0fff_fff0 != 0x012f_ff10
        && instr & 0x0fff_fff0 != 0x012f_ff20
        && instr & 0x0fff_fff0 != 0x012f_ff30
        && instr & 0x0ff0_00f0 != 0x0120_0070
        && instr & 0xfff0_00f0 != 0xe7f0_00f0
        && instr & 0x0f00_0000 != 0x0f00_0000
        && instr & 0x0fff_f000 != 0x0320_f000
        && instr & 0x0ff0_0000 != 0x0300_0000
        && instr & 0x0ff0_0000 != 0x0340_0000
        && instr & 0x0fe0_0070 != 0x07a0_0050
        && instr & 0x0fe0_0070 != 0x07e0_0050
        && instr & 0x0fe0_0070 != 0x07c0_0010
        && instr & 0x0fe0_007f != 0x07c0_001f
        && instr & 0x0fff_0ff0 != 0x06ff_0f30
        && instr & 0x0ff0_f0f0 != 0x0710_f010
        && instr & 0x0ff0_f0f0 != 0x0730_f010
        && instr & 0x0fff_0ff0 != 0x016f_0f10
        && instr & 0x0fff_0ff0 != 0x06bf_0f30
        && instr & 0x0fff_0ff0 != 0x06bf_0fb0
        && instr & 0x0fff_0ff0 != 0x06ff_0fb0
        && instr & 0x0fff_0fff != 0x014f_0000
        && instr & 0x0fff_0fff != 0x010f_0000
        && instr & 0x0ff0_fff0 != 0x0160_f000
        && instr & 0x0ff0_f000 != 0x0360_f000
        && instr & 0x0ff0_fff0 != 0x0120_f000
        && instr & 0x0ff0_f000 != 0x0320_f000
        && instr & 0x0ff0_0070 != 0x0680_0070
        && instr & 0x0ff0_0070 != 0x06a0_0070
        && instr & 0x0ff0_0070 != 0x06b0_0070
        && instr & 0x0ff0_0070 != 0x06c0_0070
        && instr & 0x0ff0_0070 != 0x06e0_0070
        && instr & 0x0ff0_0070 != 0x06f0_0070
        && instr & 0x0ff0_00f0 != 0x0780_0010
        && instr & 0x0ff0_0090 != 0x0680_0010
        && instr & 0x0ff0_0ff0 != 0x0680_0fb0
        && instr & 0x0f80_0f10 != 0x0600_0f10
        && instr & 0x0f90_0ff0 != 0x0100_0050
        && instr & 0x0ff0_0ff0 != 0x06a0_0f30
        && instr & 0x0ff0_0ff0 != 0x06e0_0f30
        && instr & 0x0fe0_0030 != 0x06a0_0010
        && instr & 0x0fe0_0030 != 0x06e0_0010
        && instr & 0x0ff0_0ff0 != 0x0100_0090
        && instr & 0x0ff0_0ff0 != 0x0140_0090
        && instr & 0x0ff0_0fff != 0x0190_0f9f
        && instr & 0x0ff0_0fff != 0x01b0_0f9f
        && instr & 0x0ff0_0fff != 0x01d0_0f9f
        && instr & 0x0ff0_0fff != 0x01f0_0f9f
        && instr & 0x0ff0_0ff0 != 0x0180_0f90
        && instr & 0x0ff0_0ff0 != 0x01a0_0f90
        && instr & 0x0ff0_0ff0 != 0x01c0_0f90
        && instr & 0x0ff0_0ff0 != 0x01e0_0f90
        && instr & 0x0ff0_00f0 != 0x0040_0090
        && instr & 0x0ff0_00d0 != 0x0700_0010
        && instr & 0x0ff0_00d0 != 0x0700_0050
        && instr & 0x0ff0_00d0 != 0x0740_0010
        && instr & 0x0ff0_00d0 != 0x0740_0050
        && instr & 0x0ff0_00d0 != 0x0750_0010
        && instr & 0x0ff0_00d0 != 0x0750_00d0
        && instr & 0x0ff0_0090 != 0x0100_0080
        && instr & 0x0ff0_0090 != 0x0140_0080
        && instr & 0x0ff0_00b0 != 0x0120_0080
        && instr & 0x0ff0_00b0 != 0x0120_00a0
        && instr & 0x0ff0_0090 != 0x0160_0080
        && instr & 0x0f80_00f0 != 0x0080_0090
        && instr & 0x0fc0_00f0 != 0x0000_0090
        && (instr & 0x90 != 0x90 || (instr >> 25) & 7 != 0 || (instr >> 5) & 3 == 0)
        && (instr >> 25) & 7 == 4)
        && ((instr & 0x0e00_0000 == 0x0400_0000 || instr & 0x0e00_0010 == 0x0600_0000) ==> instr & 0x0c00_0000 != 0x0c00_0000 && instr & 0x0fff_fff0 != 0x012f_ff10
        && instr & 0x0fff_fff0 != 0x012f_ff20
        && instr & 0x0fff_fff0 != 0x012f_ff30
        && instr & 0x0ff0_00f0 != 0x0120_0070
        && instr & 0xfff0_00f0 != 0xe7f0_00f0
        && instr & 0x0f00_0000 != 0x0f00_0000
        && instr & 0x0fff_f000 != 0x0320_f000
        && instr & 0x0ff0_0000 != 0x0300_0000
        && instr & 0x0ff0_0000 != 0x0340_0000
        && instr & 0x0fe0_0070 != 0x07a0_0050
        && instr & 0x0fe0_0070 != 0x07e0_0050
        && instr & 0x0fe0_0070 != 0x07c0_0010
        && instr & 0x0fe0_007f != 0x07c0_001f
        && instr & 0x0fff_0ff0 != 0x06ff_0f30
        && instr & 0x0ff0_f0f0 != 0x0710_f010
        && instr & 0x0ff0_f0f0 != 0x0730_f010
        && instr & 0x0fff_0ff0 != 0x016f_0f10
        && instr & 0x0fff_0ff0 != 0x06bf_0f30
        && instr & 0x0fff_0ff0 != 0x06bf_0fb0
        && instr & 0x0fff_0ff0 != 0x06ff_0fb0
        && instr & 0x0fff_0fff != 0x014f_0000
        && instr & 0x0fff_0fff != 0x010f_0000
        && instr & 0x0ff0_fff0 != 0x0160_f000
        && instr & 0x0ff0_f000 != 0x0360_f000
        && instr & 0x0ff0_fff0 != 0x0120_f000
        && instr & 0x0ff0_f000 != 0x0320_f000
        && instr & 0x0ff0_0070 != 0x0680_0070
        && instr & 0x0ff0_0070 != 0x06a0_0070
        && instr & 0x0ff0_0070 != 0x06b0_0070
        && instr & 0x0ff0_0070 != 0x06c0_0070
        && instr & 0x0ff0_0070 != 0x06e0_0070
        && instr & 0x0ff0_0070 != 0x06f0_0070
        && instr & 0x0ff0_00f0 != 0x0780_0010
        && instr & 0x0ff0_0090 != 0x0680_0010
        && instr & 0x0ff0_0ff0 != 0x0680_0fb0
        && instr & 0x0f80_0f10 != 0x0600_0f10
        && instr & 0x0f90_0ff0 != 0x0100_0050
        && instr & 0x0ff0_0ff0 != 0x06a0_0f30
        && instr & 0x0ff0_0ff0 != 0x06e0_0f30
        && instr & 0x0fe0_0030 != 0x06a0_0010
        && instr & 0x0fe0_0030 != 0x06e0_0010
        && instr & 0x0ff0_0ff0 != 0x0100_0090
        && instr & 0x0ff0_0ff0 != 0x0140_0090
        && instr & 0x0ff0_0fff != 0x0190_0f9f
        && instr & 0x0ff0_0fff != 0x01b0_0f9f
        && instr & 0x0ff0_0fff != 0x01d0_0f9f
        && instr & 0x0ff0_0fff != 0x01f0_0f9f
        && instr & 0x0ff0_0ff0 != 0x0180_0f90
        && instr & 0x0ff0_0ff0 != 0x01a0_0f90
        && instr & 0x0ff0_0ff0 != 0x01c0_0f90
        && instr & 0x0ff0_0ff0 != 0x01e0_0f90
        && instr & 0x0ff0_00f0 != 0x0040_0090
        && instr & 0x0ff0_00d0 != 0x0700_0010
        && instr & 0x0ff0_00d0 != 0x0700_0050
        && instr & 0x0ff0_00d0 != 0x0740_0010
        && instr & 0x0ff0_00d0 != 0x0740_0050
        && instr & 0x0ff0_00d0 != 0x0750_0010
        && instr & 0x0ff0_00d0 != 0x0750_00d0
        && instr & 0x0ff0_0090 != 0x0100_0080
        && instr & 0x0ff0_0090 != 0x0140_0080
        && instr & 0x0ff0_00b0 != 0x0120_0080
        && instr & 0x0ff0_00b0 != 0x0120_00a0
        && instr & 0x0ff0_0090 != 0x0160_0080
        && instr & 0x0f80_00f0 != 0x0080_0090
        && instr & 0x0fc0_00f0 != 0x0000_0090
        && (instr & 0x90 != 0x90 || (instr >> 25) & 7 != 0 || (instr >> 5) & 3 == 0)
        && ((instr >> 25) & 7 == 2 || (instr >> 25) & 7 == 3))
        && (instr & 0x0e00_0090 == 0x90 && instr & 0x60 != 0 ==> instr & 0x0c00_0000 != 0x0c00_0000 && instr & 0x0fff_fff0 != 0x012f_ff10
        && instr & 0x0fff_fff0 != 0x012f_ff20
        && instr & 0x0fff_fff0 != 0x012f_ff30
        && instr & 0x0ff0_00f0 != 0x0120_0070
        && instr & 0xfff0_00f0 != 0xe7f0_00f0
        && instr & 0x0f00_0000 != 0x0f00_0000
        && instr & 0x0fff_f000 != 0x0320_f000
        && instr & 0x0ff0_0000 != 0x0300_0000
        && instr & 0x0ff0_0000 != 0x0340_0000
        && instr & 0x0fe0_0070 != 0x07a0_0050
        && instr & 0x0fe0_0070 != 0x07e0_0050
        && instr & 0x0fe0_0070 != 0x07c0_0010
        && instr & 0x0fe0_007f != 0x07c0_001f
        && instr & 0x0fff_0ff0 != 0x06ff_0f30
        && instr & 0x0ff0_f0f0 != 0x0710_f010
        && instr & 0x0ff0_f0f0 != 0x0730_f010
        && instr & 0x0fff_0ff0 != 0x016f_0f10
        && instr & 0x0fff_0ff0 != 0x06bf_0f30
        && instr & 0x0fff_0ff0 != 0x06bf_0fb0
        && instr & 0x0fff_0ff0 != 0x06ff_0fb0
        && instr & 0x0fff_0fff != 0x014f_0000
        && instr & 0x0fff_0fff != 0x010f_0000
        && instr & 0x0ff0_fff0 != 0x0160_f000
        && instr & 0x0ff0_f000 != 0x0360_f000
        && instr & 0x0ff0_fff0 != 0x0120_f000
        && instr & 0x0ff0_f000 != 0x0320_f000
        && instr & 0x0ff0_0070 != 0x0680_0070
        && instr & 0x0ff0_0070 != 0x06a0_0070
        && instr & 0x0ff0_0070 != 0x06b0_0070
        && instr & 0x0ff0_0070 != 0x06c0_0070
        && instr & 0x0ff0_0070 != 0x06e0_0070
        && instr & 0x0ff0_0070 != 0x06f0_0070
        && instr & 0x0ff0_00f0 != 0x0780_0010
        && instr & 0x0ff0_0090 != 0x0680_0010
        && instr & 0x0ff0_0ff0 != 0x0680_0fb0
        && instr & 0x0f80_0f10 != 0x0600_0f10
        && instr & 0x0f90_0ff0 != 0x0100_0050
        && instr & 0x0ff0_0ff0 != 0x06a0_0f30
        && instr & 0x0ff0_0ff0 != 0x06e0_0f30
        && instr & 0x0fe0_0030 != 0x06a0_0010
        && instr & 0x0fe0_0030 != 0x06e0_0010
        && instr & 0x0ff0_0ff0 != 0x0100_0090
        && instr & 0x0ff0_0ff0 != 0x0140_0090
        && instr & 0x0ff0_0fff != 0x0190_0f9f
        && instr & 0x0ff0_0fff != 0x01b0_0f9f
        && instr & 0x0ff0_0fff != 0x01d0_0f9f
        && instr & 0x0ff0_0fff != 0x01f0_0f9f
        && instr & 0x0ff0_0ff0 != 0x0180_0f90
        && instr & 0x0ff0_0ff0 != 0x01a0_0f90
        && instr & 0x0ff0_0ff0 != 0x01c0_0f90
        && instr & 0x0ff0_0ff0 != 0x01e0_0f90
        && instr & 0x0ff0_00f0 != 0x0040_0090
        && instr & 0x0ff0_00d0 != 0x0700_0010
        && instr & 0x0ff0_00d0 != 0x0700_0050
        && instr & 0x0ff0_00d0 != 0x0740_0010
        && instr & 0x0ff0_00d0 != 0x0740_0050
        && instr & 0x0ff0_00d0 != 0x0750_0010
        && instr & 0x0ff0_00d0 != 0x0750_00d0
        && instr & 0x0ff0_0090 != 0x0100_0080
        && instr & 0x0ff0_0090 != 0x0140_0080
        && instr & 0x0ff0_00b0 != 0x0120_0080
        && instr & 0x0ff0_00b0 != 0x0120_00a0
        && instr & 0x0ff0_0090 != 0x0160_0080
        && instr & 0x0f80_00f0 != 0x0080_0090
        && instr & 0x0fc0_00f0 != 0x0000_0090
        && instr & 0x90 == 0x90
        && (instr >> 25) & 7 == 0
        && (instr >> 5) & 3 != 0)
        && ((instr & 0x0f00_00f0 == 0x90 || instr & 0x0f90_0090 == 0x0100_0080 || instr & 0x0f80_0010 == 0x0700_0010 && (instr & 0x0ff0_00d0 == 0x0700_0010 || instr & 0x0ff0_00d0 == 0x0700_0050 || instr & 0x0ff0_00d0 == 0x0740_0010 || instr & 0x0ff0_00d0 == 0x0740_0050 || instr & 0x0ff0_00d0 == 0x0750_0010 || instr & 0x0ff0_00d0 == 0x0750_00d0)) ==> instr & 0x0c00_0000 != 0x0c00_0000 && instr & 0x0fff_fff0 != 0x012f_ff10
        && instr & 0x0fff_fff0 != 0x012f_ff20
        && instr & 0x0fff_fff0 != 0x012f_ff30
        && instr & 0x0ff0_00f0 != 0x0120_0070
        && instr & 0xfff0_00f0 != 0xe7f0_00f0
        && instr & 0x0f00_0000 != 0x0f00_0000
        && instr & 0x0fff_f000 != 0x0320_f000
        && instr & 0x0ff0_0000 != 0x0300_0000
        && instr & 0x0ff0_0000 != 0x0340_0000
        && instr & 0x0fe0_0070 != 0x07a0_0050
        && instr & 0x0fe0_0070 != 0x07e0_0050
        && instr & 0x0fe0_0070 != 0x07c0_0010
        && instr & 0x0fe0_007f != 0x07c0_001f
        && instr & 0x0fff_0ff0 != 0x06ff_0f30
        && instr & 0x0ff0_f0f0 != 0x0710_f010
        && instr & 0x0ff0_f0f0 != 0x0730_f010
        && instr & 0x0fff_0ff0 != 0x016f_0f10
        && instr & 0x0fff_0ff0 != 0x06bf_0f30
        && instr & 0x0fff_0ff0 != 0x06bf_0fb0
        && instr & 0x0fff_0ff0 != 0x06ff_0fb0
        && instr & 0x0fff_0fff != 0x014f_0000
        && instr & 0x0fff_0fff != 0x010f_0000
        && instr & 0x0ff0_fff0 != 0x0160_f000
        && instr & 0x0ff0_f000 != 0x0360_f000
        && instr & 0x0ff0_fff0 != 0x0120_f000
        && instr & 0x0ff0_f000 != 0x0320_f000
        && instr & 0x0ff0_0070 != 0x0680_0070
        && instr & 0x0ff0_0070 != 0x06a0_0070
        && instr & 0x0ff0_0070 != 0x06b0_0070
        && instr & 0x0ff0_0070 != 0x06c0_0070
        && instr & 0x0ff0_0070 != 0x06e0_0070
        && instr & 0x0ff0_0070 != 0x06f0_0070
        && instr & 0x0ff0_00f0 != 0x0780_0010
        && instr & 0x0ff0_0090 != 0x0680_0010
        && instr & 0x0ff0_0ff0 != 0x0680_0fb0
        && instr & 0x0f80_0f10 != 0x0600_0f10
        && instr & 0x0f90_0ff0 != 0x0100_0050
        && instr & 0x0ff0_0ff0 != 0x06a0_0f30
        && instr & 0x0ff0_0ff0 != 0x06e0_0f30
        && instr & 0x0fe0_0030 != 0x06a0_0010
        && instr & 0x0fe0_0030 != 0x06e0_0010
        && instr & 0x0ff0_0ff0 != 0x0100_0090
        && instr & 0x0ff0_0ff0 != 0x0140_0090
        && instr & 0x0ff0_0fff != 0x0190_0f9f
        && instr & 0x0ff0_0fff != 0x01b0_0f9f
        && instr & 0x0ff0_0fff != 0x01d0_0f9f
        && instr & 0x0ff0_0fff != 0x01f0_0f9f
        && instr & 0x0ff0_0ff0 != 0x0180_0f90
        && instr & 0x0ff0_0ff0 != 0x01a0_0f90
        && instr & 0x0ff0_0ff0 != 0x01c0_0f90
        && instr & 0x0ff0_0ff0 != 0x01e0_0f90)
        && (instr & 0x0fc0_00f0 == 0x0000_0090 ==> instr & 0x0ff0_00f0 != 0x0040_0090 && instr & 0x0ff0_00d0 != 0x0700_0010 && instr & 0x0ff0_00d0 != 0x0700_0050 && instr & 0x0ff0_00d0 != 0x0740_0010 && instr & 0x0ff0_00d0 != 0x0740_0050 && instr & 0x0ff0_00d0 != 0x0750_0010 && instr & 0x0ff0_00d0 != 0x0750_00d0 && instr & 0x0ff0_0090 != 0x0100_0080 && instr & 0x0ff0_0090 != 0x0140_0080 && instr & 0x0ff0_00b0 != 0x0120_0080 && instr & 0x0ff0_00b0 != 0x0120_00a0 && instr & 0x0ff0_0090 != 0x0160_0080 && instr & 0x0f80_00f0 != 0x0080_0090 && ((instr & 0x0f00_00f0 == 0x90 || instr & 0x0f90_0090 == 0x0100_0080 || instr & 0x0f80_0010 == 0x0700_0010 && (instr & 0x0ff0_00d0 == 0x0700_0010 || instr & 0x0ff0_00d0 == 0x0700_0050 || instr & 0x0ff0_00d0 == 0x0740_0010 || instr & 0x0ff0_00d0 == 0x0740_0050 || instr & 0x0ff0_00d0 == 0x0750_0010 || instr & 0x0ff0_00d0 == 0x0750_00d0))))
        && (instr & 0x0f80_00f0 == 0x0080_0090 ==> instr & 0x0ff0_00f0 != 0x0040_0090 && instr & 0x0ff0_00d0 != 0x0700_0010 && instr & 0x0ff0_00d0 != 0x0700_0050 && instr & 0x0ff0_00d0 != 0x0740_0010 && instr & 0x0ff0_00d0 != 0x0740_0050 && instr & 0x0ff0_00d0 != 0x0750_0010 && instr & 0x0ff0_00d0 != 0x0750_00d0 && instr & 0x0ff0_0090 != 0x0100_0080 && instr & 0x0ff0_0090 != 0x0140_0080 && instr & 0x0ff0_00b0 != 0x0120_0080 && instr & 0x0ff0_00b0 != 0x0120_00a0 && instr & 0x0ff0_0090 != 0x0160_0080 && ((instr & 0x0f00_00f0 == 0x90 || instr & 0x0f90_0090 == 0x0100_0080 || instr & 0x0f80_0010 == 0x0700_0010 && (instr & 0x0ff0_00d0 == 0x0700_0010 || instr & 0x0ff0_00d0 == 0x0700_0050 || instr & 0x0ff0_00d0 == 0x0740_0010 || instr & 0x0ff0_00d0 == 0x0740_0050 || instr & 0x0ff0_00d0 == 0x0750_0010 || instr & 0x0ff0_00d0 == 0x0750_00d0))))
        && (instr & 0x0ff0_00f0 == 0x0040_0090 ==> ((instr & 0x0f00_00f0 == 0x90 || instr & 0x0f90_0090 == 0x0100_0080 || instr & 0x0f80_0010 == 0x0700_0010 && (instr & 0x0ff0_00d0 == 0x0700_0010 || instr & 0x0ff0_00d0 == 0x0700_0050 || instr & 0x0ff0_00d0 == 0x0740_0010 || instr & 0x0ff0_00d0 == 0x0740_0050 || instr & 0x0ff0_00d0 == 0x0750_0010 || instr & 0x0ff0_00d0 == 0x0750_00d0))))
        && (instr & 0x0ff0_0090 == 0x0100_0080 ==> instr & 0x0ff0_00f0 != 0x0040_0090 && instr & 0x0ff0_00d0 != 0x0700_0010 && instr & 0x0ff0_00d0 != 0x0700_0050 && instr & 0x0ff0_00d0 != 0x0740_0010 && instr & 0x0ff0_00d0 != 0x0740_0050 && instr & 0x0ff0_00d0 != 0x0750_0010 && instr & 0x0ff0_00d0 != 0x0750_00d0 && instr & 0x0ff0_0090 != 0x0140_0080 && instr & 0x0ff0_00b0 != 0x0120_0080 && instr & 0x0ff0_00b0 != 0x0120_00a0 && instr & 0x0ff0_0090 != 0x0160_0080 && ((instr & 0x0f00_00f0 == 0x90 || instr & 0x0f90_0090 == 0x0100_0080 || instr & 0x0f80_0010 == 0x0700_0010 && (instr & 0x0ff0_00d0 == 0x0700_0010 || instr & 0x0ff0_00d0 == 0x0700_0050 || instr & 0x0ff0_00d0 == 0x0740_0010 || instr & 0x0ff0_00d0 == 0x0740_0050 || instr & 0x0ff0_00d0 == 0x0750_0010 || instr & 0x0ff0_00d0 == 0x0750_00d0))))
        && (instr & 0x0ff0_0090 == 0x0140_0080 ==> instr & 0x0ff0_00f0 != 0x0040_0090 && instr & 0x0ff0_00d0 != 0x0700_0010 && instr & 0x0ff0_00d0 != 0x0700_0050 && instr & 0x0ff0_00d0 != 0x0740_0010 && instr & 0x0ff0_00d0 != 0x0740_0050 && instr & 0x0ff0_00d0 != 0x0750_0010 && instr & 0x0ff0_00d0 != 0x0750_00d0 && instr & 0x0ff0_0090 != 0x0100_0080 && instr & 0x0ff0_00b0 != 0x0120_0080 && instr & 0x0ff0_00b0 != 0x0120_00a0 && instr & 0x0ff0_0090 != 0x0160_0080 && ((instr & 0x0f00_00f0 == 0x90 || instr & 0x0f90_0090 == 0x0100_0080 || instr & 0x0f80_0010 == 0x0700_0010 && (instr & 0x0ff0_00d0 == 0x0700_0010 || instr & 0x0ff0_00d0 == 0x0700_0050 || instr & 0x0ff0_00d0 == 0x0740_0010 || instr & 0x0ff0_00d0 == 0x0740_0050 || instr & 0x0ff0_00d0 == 0x0750_0010 || instr & 0x0ff0_00d0 == 0x0750_00d0))))
        && (instr & 0x0ff0_00b0 == 0x0120_0080 ==> instr & 0x0ff0_00f0 != 0x0040_0090 && instr & 0x0ff0_00d0 != 0x0700_0010 && instr & 0x0ff0_00d0 != 0x0700_0050 && instr & 0x0ff0_00d0 != 0x0740_0010 && instr & 0x0ff0_00d0 != 0x0740_0050 && instr & 0x0ff0_00d0 != 0x0750_0010 && instr & 0x0ff0_00d0 != 0x0750_00d0 && instr & 0x0ff0_0090 != 0x0100_0080 && instr & 0x0ff0_0090 != 0x0140_0080 && instr & 0x0ff0_00b0 != 0x0120_00a0 && instr & 0x0ff0_0090 != 0x0160_0080 && ((instr & 0x0f00_00f0 == 0x90 || instr & 0x0f90_0090 == 0x0100_0080 || instr & 0x0f80_0010 == 0x0700_0010 && (instr & 0x0ff0_00d0 == 0x0700_0010 || instr & 0x0ff0_00d0 == 0x0700_0050 || instr & 0x0ff0_00d0 == 0x0740_0010 || instr & 0x0ff0_00d0 == 0x0740_0050 || instr & 0x0ff0_00d0 == 0x0750_0010 || instr & 0x0ff0_00d0 == 0x0750_00d0))))
        && (instr & 0x0ff0_00b0 == 0x0120_00a0 ==> instr & 0x0ff0_00f0 != 0x0040_0090 && instr & 0x0ff0_00d0 != 0x0700_0010 && instr & 0x0ff0_00d0 != 0x0700_0050 && instr & 0x0ff0_00d0 != 0x0740_0010 && instr & 0x0ff0_00d0 != 0x0740_0050 && instr & 0x0ff0_00d0 != 0x0750_0010 && instr & 0x0ff0_00d0 != 0x0750_00d0 && instr & 0x0ff0_0090 != 0x0100_0080 && instr & 0x0ff0_0090 != 0x0140_0080 && instr & 0x0ff0_00b0 != 0x0120_0080 && instr & 0x0ff0_0090 != 0x0160_0080 && ((instr & 0x0f00_00f0 == 0x90 || instr & 0x0f90_0090 == 0x0100_0080 || instr & 0x0f80_0010 == 0x0700_0010 && (instr & 0x0ff0_00d0 == 0x0700_0010 || instr & 0x0ff0_00d0 == 0x0700_0050 || instr & 0x0ff0_00d0 == 0x0740_0010 || instr & 0x0ff0_00d0 == 0x0740_0050 || instr & 0x0ff0_00d0 == 0x0750_0010 || instr & 0x0ff0_00d0 == 0x0750_00d0))))
        && (instr & 0x0ff0_0090 == 0x0160_0080 ==> instr & 0x0ff0_00f0 != 0x0040_0090 && instr & 0x0ff0_00d0 != 0x0700_0010 && instr & 0x0ff0_00d0 != 0x0700_0050 && instr & 0x0ff0_00d0 != 0x0740_0010 && instr & 0x0ff0_00d0 != 0x0740_0050 && instr & 0x0ff0_00d0 != 0x0750_0010 && instr & 0x0ff0_00d0 != 0x0750_00d0 && instr & 0x0ff0_0090 != 0x0100_0080 && instr & 0x0ff0_0090 != 0x0140_0080 && instr & 0x0ff0_00b0 != 0x0120_0080 && instr & 0x0ff0_00b0 != 0x0120_00a0 && ((instr & 0x0f00_00f0 == 0x90 || instr & 0x0f90_0090 == 0x0100_0080 || instr & 0x0f80_0010 == 0x0700_0010 && (instr & 0x0ff0_00d0 == 0x0700_0010 || instr & 0x0ff0_00d0 == 0x0700_0050 || instr & 0x0ff0_00d0 == 0x0740_0010 || instr & 0x0ff0_00d0 == 0x0740_0050 || instr & 0x0ff0_00d0 == 0x0750_0010 || instr & 0x0ff0_00d0 == 0x0750_00d0))))
        && (instr & 0x0ff0_00d0 == 0x0700_0010 ==> instr & 0x0ff0_00f0 != 0x0040_0090 && instr & 0x0ff0_0090 != 0x0100_0080 && instr & 0x0ff0_0090 != 0x0140_0080 && instr & 0x0ff0_00b0 != 0x0120_0080 && instr & 0x0ff0_00b0 != 0x0120_00a0 && instr & 0x0ff0_0090 != 0x0160_0080 && ((instr & 0x0f00_00f0 == 0x90 || instr & 0x0f90_0090 == 0x0100_0080 || instr & 0x0f80_0010 == 0x0700_0010 && (instr & 0x0ff0_00d0 == 0x0700_0010 || instr & 0x0ff0_00d0 == 0x0700_0050 || instr & 0x0ff0_00d0 == 0x0740_0010 || instr & 0x0ff0_00d0 == 0x0740_0050 || instr & 0x0ff0_00d0 == 0x0750_0010 || instr & 0x0ff0_00d0 == 0x0750_00d0))))
        && (instr & 0x0ff0_00d0 == 0x0700_0050 ==> instr & 0x0ff0_00f0 != 0x0040_0090 && instr & 0x0ff0_0090 != 0x0100_0080 && instr & 0x0ff0_0090 != 0x0140_0080 && instr & 0x0ff0_00b0 != 0x0120_0080 && instr & 0x0ff0_00b0 != 0x0120_00a0 && instr & 0x0ff0_0090 != 0x0160_0080 && ((instr & 0x0f00_00f0 == 0x90 || instr & 0x0f90_0090 == 0x0100_0080 || instr & 0x0f80_0010 == 0x0700_0010 && (instr & 0x0ff0_00d0 == 0x0700_0010 || instr & 0x0ff0_00d0 == 0x0700_0050 || instr & 0x0ff0_00d0 == 0x0740_0010 || instr & 0x0ff0_00d0 == 0x0740_0050 || instr & 0x0ff0_00d0 == 0x0750_0010 || instr & 0x0ff0_00d0 == 0x0750_00d0))))
        && (instr & 0x0ff0_00d0 == 0x0740_0010 ==> instr & 0x0ff0_00f0 != 0x0040_0090 && instr & 0x0ff0_0090 != 0x0100_0080 && instr & 0x0ff0_0090 != 0x0140_0080 && instr & 0x0ff0_00b0 != 0x0120_0080 && instr & 0x0ff0_00b0 != 0x0120_00a0 && instr & 0x0ff0_0090 != 0x0160_0080 && ((instr & 0x0f00_00f0 == 0x90 || instr & 0x0f90_0090 == 0x0100_0080 || instr & 0x0f80_0010 == 0x0700_0010 && (instr & 0x0ff0_00d0 == 0x0700_0010 || instr & 0x0ff0_00d0 == 0x0700_0050 || instr & 0x0ff0_00d0 == 0x0740_0010 || instr & 0x0ff0_00d0 == 0x0740_0050 || instr & 0x0ff0_00d0 == 0x0750_0010 || instr & 0x0ff0_00d0 == 0x0750_00d0))))
        && (instr & 0x0ff0_00d0 == 0x0740_0050 ==> instr & 0x0ff0_00f0 != 0x0040_0090 && instr & 0x0ff0_0090 != 0x0100_0080 && instr & 0x0ff0_0090 != 0x0140_0080 && instr & 0x0ff0_00b0 != 0x0120_0080 && instr & 0x0ff0_00b0 != 0x0120_00a0 && instr & 0x0ff0_0090 != 0x0160_0080 && ((instr & 0x0f00_00f0 == 0x90 || instr & 0x0f90_0090 == 0x0100_0080 || instr & 0x0f80_0010 == 0x0700_0010 && (instr & 0x0ff0_00d0 == 0x0700_0010 || instr & 0x0ff0_00d0 == 0x0700_0050 || instr & 0x0ff0_00d0 == 0x0740_0010 || instr & 0x0ff0_00d0 == 0x0740_0050 || instr & 0x0ff0_00d0 == 0x0750_0010 || instr & 0x0ff0_00d0 == 0x0750_00d0))))
        && (instr & 0x0ff0_00d0 == 0x0750_0010 ==> instr & 0x0ff0_00f0 != 0x0040_0090 && instr & 0x0ff0_00d0 != 0x0700_0010 && instr & 0x0ff0_00d0 != 0x0700_0050 && instr & 0x0ff0_00d0 != 0x0740_0010 && instr & 0x0ff0_00d0 != 0x0740_0050 && instr & 0x0ff0_0090 != 0x0100_0080 && instr & 0x0ff0_0090 != 0x0140_0080 && instr & 0x0ff0_00b0 != 0x0120_0080 && instr & 0x0ff0_00b0 != 0x0120_00a0 && instr & 0x0ff0_0090 != 0x0160_0080 && ((instr & 0x0f00_00f0 == 0x90 || instr & 0x0f90_0090 == 0x0100_0080 || instr & 0x0f80_0010 == 0x0700_0010 && (instr & 0x0ff0_00d0 == 0x0700_0010 || instr & 0x0ff0_00d0 == 0x0700_0050 || instr & 0x0ff0_00d0 == 0x0740_0010 || instr & 0x0ff0_00d0 == 0x0740_0050 || instr & 0x0ff0_00d0 == 0x0750_0010 || instr & 0x0ff0_00d0 == 0x0750_00d0))))
        && (instr & 0x0ff0_00d0 == 0x0750_00d0 ==> instr & 0x0ff0_00f0 != 0x0040_0090 && instr & 0x0ff0_00d0 != 0x0700_0010 && instr & 0x0ff0_00d0 != 0x0700_0050 && instr & 0x0ff0_00d0 != 0x0740_0010 && instr & 0x0ff0_00d0 != 0x0740_0050 && instr & 0x0ff0_0090 != 0x0100_0080 && instr & 0x0ff0_0090 != 0x0140_0080 && instr & 0x0ff0_00b0 != 0x0120_0080 && instr & 0x0ff0_00b0 != 0x0120_00a0 && instr & 0x0ff0_0090 != 0x0160_0080 && ((instr & 0x0f00_00f0 == 0x90 || instr & 0x0f90_0090 == 0x0100_0080 || instr & 0x0f80_0010 == 0x0700_0010 && (instr & 0x0ff0_00d0 == 0x0700_0010 || instr & 0x0ff0_00d0 == 0x0700_0050 || instr & 0x0ff0_00d0 == 0x0740_0010 || instr & 0x0ff0_00d0 == 0x0740_0050 || instr & 0x0ff0_00d0 == 0x0750_0010 || instr & 0x0ff0_00d0 == 0x0750_00d0))))
        && (instr & 0x0f90_0090 == 0x0100_0080 ==> ((instr & 0x0f00_00f0 == 0x90 || instr & 0x0f90_0090 == 0x0100_0080 || instr & 0x0f80_0010 == 0x0700_0010 && (instr & 0x0ff0_00d0 == 0x0700_0010 || instr & 0x0ff0_00d0 == 0x0700_0050 || instr & 0x0ff0_00d0 == 0x0740_0010 || instr & 0x0ff0_00d0 == 0x0740_0050 || instr & 0x0ff0_00d0 == 0x0750_0010 || instr & 0x0ff0_00d0 == 0x0750_00d0))) && (((instr >> 21) & 3 == 0 && instr & 0x0ff0_0090 == 0x0100_0080) || ((instr >> 21) & 3 == 1 && instr & (1u32 << 5) == 0 && instr & 0x0ff0_00b0 == 0x0120_0080) || ((instr >> 21) & 3 == 1 && instr & (1u32 << 5) != 0 && instr & 0x0ff0_00b0 == 0x0120_00a0) || ((instr >> 21) & 3 == 2 && instr & 0x0ff0_0090 == 0x0140_0080) || ((instr >> 21) & 3 == 3 && instr & 0x0ff0_0090 == 0x0160_0080)))
        && (instr & 0x0fb0_0090 == 0x0700_0010 ==> ((instr & 0x0f00_00f0 == 0x90 || instr & 0x0f90_0090 == 0x0100_0080 || instr & 0x0f80_0010 == 0x0700_0010 && (instr & 0x0ff0_00d0 == 0x0700_0010 || instr & 0x0ff0_00d0 == 0x0700_0050 || instr & 0x0ff0_00d0 == 0x0740_0010 || instr & 0x0ff0_00d0 == 0x0740_0050 || instr & 0x0ff0_00d0 == 0x0750_0010 || instr & 0x0ff0_00d0 == 0x0750_00d0))) && (instr & 0x0ff0_00d0 == 0x0700_0010 || instr & 0x0ff0_00d0 == 0x0700_0050 || instr & 0x0ff0_00d0 == 0x0740_0010 || instr & 0x0ff0_00d0 == 0x0740_0050) && (instr & 0x0ff0_00d0 & 0x0040_0000 != 0) == (instr & (1u32 << 22) != 0) && (instr & 0x0ff0_00d0 & 0x40 == 0) == (instr & (1u32 << 6) == 0))
        && (instr & 0x0e00_0090 == 0x90 && instr & 0x60 != 0 ==> instr & 0x90 == 0x90 && (instr >> 25) & 7 == 0 && (instr >> 5) & 3 != 0)) by (bit_vector);
}

/// Which multiplication a word is.
pub proof fn multiply_keys(instr: u32)
    ensures
        (instr & 0x0fc0_00f0 == 0x0000_0090 ==> instr & 0x0ff0_00f0 != 0x0040_0090 && instr & 0x0ff0_00d0 != 0x0700_0010 && instr & 0x0ff0_00d0 != 0x0700_0050 && instr & 0x0ff0_00d0 != 0x0740_0010 && instr & 0x0ff0_00d0 != 0x0740_0050 && instr & 0x0ff0_00d0 != 0x0750_0010 && instr & 0x0ff0_00d0 != 0x0750_00d0 && instr & 0x0ff0_0090 != 0x0100_0080 && instr & 0x0ff0_0090 != 0x0140_0080 && instr & 0x0ff0_00b0 != 0x0120_0080 && instr & 0x0ff0_00b0 != 0x0120_00a0 && instr & 0x0ff0_0090 != 0x0160_0080 && instr & 0x0f80_00f0 != 0x0080_0090 && ((instr & 0x0f00_00f0 == 0x90 || instr & 0x0f90_0090 == 0x0100_0080 || instr & 0x0f80_0010 == 0x0700_0010 && (instr & 0x0ff0_00d0 == 0x0700_0010 || instr & 0x0ff0_00d0 == 0x0700_0050 || instr & 0x0ff0_00d0 == 0x0740_0010 || instr & 0x0ff0_00d0 == 0x0740_0050 || instr & 0x0ff0_00d0 == 0x0750_0010 || instr & 0x0ff0_00d0 == 0x0750_00d0)))),
        (instr & 0x0f80_00f0 == 0x0080_0090 ==> instr & 0x0ff0_00f0 != 0x0040_0090 && instr & 0x0ff0_00d0 != 0x0700_0010 && instr & 0x0ff0_00d0 != 0x0700_0050 && instr & 0x0ff0_00d0 != 0x0740_0010 && instr & 0x0ff0_00d0 != 0x0740_0050 && instr & 0x0ff0_00d0 != 0x0750_0010 && instr & 0x0ff0_00d0 != 0x0750_00d0 && instr & 0x0ff0_0090 != 0x0100_0080 && instr & 0x0ff0_0090 != 0x0140_0080 && instr & 0x0ff0_00b0 != 0x0120_0080 && instr & 0x0ff0_00b0 != 0x0120_00a0 && instr & 0x0ff0_0090 != 0x0160_0080 && ((instr & 0x0f00_00f0 == 0x90 || instr & 0x0f90_0090 == 0x0100_0080 || instr & 0x0f80_0010 == 0x0700_0010 && (instr & 0x0ff0_00d0 == 0x0700_0010 || instr & 0x0ff0_00d0 == 0x0700_0050 || instr & 0x0ff0_00d0 == 0x0740_0010 || instr & 0x0ff0_00d0 == 0x0740_0050 || instr & 0x0ff0_00d0 == 0x0750_0010 || instr & 0x0ff0_00d0 == 0x0750_00d0)))),
        (instr & 0x0ff0_00f0 == 0x0040_0090 ==> ((instr & 0x0f00_00f0 == 0x90 || instr & 0x0f90_0090 == 0x0100_0080 || instr & 0x0f80_0010 == 0x0700_0010 && (instr & 0x0ff0_00d0 == 0x0700_0010 || instr & 0x0ff0_00d0 == 0x0700_0050 || instr & 0x0ff0_00d0 == 0x0740_0010 || instr & 0x0ff0_00d0 == 0x0740_0050 || instr & 0x0ff0_00d0 == 0x0750_0010 || instr & 0x0ff0_00d0 == 0x0750_00d0)))),
        (instr & 0x0ff0_0090 == 0x0100_0080 ==> instr & 0x0ff0_00f0 != 0x0040_0090 && instr & 0x0ff0_00d0 != 0x0700_0010 && instr & 0x0ff0_00d0 != 0x0700_0050 && instr & 0x0ff0_00d0 != 0x0740_0010 && instr & 0x0ff0_00d0 != 0x0740_0050 && instr & 0x0ff0_00d0 != 0x0750_0010 && instr & 0x0ff0_00d0 != 0x0750_00d0 && instr & 0x0ff0_0090 != 0x0140_0080 && instr & 0x0ff0_00b0 != 0x0120_0080 && instr & 0x0ff0_00b0 != 0x0120_00a0 && instr & 0x0ff0_0090 != 0x0160_0080 && ((instr & 0x0f00_00f0 == 0x90 || instr & 0x0f90_0090 == 0x0100_0080 || instr & 0x0f80_0010 == 0x0700_0010 && (instr & 0x0ff0_00d0 == 0x0700_0010 || instr & 0x0ff0_00d0 == 0x0700_0050 || instr & 0x0ff0_00d0 == 0x0740_0010 || instr & 0x0ff0_00d0 == 0x0740_0050 || instr & 0x0ff0_00d0 == 0x0750_0010 || instr & 0x0ff0_00d0 == 0x0750_00d0)))),
        (instr & 0x0ff0_0090 == 0x0140_0080 ==> instr & 0x0ff0_00f0 != 0x0040_0090 && instr & 0x0ff0_00d0 != 0x0700_0010 && instr & 0x0ff0_00d0 != 0x0700_0050 && instr & 0x0ff0_00d0 != 0x0740_0010 && instr & 0x0ff0_00d0 != 0x0740_0050 && instr & 0x0ff0_00d0 != 0x0750_0010 && instr & 0x0ff0_00d0 != 0x0750_00d0 && instr & 0x0ff0_0090 != 0x0100_0080 && instr & 0x0ff0_00b0 != 0x0120_0080 && instr & 0x0ff0_00b0 != 0x0120_00a0 && instr & 0x0ff0_0090 != 0x0160_0080 && ((instr & 0x0f00_00f0 == 0x90 || instr & 0x0f90_0090 == 0x0100_0080 || instr & 0x0f80_0010 == 0x0700_0010 && (instr & 0x0ff0_00d0 == 0x0700_0010 || instr & 0x0ff0_00d0 == 0x0700_0050 || instr & 0x0ff0_00d0 == 0x0740_0010 || instr & 0x0ff0_00d0 == 0x0740_0050 || instr & 0x0ff0_00d0 == 0x0750_0010 || instr & 0x0ff0_00d0 == 0x0750_00d0)))),
        (instr & 0x0ff0_00b0 == 0x0120_0080 ==> instr & 0x0ff0_00f0 != 0x0040_0090 && instr & 0x0ff0_00d0 != 0x0700_0010 && instr & 0x0ff0_00d0 != 0x0700_0050 && instr & 0x0ff0_00d0 != 0x0740_0010 && instr & 0x0ff0_00d0 != 0x0740_0050 && instr & 0x0ff0_00d0 != 0x0750_0010 && instr & 0x0ff0_00d0 != 0x0750_00d0 && instr & 0x0ff0_0090 != 0x0100_0080 && instr & 0x0ff0_0090 != 0x0140_0080 && instr & 0x0ff0_00b0 != 0x0120_00a0 && instr & 0x0ff0_0090 != 0x0160_0080 && ((instr & 0x0f00_00f0 == 0x90 || instr & 0x0f90_0090 == 0x0100_0080 || instr & 0x0f80_0010 == 0x0700_0010 && (instr & 0x0ff0_00d0 == 0x0700_0010 || instr & 0x0ff0_00d0 == 0x0700_0050 || instr & 0x0ff0_00d0 == 0x0740_0010 || instr & 0x0ff0_00d0 == 0x0740_0050 || instr & 0x0ff0_00d0 == 0x0750_0010 || instr & 0x0ff0_00d0 == 0x0750_00d0)))),
        (instr & 0x0ff0_00b0 == 0x0120_00a0 ==> instr & 0x0ff0_00f0 != 0x0040_0090 && instr & 0x0ff0_00d0 != 0x0700_0010 && instr & 0x0ff0_00d0 != 0x0700_0050 && instr & 0x0ff0_00d0 != 0x0740_0010 && instr & 0x0ff0_00d0 != 0x0740_0050 && instr & 0x0ff0_00d0 != 0x0750_0010 && instr & 0x0ff0_00d0 != 0x0750_00d0 && instr & 0x0ff0_0090 != 0x0100_0080 && instr & 0x0ff0_0090 != 0x0140_0080 && instr & 0x0ff0_00b0 != 0x0120_0080 && instr & 0x0ff0_0090 != 0x0160_0080 && ((instr & 0x0f00_00f0 == 0x90 || instr & 0x0f90_0090 == 0x0100_0080 || instr & 0x0f80_0010 == 0x0700_0010 && (instr & 0x0ff0_00d0 == 0x0700_0010 || instr & 0x0ff0_00d0 == 0x0700_0050 || instr & 0x0ff0_00d0 == 0x0740_0010 || instr & 0x0ff0_00d0 == 0x0740_0050 || instr & 0x0ff0_00d0 == 0x0750_0010 || instr & 0x0ff0_00d0 == 0x0750_00d0)))),
        (instr & 0x0ff0_0090 == 0x0160_0080 ==> instr & 0x0ff0_00f0 != 0x0040_0090 && instr & 0x0ff0_00d0 != 0x0700_0010 && instr & 0x0ff0_00d0 != 0x0700_0050 && instr & 0x0ff0_00d0 != 0x0740_0010 && instr & 0x0ff0_00d0 != 0x0740_0050 && instr & 0x0ff0_00d0 != 0x0750_0010 && instr & 0x0ff0_00d0 != 0x0750_00d0 && instr & 0x0ff0_0090 != 0x0100_0080 && instr & 0x0ff0_0090 != 0x0140_0080 && instr & 0x0ff0_00b0 != 0x0120_0080 && instr & 0x0ff0_00b0 != 0x0120_00a0 && ((instr & 0x0f00_00f0 == 0x90 || instr & 0x0f90_0090 == 0x0100_0080 || instr & 0x0f80_0010 == 0x0700_0010 && (instr & 0x0ff0_00d0 == 0x0700_0010 || instr & 0x0ff0_00d0 == 0x0700_0050 || instr & 0x0ff0_00d0 == 0x0740_0010 || instr & 0x0ff0_00d0 == 0x0740_0050 || instr & 0x0ff0_00d0 == 0x0750_0010 || instr & 0x0ff0_00d0 == 0x0750_00d0)))),
        (instr & 0x0ff0_00d0 == 0x0700_0010 ==> instr & 0x0ff0_00f0 != 0x0040_0090 && instr & 0x0ff0_0090 != 0x0100_0080 && instr & 0x0ff0_0090 != 0x0140_0080 && instr & 0x0ff0_00b0 != 0x0120_0080 && instr & 0x0ff0_00b0 != 0x0120_00a0 && instr & 0x0ff0_0090 != 0x0160_0080 && ((instr & 0x0f00_00f0 == 0x90 || instr & 0x0f90_0090 == 0x0100_0080 || instr & 0x0f80_0010 == 0x0700_0010 && (instr & 0x0ff0_00d0 == 0x0700_0010 || instr & 0x0ff0_00d0 == 0x0700_0050 || instr & 0x0ff0_00d0 == 0x0740_0010 || instr & 0x0ff0_00d0 == 0x0740_0050 || instr & 0x0ff0_00d0 == 0x0750_0010 || instr & 0x0ff0_00d0 == 0x0750_00d0)))),
        (instr & 0x0ff0_00d0 == 0x0700_0050 ==> instr & 0x0ff0_00f0 != 0x0040_0090 && instr & 0x0ff0_0090 != 0x0100_0080 && instr & 0x0ff0_0090 != 0x0140_0080 && instr & 0x0ff0_00b0 != 0x0120_0080 && instr & 0x0ff0_00b0 != 0x0120_00a0 && instr & 0x0ff0_0090 != 0x0160_0080 && ((instr & 0x0f00_00f0 == 0x90 || instr & 0x0f90_0090 == 0x0100_0080 || instr & 0x0f80_0010 == 0x0700_0010 && (instr & 0x0ff0_00d0 == 0x0700_0010 || instr & 0x0ff0_00d0 == 0x0700_0050 || instr & 0x0ff0_00d0 == 0x0740_0010 || instr & 0x0ff0_00d0 == 0x0740_0050 || instr & 0x0ff0_00d0 == 0x0750_0010 || instr & 0x0ff0_00d0 == 0x0750_00d0)))),
        (instr & 0x0ff0_00d0 == 0x0740_0010 ==> instr & 0x0ff0_00f0 != 0x0040_0090 && instr & 0x0ff0_0090 != 0x0100_0080 && instr & 0x0ff0_0090 != 0x0140_0080 && instr & 0x0ff0_00b0 != 0x0120_0080 && instr & 0x0ff0_00b0 != 0x0120_00a0 && instr & 0x0ff0_0090 != 0x0160_0080 && ((instr & 0x0f00_00f0 == 0x90 || instr & 0x0f90_0090 == 0x0100_0080 || instr & 0x0f80_0010 == 0x0700_0010 && (instr & 0x0ff0_00d0 == 0x0700_0010 || instr & 0x0ff0_00d0 == 0x0700_0050 || instr & 0x0ff0_00d0 == 0x0740_0010 || instr & 0x0ff0_00d0 == 0x0740_0050 || instr & 0x0ff0_00d0 == 0x0750_0010 || instr & 0x0ff0_00d0 == 0x0750_00d0)))),
        (instr & 0x0ff0_00d0 == 0x0740_0050 ==> instr & 0x0ff0_00f0 != 0x0040_0090 && instr & 0x0ff0_0090 != 0x0100_0080 && instr & 0x0ff0_0090 != 0x0140_0080 && instr & 0x0ff0_00b0 != 0x0120_0080 && instr & 0x0ff0_00b0 != 0x0120_00a0 && instr & 0x0ff0_0090 != 0x0160_0080 && ((instr & 0x0f00_00f0 == 0x90 || instr & 0x0f90_0090 == 0x0100_0080 || instr & 0x0f80_0010 == 0x0700_0010 && (instr & 0x0ff0_00d0 == 0x0700_0010 || instr & 0x0ff0_00d0 == 0x0700_0050 || instr & 0x0ff0_00d0 == 0x0740_0010 || instr & 0x0ff0_00d0 == 0x0740_0050 || instr & 0x0ff0_00d0 == 0x0750_0010 || instr & 0x0ff0_00d0 == 0x0750_00d0)))),
        (instr & 0x0ff0_00d0 == 0x0750_0010 ==> instr & 0x0ff0_00f0 != 0x0040_0090 && instr & 0x0ff0_00d0 != 0x0700_0010 && instr & 0x0ff0_00d0 != 0x0700_0050 && instr & 0x0ff0_00d0 != 0x0740_0010 && instr & 0x0ff0_00d0 != 0x0740_0050 && instr & 0x0ff0_0090 != 0x0100_0080 && instr & 0x0ff0_0090 != 0x0140_0080 && instr & 0x0ff0_00b0 != 0x0120_0080 && instr & 0x0ff0_00b0 != 0x0120_00a0 && instr & 0x0ff0_0090 != 0x0160_0080 && ((instr & 0x0f00_00f0 == 0x90 || instr & 0x0f90_0090 == 0x0100_0080 || instr & 0x0f80_0010 == 0x0700_0010 && (instr & 0x0ff0_00d0 == 0x0700_0010 || instr & 0x0ff0_00d0 == 0x0700_0050 || instr & 0x0ff0_00d0 == 0x0740_0010 || instr & 0x0ff0_00d0 == 0x0740_0050 || instr & 0x0ff0_00d0 == 0x0750_0010 || instr & 0x0ff0_00d0 == 0x0750_00d0)))),
        (instr & 0x0ff0_00d0 == 0x0750_00d0 ==> instr & 0x0ff0_00f0 != 0x0040_0090 && instr & 0x0ff0_00d0 != 0x0700_0010 && instr & 0x0ff0_00d0 != 0x0700_0050 && instr & 0x0ff0_00d0 != 0x0740_0010 && instr & 0x0ff0_00d0 != 0x0740_0050 && instr & 0x0ff0_0090 != 0x0100_0080 && instr & 0x0ff0_0090 != 0x0140_0080 && instr & 0x0ff0_00b0 != 0x0120_0080 && instr & 0x0ff0_00b0 != 0x0120_00a0 && instr & 0x0ff0_0090 != 0x0160_0080 && ((instr & 0x0f00_00f0 == 0x90 || instr & 0x0f90_0090 == 0x0100_0080 || instr & 0x0f80_0010 == 0x0700_0010 && (instr & 0x0ff0_00d0 == 0x0700_0010 || instr & 0x0ff0_00d0 == 0x0700_0050 || instr & 0x0ff0_00d0 == 0x0740_0010 || instr & 0x0ff0_00d0 == 0x0740_0050 || instr & 0x0ff0_00d0 == 0x0750_0010 || instr & 0x0ff0_00d0 == 0x0750_00d0)))),
        (instr & 0x0f90_0090 == 0x0100_0080 ==> ((instr & 0x0f00_00f0 == 0x90 || instr & 0x0f90_0090 == 0x0100_0080 || instr & 0x0f80_0010 == 0x0700_0010 && (instr & 0x0ff0_00d0 == 0x0700_0010 || instr & 0x0ff0_00d0 == 0x0700_0050 || instr & 0x0ff0_00d0 == 0x0740_0010 || instr & 0x0ff0_00d0 == 0x0740_0050 || instr & 0x0ff0_00d0 == 0x0750_0010 || instr & 0x0ff0_00d0 == 0x0750_00d0))) && (((instr >> 21) & 3 == 0 && instr & 0x0ff0_0090 == 0x0100_0080) || ((instr >> 21) & 3 == 1 && instr & (1u32 << 5) == 0 && instr & 0x0ff0_00b0 == 0x0120_0080) || ((instr >> 21) & 3 == 1 && instr & (1u32 << 5) != 0 && instr & 0x0ff0_00b0 == 0x0120_00a0) || ((instr >> 21) & 3 == 2 && instr & 0x0ff0_0090 == 0x0140_0080) || ((instr >> 21) & 3 == 3 && instr & 0x0ff0_0090 == 0x0160_0080))),
        (instr & 0x0fb0_0090 == 0x0700_0010 ==> ((instr & 0x0f00_00f0 == 0x90 || instr & 0x0f90_0090 == 0x0100_0080 || instr & 0x0f80_0010 == 0x0700_0010 && (instr & 0x0ff0_00d0 == 0x0700_0010 || instr & 0x0ff0_00d0 == 0x0700_0050 || instr & 0x0ff0_00d0 == 0x0740_0010 || instr & 0x0ff0_00d0 == 0x0740_0050 || instr & 0x0ff0_00d0 == 0x0750_0010 || instr & 0x0ff0_00d0 == 0x0750_00d0))) && (instr & 0x0ff0_00d0 == 0x0700_0010 || instr & 0x0ff0_00d0 == 0x0700_0050 || instr & 0x0ff0_00d0 == 0x0740_0010 || instr & 0x0ff0_00d0 == 0x0740_0050) && (instr & 0x0ff0_00d0 & 0x0040_0000 != 0) == (instr & (1u32 << 22) != 0) && (instr & 0x0ff0_00d0 & 0x40 == 0) == (instr & (1u32 << 6) == 0)),
{
    keys(instr);
}

/// Words below the coprocessor space are no floating-point or coprocessor
/// instructions.
proof fn no_coprocessor(s: CpuState, m: MemState, instr: u32, pc: u32)
    requires
        instr & 0x0c00_0000 != 0x0c00_0000,
    ensures
        declined(vfp(s, m, instr, pc)),
        arm_coprocessor(s, instr, pc) == passed(s),
{
    keys(instr);
    reveal(vfp);
    reveal(arm_coprocessor);
    assert(fp_moves(s, instr, pc) == passed(s));
    assert(fp_compare(s, instr) == passed(s));
    assert(fp_convert(s, instr) == passed(s));
    assert(fp_arithmetic(s, instr) == passed(s));
}

/// A data-processing word does what data processing says.
pub proof fn data_words(s: CpuState, m: MemState, instr: u32, pc: u32)
    requires
        runs(s, instr),
        is_data(instr),
    ensures
        arm(s, m, instr, pc) == beside(arm_data_processing(s, instr, pc), m),
{
    keys(instr);
    no_coprocessor(s, m, instr, pc);
    reveal(arm_misc);
    reveal(arm_multiply);
    reveal(arm_halfword_transfer);
}

/// A branch does what branches do.
pub proof fn branch_words(s: CpuState, m: MemState, instr: u32, pc: u32)
    requires
        runs(s, instr),
        is_branch(instr),
    ensures
        arm(s, m, instr, pc) == (arm_branch(s, instr, pc), m, Ok::<(), TrapView>(())),
{
    keys(instr);
    no_coprocessor(s, m, instr, pc);
    reveal(arm_misc);
    reveal(arm_multiply);
    reveal(arm_halfword_transfer);
}

/// A block transfer does what block transfers do.
pub proof fn block_words(s: CpuState, m: MemState, instr: u32, pc: u32)
    requires
        runs(s, instr),
        is_block(instr),
    ensures
        arm(s, m, instr, pc) == arm_block_transfer(s, m, instr, pc),
{
    keys(instr);
    no_coprocessor(s, m, instr, pc);
    reveal(arm_misc);
    reveal(arm_multiply);
    reveal(arm_halfword_transfer);
}

/// A word or byte transfer does what such transfers do.
pub proof fn single_words(s: CpuState, m: MemState, instr: u32, pc: u32)
    requires
        runs(s, instr),
        is_single(instr),
    ensures
        arm(s, m, instr, pc) == arm_single_transfer(s, m, instr, pc),
{
    keys(instr);
    no_coprocessor(s, m, instr, pc);
    reveal(arm_misc);
    reveal(arm_multiply);
    reveal(arm_halfword_transfer);
}

/// A halfword, signed or doubleword transfer does what such transfers do.
pub proof fn halfword_words(s: CpuState, m: MemState, instr: u32, pc: u32)
    requires
        runs(s, instr),
        is_halfword(instr),
    ensures
        arm(s, m, instr, pc) == settled(arm_halfword_transfer(s, m, instr, pc)),
{
    keys(instr);
    no_coprocessor(s, m, instr, pc);
    reveal(arm_misc);
    reveal(arm_multiply);
    reveal(arm_halfword_transfer);
}

/// The fixed bits of a halfword, signed or doubleword transfer.
pub proof fn halfword_shape(instr: u32)
    requires
        is_halfword(instr),
    ensures
        instr & 0x90 == 0x90,
        (instr >> 25) & 7 == 0,
        (instr >> 5) & 3 != 0,
{
    keys(instr);
}

/// A multiplication does what multiplications do.
pub proof fn multiply_words(s: CpuState, m: MemState, instr: u32, pc: u32)
    requires
        runs(s, instr),
        is_multiply(instr),
        arm_multiply(s, instr, pc).1 != Ok::<bool, TrapView>(false),
    ensures
        arm(s, m, instr, pc) == settled(beside(arm_multiply(s, instr, pc), m)),
{
    keys(instr);
    no_coprocessor(s, m, instr, pc);
    reveal(arm_misc);
}

/// A word that an earlier decoder has not taken and the miscellaneous decoder
/// takes does what the latter says.
pub proof fn misc_words(s: CpuState, m: MemState, instr: u32, pc: u32)
    requires
        runs(s, instr),
        instr & 0x0c00_0000 != 0x0c00_0000,
        arm_early(s, instr, pc) is None,
        !declined(arm_misc(s, m, instr, pc)),
    ensures
        arm(s, m, instr, pc) == settled(arm_misc(s, m, instr, pc)),
{
    keys(instr);
    no_coprocessor(s, m, instr, pc);
}

} // verus!

use aemu::armv6::cpu::{FPSCR_DZC, FPSCR_IOC, FPSCR_IXC, FPSCR_OFC, FPSCR_UFC};
use aemu::armv6::{Cpu, Isa, Memory, Trap, VecMemory, VFP_FPSID_ARM1136};

fn enc_bit(value: bool, shift: u32) -> u32 {
    u32::from(value) << shift
}

fn enc_neon_3same(
    u: bool,
    size: u32,
    vn: usize,
    vd: usize,
    opcode: u32,
    q: bool,
    op: bool,
    vm: usize,
) -> u32 {
    0xf200_0000
        | enc_bit(u, 24)
        | (((vd >> 4) as u32 & 1) << 22)
        | ((size & 0x3) << 20)
        | (((vn & 0xf) as u32) << 16)
        | (((vd & 0xf) as u32) << 12)
        | ((opcode & 0xf) << 8)
        | (((vn >> 4) as u32 & 1) << 7)
        | enc_bit(q, 6)
        | (((vm >> 4) as u32 & 1) << 5)
        | enc_bit(op, 4)
        | ((vm & 0xf) as u32)
}

fn enc_neon_3diff(u: bool, size: u32, vn: usize, vd: usize, opcode: u32, vm: usize) -> u32 {
    0xf280_0000
        | enc_bit(u, 24)
        | (((vd >> 4) as u32 & 1) << 22)
        | ((size & 0x3) << 20)
        | (((vn & 0xf) as u32) << 16)
        | (((vd & 0xf) as u32) << 12)
        | ((opcode & 0xf) << 8)
        | (((vn >> 4) as u32 & 1) << 7)
        | (((vm >> 4) as u32 & 1) << 5)
        | ((vm & 0xf) as u32)
}

fn enc_neon_ls_multiple(
    load: bool,
    rn: usize,
    vd: usize,
    itype: u32,
    size: u32,
    align: u32,
    rm: usize,
) -> u32 {
    0xf400_0000
        | (((vd >> 4) as u32 & 1) << 22)
        | enc_bit(load, 21)
        | ((rn as u32) << 16)
        | (((vd & 0xf) as u32) << 12)
        | ((itype & 0xf) << 8)
        | ((size & 0x3) << 6)
        | ((align & 0x3) << 4)
        | ((rm & 0xf) as u32)
}

fn enc_neon_ls_all_lanes(
    rn: usize,
    vd: usize,
    nregs: u32,
    size: u32,
    stride: bool,
    align: bool,
    rm: usize,
) -> u32 {
    0xf4a0_0c00
        | (((vd >> 4) as u32 & 1) << 22)
        | ((rn as u32) << 16)
        | (((vd & 0xf) as u32) << 12)
        | (((nregs - 1) & 0x3) << 8)
        | ((size & 0x3) << 6)
        | enc_bit(stride, 5)
        | enc_bit(align, 4)
        | ((rm & 0xf) as u32)
}

fn enc_neon_ls_single(
    load: bool,
    rn: usize,
    vd: usize,
    nregs: u32,
    size: u32,
    reg_idx: u32,
    stride: bool,
    align: u32,
    rm: usize,
) -> u32 {
    let (form, index_bits, stride_bit, align_bits) = match size {
        0 => (0, (reg_idx & 0x7) << 5, 0, (align & 1) << 4),
        1 => (
            1,
            (reg_idx & 0x3) << 6,
            enc_bit(stride, 5),
            (align & 1) << 4,
        ),
        2 => (
            2,
            (reg_idx & 0x1) << 7,
            enc_bit(stride, 6),
            (align & 0x3) << 4,
        ),
        _ => unreachable!(),
    };
    0xf480_0000
        | enc_bit(load, 21)
        | (((vd >> 4) as u32 & 1) << 22)
        | ((rn as u32) << 16)
        | (((vd & 0xf) as u32) << 12)
        | ((form & 0x3) << 10)
        | (((nregs - 1) & 0x3) << 8)
        | index_bits
        | stride_bit
        | align_bits
        | ((rm & 0xf) as u32)
}

fn thumb_neon_ls_from_a32(instr: u32) -> (u16, u16) {
    let thumb = (instr & 0x00ff_ffff) | 0xf900_0000;
    ((thumb >> 16) as u16, thumb as u16)
}

fn thumb_neon_dp_from_a32(instr: u32) -> (u16, u16) {
    let thumb = (instr & 0xe0ff_ffff) | ((instr & (1 << 24)) << 4) | 0x0f00_0000;
    ((thumb >> 16) as u16, thumb as u16)
}

fn enc_neon_table(vn: usize, vd: usize, len: u32, tbx: bool, vm: usize) -> u32 {
    0xf3b0_0800
        | (((vd >> 4) as u32 & 1) << 22)
        | (((vn & 0xf) as u32) << 16)
        | (((vd & 0xf) as u32) << 12)
        | ((len & 0x3) << 8)
        | (((vn >> 4) as u32 & 1) << 7)
        | enc_bit(tbx, 6)
        | (((vm >> 4) as u32 & 1) << 5)
        | ((vm & 0xf) as u32)
}

fn enc_neon_vext(vn: usize, vd: usize, imm: u32, q: bool, vm: usize) -> u32 {
    0xf2b0_0000
        | (((vd >> 4) as u32 & 1) << 22)
        | (((vn & 0xf) as u32) << 16)
        | (((vd & 0xf) as u32) << 12)
        | ((imm & 0xf) << 8)
        | (((vn >> 4) as u32 & 1) << 7)
        | enc_bit(q, 6)
        | (((vm >> 4) as u32 & 1) << 5)
        | ((vm & 0xf) as u32)
}

fn enc_neon_vdup(vd: usize, imm4: u32, q: bool, vm: usize) -> u32 {
    0xf3b0_0c00
        | (((vd >> 4) as u32 & 1) << 22)
        | ((imm4 & 0xf) << 16)
        | (((vd & 0xf) as u32) << 12)
        | enc_bit(q, 6)
        | (((vm >> 4) as u32 & 1) << 5)
        | ((vm & 0xf) as u32)
}

fn enc_neon_vrev(vd: usize, size: u32, op: u32, q: bool, vm: usize) -> u32 {
    0xf3b0_0000
        | (((vd >> 4) as u32 & 1) << 22)
        | ((size & 0x3) << 18)
        | (((vd & 0xf) as u32) << 12)
        | ((op & 0xf) << 7)
        | enc_bit(q, 6)
        | (((vm >> 4) as u32 & 1) << 5)
        | ((vm & 0xf) as u32)
}

fn enc_neon_2reg_misc(vd: usize, size: u32, op1: u32, op2: u32, q: bool, vm: usize) -> u32 {
    0xf3b0_0000
        | (((vd >> 4) as u32 & 1) << 22)
        | ((size & 0x3) << 18)
        | ((op1 & 0x3) << 16)
        | (((vd & 0xf) as u32) << 12)
        | ((op2 & 0xf) << 7)
        | enc_bit(q, 6)
        | (((vm >> 4) as u32 & 1) << 5)
        | ((vm & 0xf) as u32)
}

fn enc_neon_modified_imm(vd: usize, imm: u32, cmode: u32, q: bool, op: bool) -> u32 {
    0xf280_0010
        | (((imm >> 7) & 1) << 24)
        | (((vd >> 4) as u32 & 1) << 22)
        | (((imm >> 4) & 0x7) << 16)
        | (((vd & 0xf) as u32) << 12)
        | ((cmode & 0xf) << 8)
        | enc_bit(q, 6)
        | enc_bit(op, 5)
        | (imm & 0xf)
}

fn enc_neon_2reg_shift(
    u: bool,
    imm6: u32,
    vd: usize,
    opcode: u32,
    l: bool,
    q: bool,
    vm: usize,
) -> u32 {
    0xf280_0010
        | enc_bit(u, 24)
        | (((vd >> 4) as u32 & 1) << 22)
        | ((imm6 & 0x3f) << 16)
        | (((vd & 0xf) as u32) << 12)
        | ((opcode & 0xf) << 8)
        | enc_bit(l, 7)
        | enc_bit(q, 6)
        | (((vm >> 4) as u32 & 1) << 5)
        | ((vm & 0xf) as u32)
}

fn arm_single_transfer(
    i: bool,
    p: bool,
    u: bool,
    b: bool,
    w: bool,
    l: bool,
    rn: usize,
    rd: usize,
    offset: u32,
) -> u32 {
    0xe000_0000
        | 0x0400_0000
        | enc_bit(i, 25)
        | enc_bit(p, 24)
        | enc_bit(u, 23)
        | enc_bit(b, 22)
        | enc_bit(w, 21)
        | enc_bit(l, 20)
        | ((rn as u32) << 16)
        | ((rd as u32) << 12)
        | offset
}

fn arm_halfword_transfer(
    p: bool,
    u: bool,
    i: bool,
    w: bool,
    l: bool,
    rn: usize,
    rd: usize,
    op: u32,
    offset: u32,
) -> u32 {
    let offset_bits = if i {
        ((offset & 0xf0) << 4) | (offset & 0xf)
    } else {
        offset & 0xf
    };
    0xe000_0000
        | enc_bit(p, 24)
        | enc_bit(u, 23)
        | enc_bit(i, 22)
        | enc_bit(w, 21)
        | enc_bit(l, 20)
        | ((rn as u32) << 16)
        | ((rd as u32) << 12)
        | ((op & 0b11) << 5)
        | 0x90
        | offset_bits
}

fn arm_block_transfer(
    p: bool,
    u: bool,
    s: bool,
    w: bool,
    l: bool,
    rn: usize,
    reglist: u32,
) -> u32 {
    0xe000_0000
        | 0x0800_0000
        | enc_bit(p, 24)
        | enc_bit(u, 23)
        | enc_bit(s, 22)
        | enc_bit(w, 21)
        | enc_bit(l, 20)
        | ((rn as u32) << 16)
        | reglist
}

fn arm_data_processing_register_shift(
    opcode: u32,
    set_flags: bool,
    rn: usize,
    rd: usize,
    rm: usize,
    rs: usize,
) -> u32 {
    0xe000_0000
        | ((opcode & 0xf) << 21)
        | enc_bit(set_flags, 20)
        | ((rn as u32) << 16)
        | ((rd as u32) << 12)
        | ((rs as u32) << 8)
        | 0x10
        | (rm as u32)
}

#[test]
fn arm_data_processing_function() {
    let mut cpu = Cpu::new();
    let mut mem = VecMemory::new(0x1000, 0x1000);
    mem.load_arm_words(
        0x1000,
        &[
            0xe3a0_0001, // mov r0, #1
            0xe280_1002, // add r1, r0, #2
            0xe351_0003, // cmp r1, #3
            0x13a0_2009, // movne r2, #9
            0x03a0_2007, // moveq r2, #7
            0xe12f_ff1e, // bx lr
        ],
    )
    .unwrap();
    cpu.set_pc(0x1000);
    cpu.set_reg(14, 0xffff_0000);
    for _ in 0..5 {
        cpu.step(&mut mem).unwrap();
    }
    assert_eq!(cpu.reg(0), 1);
    assert_eq!(cpu.reg(1), 3);
    assert_eq!(cpu.reg(2), 7);
    assert!(cpu.cpsr.z);
    cpu.step(&mut mem).unwrap();
    assert_eq!(cpu.pc(), 0xffff_0000);
}

#[test]
fn arm_memory_and_block_transfer_function() {
    let mut cpu = Cpu::new();
    let mut mem = VecMemory::new(0x1000, 0x2000);
    mem.load_arm_words(
        0x1000,
        &[
            0xe3a0_000a, // mov r0, #10
            0xe3a0_1014, // mov r1, #20
            0xe882_0003, // stm r2, {r0, r1}
            0xe3a0_0000, // mov r0, #0
            0xe3a0_1000, // mov r1, #0
            0xe892_000c, // ldm r2, {r2, r3}
        ],
    )
    .unwrap();
    cpu.set_pc(0x1000);
    cpu.set_reg(2, 0x1800);
    for _ in 0..6 {
        cpu.step(&mut mem).unwrap();
    }
    assert_eq!(cpu.reg(2), 10);
    assert_eq!(cpu.reg(3), 20);

    let err = cpu.execute_arm(0xe8b0_0000, 0x1018, &mut mem).unwrap_err(); // ldmia r0!, {}
    assert!(matches!(
        err,
        Trap::Unpredictable("empty block transfer register list")
    ));

    let err = cpu.execute_arm(0xe8d0_0002, 0x101c, &mut mem).unwrap_err(); // ldmia r0, {r1}^
    assert!(matches!(
        err,
        Trap::Unpredictable("block transfer user-mode/S bit")
    ));

    mem.store32(0x1900, 0x1122_3344).unwrap();
    mem.store32(0x1904, 0x5566_7788).unwrap();
    cpu.set_reg(2, 0x1900);
    cpu.execute_arm(0xe1c2_00d0, 0, &mut mem).unwrap(); // ldrd r0, r1, [r2]
    assert_eq!(cpu.reg(0), 0x1122_3344);
    assert_eq!(cpu.reg(1), 0x5566_7788);

    cpu.set_reg(4, 0xaabb_ccdd);
    cpu.set_reg(5, 0xeeff_0011);
    cpu.set_reg(6, 0x1910);
    cpu.execute_arm(0xe1c6_40f0, 0, &mut mem).unwrap(); // strd r4, r5, [r6]
    assert_eq!(mem.load32(0x1910).unwrap(), 0xaabb_ccdd);
    assert_eq!(mem.load32(0x1914).unwrap(), 0xeeff_0011);

    cpu.set_reg(2, 0x1900);
    let err = cpu.execute_arm(0xe1c2_10d0, 0, &mut mem).unwrap_err(); // ldrd r1, r2, [r2]
    assert!(matches!(err, Trap::Unpredictable(_)));

    cpu.set_reg(3, 0x1910);
    let err = cpu.execute_arm(0xe1c3_e0d0, 0, &mut mem).unwrap_err(); // ldrd r14, r15, [r3]
    assert!(matches!(err, Trap::Unpredictable(_)));

    cpu.set_reg(3, 0x1910);
    let err = cpu.execute_arm(0xe1c3_10f0, 0, &mut mem).unwrap_err(); // strd r1, r2, [r3]
    assert!(matches!(err, Trap::Unpredictable(_)));

    cpu.set_reg(3, 0x1910);
    let err = cpu.execute_arm(0xe1c3_e0f0, 0, &mut mem).unwrap_err(); // strd r14, r15, [r3]
    assert!(matches!(err, Trap::Unpredictable(_)));

    mem.store32(0x1940, 0x7001).unwrap();
    cpu.set_isa(Isa::Arm);
    cpu.set_reg(0, 0x1940);
    cpu.execute_arm(0xe8b0_8000, 0, &mut mem).unwrap(); // ldmia r0!, {pc}
    assert_eq!(cpu.reg(0), 0x1944);
    assert_eq!(cpu.pc(), 0x7000);
    assert!(cpu.cpsr.t);

    mem.store32(0x1950, 0x8000).unwrap();
    cpu.set_isa(Isa::Thumb);
    cpu.set_reg(13, 0x1950);
    cpu.execute_thumb(0xbd00, 0, &mut mem).unwrap(); // pop {pc}
    assert_eq!(cpu.reg(13), 0x1954);
    assert_eq!(cpu.pc(), 0x8000);
    assert!(!cpu.cpsr.t);

    cpu.set_reg(1, 0xdead_beef);
    cpu.set_reg(2, 0x1920);
    cpu.execute_arm(0xe4a2_1004, 0, &mut mem).unwrap(); // strt r1, [r2], #4
    assert_eq!(mem.load32(0x1920).unwrap(), 0xdead_beef);
    assert_eq!(cpu.reg(2), 0x1924);

    cpu.set_reg(2, 0x1920);
    cpu.execute_arm(0xe432_0004, 0, &mut mem).unwrap(); // ldrt r0, [r2], #-4
    assert_eq!(cpu.reg(0), 0xdead_beef);
    assert_eq!(cpu.reg(2), 0x191c);

    cpu.set_reg(3, 0xaa55);
    cpu.set_reg(4, 0x1930);
    cpu.set_reg(5, 3);
    cpu.execute_arm(0xe6e4_3005, 0, &mut mem).unwrap(); // strbt r3, [r4], r5
    assert_eq!(mem.load8(0x1930).unwrap(), 0x55);
    assert_eq!(cpu.reg(4), 0x1933);

    mem.store8(0x1933, 0x7e).unwrap();
    cpu.execute_arm(0xe674_6005, 0, &mut mem).unwrap(); // ldrbt r6, [r4], -r5
    assert_eq!(cpu.reg(6), 0x7e);
    assert_eq!(cpu.reg(4), 0x1930);
}

#[test]
fn arm_load_store_unpredictable_register_forms() {
    let mut cpu = Cpu::new();
    let mut mem = VecMemory::new(0x1000, 0x1000);

    let err = cpu
        .execute_arm(
            arm_single_transfer(false, false, true, false, false, true, 1, 1, 4),
            0,
            &mut mem,
        )
        .unwrap_err(); // ldr r1, [r1], #4
    assert_eq!(
        err,
        Trap::Unpredictable("single transfer writeback overlaps transferred register")
    );

    let err = cpu
        .execute_arm(
            arm_single_transfer(true, true, true, false, false, true, 1, 0, 15),
            0,
            &mut mem,
        )
        .unwrap_err(); // ldr r0, [r1, pc]
    assert_eq!(
        err,
        Trap::Unpredictable("single transfer with PC offset register")
    );

    let err = cpu
        .execute_arm(
            arm_single_transfer(false, true, true, true, false, true, 0, 15, 0),
            0,
            &mut mem,
        )
        .unwrap_err(); // ldrb pc, [r0]
    assert_eq!(
        err,
        Trap::Unpredictable("byte transfer with PC destination/source register")
    );

    let err = cpu
        .execute_arm(
            arm_single_transfer(false, false, true, false, false, true, 15, 0, 4),
            0,
            &mut mem,
        )
        .unwrap_err(); // ldr r0, [pc], #4
    assert_eq!(
        err,
        Trap::Unpredictable("single transfer writeback with PC base register")
    );

    let err = cpu
        .execute_arm(
            arm_halfword_transfer(true, true, true, false, true, 0, 15, 0b01, 0),
            0,
            &mut mem,
        )
        .unwrap_err(); // ldrh pc, [r0]
    assert_eq!(
        err,
        Trap::Unpredictable("halfword load with PC destination register")
    );

    let err = cpu
        .execute_arm(
            arm_halfword_transfer(false, true, true, false, true, 2, 2, 0b11, 2),
            0,
            &mut mem,
        )
        .unwrap_err(); // ldrsh r2, [r2], #2
    assert_eq!(
        err,
        Trap::Unpredictable("halfword load writeback with invalid base register")
    );

    let err = cpu
        .execute_arm(
            arm_halfword_transfer(true, true, true, false, false, 0, 15, 0b01, 0),
            0,
            &mut mem,
        )
        .unwrap_err(); // strh pc, [r0]
    assert_eq!(
        err,
        Trap::Unpredictable("halfword store with PC source register")
    );

    let err = cpu
        .execute_arm(
            arm_halfword_transfer(true, true, false, false, true, 0, 1, 0b01, 15),
            0,
            &mut mem,
        )
        .unwrap_err(); // ldrh r1, [r0, pc]
    assert_eq!(
        err,
        Trap::Unpredictable("halfword transfer with PC offset register")
    );

    let err = cpu
        .execute_arm(
            arm_halfword_transfer(false, true, true, false, false, 2, 2, 0b10, 4),
            0,
            &mut mem,
        )
        .unwrap_err(); // ldrd r2, [r2], #4
    assert_eq!(
        err,
        Trap::Unpredictable("doubleword transfer writeback with invalid base register")
    );

    let err = cpu
        .execute_arm(
            arm_halfword_transfer(true, true, false, false, false, 3, 2, 0b10, 2),
            0,
            &mut mem,
        )
        .unwrap_err(); // ldrd r2, [r3, r2]
    assert_eq!(
        err,
        Trap::Unpredictable("LDRD register offset overlaps destination")
    );

    let err = cpu
        .execute_arm(
            arm_halfword_transfer(false, true, true, false, false, 4, 4, 0b11, 8),
            0,
            &mut mem,
        )
        .unwrap_err(); // strd r4, [r4], #8
    assert_eq!(
        err,
        Trap::Unpredictable("doubleword transfer writeback with invalid base register")
    );

    let err = cpu
        .execute_arm(
            arm_block_transfer(false, true, false, false, true, 15, 1),
            0,
            &mut mem,
        )
        .unwrap_err(); // ldmia pc, {r0}
    assert_eq!(
        err,
        Trap::Unpredictable("block transfer with PC base register")
    );

    let err = cpu
        .execute_arm(
            arm_block_transfer(false, true, false, false, false, 15, 1),
            0,
            &mut mem,
        )
        .unwrap_err(); // stmia pc, {r0}
    assert_eq!(
        err,
        Trap::Unpredictable("block transfer with PC base register")
    );

    let err = cpu
        .execute_arm(
            arm_block_transfer(false, true, false, true, true, 0, 1),
            0,
            &mut mem,
        )
        .unwrap_err(); // ldmia r0!, {r0}
    assert_eq!(
        err,
        Trap::Unpredictable("LDM writeback with base in register list")
    );
}

#[test]
fn arm_adc_sbc_flags_use_full_carry_input() {
    let mut cpu = Cpu::new();
    let mut mem = VecMemory::new(0, 4);

    cpu.set_reg(1, u32::MAX);
    cpu.set_reg(2, 0);
    cpu.cpsr.c = true;
    cpu.execute_arm(0xe0b1_0002, 0, &mut mem).unwrap(); // adcs r0, r1, r2
    assert_eq!(cpu.reg(0), 0);
    assert!(cpu.cpsr.z);
    assert!(cpu.cpsr.c);

    cpu.set_reg(4, 0);
    cpu.set_reg(5, 0);
    cpu.cpsr.c = false;
    cpu.execute_arm(0xe0d4_3005, 0, &mut mem).unwrap(); // sbcs r3, r4, r5
    assert_eq!(cpu.reg(3), u32::MAX);
    assert!(!cpu.cpsr.c);
    assert!(cpu.cpsr.n);
}

#[test]
fn arm_data_processing_register_shift_traps_pc_forms() {
    let mut cpu = Cpu::new();
    let mut mem = VecMemory::new(0, 4);

    cpu.set_reg(1, 1);
    cpu.set_reg(2, 3);
    cpu.set_reg(3, 4);
    cpu.execute_arm(
        arm_data_processing_register_shift(0x4, false, 1, 0, 2, 3),
        0,
        &mut mem,
    )
    .unwrap(); // add r0, r1, r2, lsl r3
    assert_eq!(cpu.reg(0), 49);

    let err = cpu
        .execute_arm(
            arm_data_processing_register_shift(0x4, false, 15, 0, 2, 3),
            0,
            &mut mem,
        )
        .unwrap_err(); // add r0, pc, r2, lsl r3
    assert_eq!(
        err,
        Trap::Unpredictable("data-processing register shift with PC register")
    );

    let err = cpu
        .execute_arm(
            arm_data_processing_register_shift(0x4, false, 1, 0, 15, 3),
            0,
            &mut mem,
        )
        .unwrap_err(); // add r0, r1, pc, lsl r3
    assert_eq!(
        err,
        Trap::Unpredictable("data-processing register shift with PC register")
    );

    let err = cpu
        .execute_arm(
            arm_data_processing_register_shift(0x4, false, 1, 0, 2, 15),
            0,
            &mut mem,
        )
        .unwrap_err(); // add r0, r1, r2, lsl pc
    assert_eq!(
        err,
        Trap::Unpredictable("data-processing register shift with PC register")
    );

    let err = cpu
        .execute_arm(
            arm_data_processing_register_shift(0x4, false, 1, 15, 2, 3),
            0,
            &mut mem,
        )
        .unwrap_err(); // add pc, r1, r2, lsl r3
    assert_eq!(
        err,
        Trap::Unpredictable("data-processing register shift with PC register")
    );

    let err = cpu
        .execute_arm(
            arm_data_processing_register_shift(0xa, true, 15, 0, 2, 3),
            0,
            &mut mem,
        )
        .unwrap_err(); // cmp pc, r2, lsl r3
    assert_eq!(
        err,
        Trap::Unpredictable("data-processing register shift with PC register")
    );
}

#[test]
fn arm_and_thumb_blx_interworking_function() {
    let mut cpu = Cpu::new();
    let mut mem = VecMemory::new(0, 4);

    cpu.execute_arm(0xfa00_0000, 0x1000, &mut mem).unwrap(); // blx #0
    assert_eq!(cpu.reg(14), 0x1004);
    assert_eq!(cpu.pc(), 0x1008);
    assert!(cpu.cpsr.t);

    cpu.set_isa(Isa::Arm);
    cpu.set_reg(3, 0x1801);
    cpu.execute_arm(0xe12f_ff23, 0x1000, &mut mem).unwrap(); // bxj r3
    assert_eq!(cpu.pc(), 0x1800);
    assert!(cpu.cpsr.t);

    cpu.set_isa(Isa::Thumb);
    cpu.execute_thumb(0xf000, 0x2000, &mut mem).unwrap(); // bl/blx prefix
    cpu.execute_thumb(0xe808, 0x2002, &mut mem).unwrap(); // blx suffix
    assert_eq!(cpu.reg(14), 0x2005);
    assert_eq!(cpu.pc(), 0x2014);
    assert!(!cpu.cpsr.t);

    cpu.set_isa(Isa::Thumb);
    cpu.set_reg(0, 0x3000);
    cpu.execute_thumb(0x4780, 0x2100, &mut mem).unwrap(); // blx r0
    assert_eq!(cpu.reg(14), 0x2103);
    assert_eq!(cpu.pc(), 0x3000);
    assert!(!cpu.cpsr.t);

    cpu.set_isa(Isa::Arm);
    cpu.set_reg(0, 0x4001);
    cpu.execute_arm(0xe1a0_f000, 0x2200, &mut mem).unwrap(); // mov pc, r0
    assert_eq!(cpu.pc(), 0x4000);
    assert!(cpu.cpsr.t);

    cpu.set_isa(Isa::Arm);
    cpu.set_reg(1, 0);
    mem.store32(0, 0x5001).unwrap();
    cpu.execute_arm(0xe591_f000, 0x2300, &mut mem).unwrap(); // ldr pc, [r1]
    assert_eq!(cpu.pc(), 0x5000);
    assert!(cpu.cpsr.t);

    cpu.set_isa(Isa::Thumb);
    cpu.set_reg(0, 0x6000);
    cpu.execute_thumb(0x4687, 0x2400, &mut mem).unwrap(); // mov pc, r0
    assert_eq!(cpu.pc(), 0x6000);
    assert!(cpu.cpsr.t);

    cpu.set_isa(Isa::Arm);
    cpu.set_reg(0, 0x7001);
    let err = cpu.execute_arm(0xe1b0_f000, 0x2500, &mut mem).unwrap_err(); // movs pc, r0
    assert_eq!(
        err,
        Trap::Privileged {
            pc: 0x2500,
            instr: 0xe1b0_f000,
            operation: "data-processing exception return",
        }
    );
}

#[test]
fn arm_unconditional_hints_are_explicitly_handled() {
    let mut cpu = Cpu::new();
    let mut mem = VecMemory::new(0, 4);

    cpu.execute_arm(0xf5d1_f000, 0, &mut mem).unwrap(); // pld [r1]
    cpu.execute_arm(0xf753_f004, 0, &mut mem).unwrap(); // pld [r3, -r4]
    cpu.execute_arm(0xf101_0000, 0, &mut mem).unwrap(); // setend le
    cpu.execute_arm(0xe320_f001, 0, &mut mem).unwrap(); // yield hint
    cpu.execute_arm(0xf320_f001, 0, &mut mem).unwrap(); // unconditional yield hint

    let err = cpu.execute_arm(0xf101_0200, 0, &mut mem).unwrap_err(); // setend be
    assert!(matches!(err, Trap::Unpredictable(_)));

    let err = cpu.execute_arm(0xf108_0080, 0x44, &mut mem).unwrap_err(); // cpsie i
    assert_eq!(
        err,
        Trap::Privileged {
            pc: 0x44,
            instr: 0xf108_0080,
            operation: "CPS",
        }
    );

    let err = cpu.execute_arm(0xf89d_0a00, 0x48, &mut mem).unwrap_err(); // rfeia sp
    assert_eq!(
        err,
        Trap::Privileged {
            pc: 0x48,
            instr: 0xf89d_0a00,
            operation: "RFE",
        }
    );

    let err = cpu.execute_arm(0xf96d_0513, 0x4c, &mut mem).unwrap_err(); // srsdb sp!, #19
    assert_eq!(
        err,
        Trap::Privileged {
            pc: 0x4c,
            instr: 0xf96d_0513,
            operation: "SRS",
        }
    );

    let err = cpu.execute_arm(0xf000_0000, 0, &mut mem).unwrap_err();
    assert!(matches!(err, Trap::UndefinedArm { .. }));

    let err = cpu.execute_arm(0xe7f0_00f0, 0x40, &mut mem).unwrap_err(); // udf #0
    assert_eq!(
        err,
        Trap::UndefinedArm {
            pc: 0x40,
            instr: 0xe7f0_00f0
        }
    );
}

#[test]
fn arm_unsupported_newer_a32_encodings_trap_undefined() {
    let mut cpu = Cpu::new();
    let mut mem = VecMemory::new(0, 4);

    for instr in [
        0xe6ff_0f30, // rbit r0, r0
        0xe710_f010, // sdiv r0, r0, r0
        0xe730_f010, // udiv r0, r0, r0
    ] {
        let err = cpu.execute_arm(instr, 0x80, &mut mem).unwrap_err();
        assert_eq!(err, Trap::UndefinedArm { pc: 0x80, instr });
    }
}

#[test]
fn armv7_movw_movt_function() {
    let mut cpu = Cpu::new();
    let mut mem = VecMemory::new(0, 4);

    cpu.execute_arm(0xe302_60ab, 0, &mut mem).unwrap(); // movw r6, #0x20ab
    assert_eq!(cpu.reg(6), 0x20ab);

    cpu.execute_arm(0xe34c_6def, 0, &mut mem).unwrap(); // movt r6, #0xcdef
    assert_eq!(cpu.reg(6), 0xcdef_20ab);

    let err = cpu.execute_arm(0xe300_f000, 0x100, &mut mem).unwrap_err(); // movw pc, #0
    assert_eq!(err, Trap::Unpredictable("MOVW/MOVT with PC destination"));
}

#[test]
fn neon_three_same_integer_and_logic_function() {
    let mut cpu = Cpu::new();
    let mut mem = VecMemory::new(0, 4);

    cpu.set_dreg(1, 0x0807_0605_0403_0201);
    cpu.set_dreg(2, 0x0101_0101_0101_0101);
    cpu.execute_arm(
        enc_neon_3same(false, 0, 1, 0, 8, false, false, 2),
        0,
        &mut mem,
    )
    .unwrap(); // vadd.i8 d0, d1, d2
    assert_eq!(cpu.dreg(0), 0x0908_0706_0504_0302);

    cpu.set_dreg(3, 0x0008_0007_0006_0005);
    cpu.set_dreg(4, 0x0001_0002_0003_0004);
    cpu.execute_arm(
        enc_neon_3same(true, 1, 3, 5, 8, false, false, 4),
        0,
        &mut mem,
    )
    .unwrap(); // vsub.i16 d5, d3, d4
    assert_eq!(cpu.dreg(5), 0x0007_0005_0003_0001);

    cpu.set_dreg(3, 0xffff_8000_0001_0000);
    cpu.set_dreg(4, 0x0001_ffff_0002_0001);
    cpu.execute_arm(
        enc_neon_3same(true, 1, 3, 7, 2, false, false, 4),
        0,
        &mut mem,
    )
    .unwrap(); // vhsub.u16 d7, d3, d4
    assert_eq!(cpu.dreg(7), 0x7fff_c000_ffff_ffff);

    cpu.set_dreg(1, 0x0007_0003_0009_0001);
    cpu.set_dreg(2, 0x0004_0008_0002_0005);
    cpu.execute_arm(
        enc_neon_3same(true, 1, 1, 0, 10, false, false, 2),
        0,
        &mut mem,
    )
    .unwrap(); // vpmax.u16 d0, d1, d2
    assert_eq!(cpu.dreg(0), 0x0008_0005_0007_0009);

    cpu.set_dreg(2, 0x00ff_00ff_00ff_00ff);
    cpu.set_dreg(3, 0xff00_ff00_ff00_ff00);
    cpu.set_dreg(4, 0x0f0f_0f0f_0f0f_0f0f);
    cpu.set_dreg(5, 0xf0f0_f0f0_f0f0_f0f0);
    cpu.execute_arm(
        enc_neon_3same(false, 2, 2, 0, 1, true, true, 4),
        0,
        &mut mem,
    )
    .unwrap(); // vorr q0, q1, q2
    assert_eq!(cpu.dreg(0), 0x0fff_0fff_0fff_0fff);
    assert_eq!(cpu.dreg(1), 0xfff0_fff0_fff0_fff0);

    let err = cpu
        .execute_arm(
            enc_neon_3same(false, 0, 2, 1, 8, true, false, 4),
            0x200,
            &mut mem,
        )
        .unwrap_err(); // q-register form with odd Vd
    assert_eq!(
        err,
        Trap::UndefinedArm {
            pc: 0x200,
            instr: enc_neon_3same(false, 0, 2, 1, 8, true, false, 4)
        }
    );

    let (first, second) =
        thumb_neon_dp_from_a32(enc_neon_3same(false, 0, 1, 0, 8, false, false, 2));
    cpu.set_isa(Isa::Thumb);
    cpu.set_dreg(1, 0x0807_0605_0403_0201);
    cpu.set_dreg(2, 0x0101_0101_0101_0101);
    cpu.execute_thumb32(first, second, 0, &mut mem).unwrap(); // vadd.i8 d0, d1, d2
    assert_eq!(cpu.dreg(0), 0x0908_0706_0504_0302);
}

#[test]
fn neon_three_same_saturating_compare_and_float_function() {
    let mut cpu = Cpu::new();
    let mut mem = VecMemory::new(0, 4);

    cpu.set_dreg(1, 0x7f78_8081_0102_f0f1);
    cpu.set_dreg(2, 0x010a_ff80_0304_2020);
    cpu.execute_arm(
        enc_neon_3same(false, 0, 1, 0, 0, false, true, 2),
        0,
        &mut mem,
    )
    .unwrap(); // vqadd.s8 d0, d1, d2
    assert_eq!(cpu.dreg(0), 0x7f7f_8080_0406_1011);
    assert!(cpu.cpsr.q);

    cpu.execute_arm(
        enc_neon_3same(false, 0, 1, 3, 3, false, false, 2),
        0,
        &mut mem,
    )
    .unwrap(); // vcgt.s8 d3, d1, d2
    assert_eq!(cpu.dreg(3), 0xffff_00ff_0000_0000);

    cpu.cpsr.q = false;
    cpu.set_dreg(8, u64::from_le_bytes([0, 0, 0, 0x40, 0, 0, 0, 0x80]));
    cpu.set_dreg(9, u64::from_le_bytes([0, 0, 0, 0x40, 0, 0, 0, 0x80]));
    cpu.execute_arm(
        enc_neon_3same(false, 2, 8, 10, 11, false, false, 9),
        0,
        &mut mem,
    )
    .unwrap(); // vqdmulh.s32 d10, d8, d9
    assert_eq!(cpu.dreg(10), 0x7fff_ffff_2000_0000);
    assert!(cpu.cpsr.q);

    let pack2 = |a: f32, b: f32| u64::from(a.to_bits()) | (u64::from(b.to_bits()) << 32);
    cpu.set_dreg(4, pack2(1.5, 2.0));
    cpu.set_dreg(5, pack2(2.5, -3.0));
    cpu.execute_arm(
        enc_neon_3same(false, 0, 4, 6, 13, false, false, 5),
        0,
        &mut mem,
    )
    .unwrap(); // vadd.f32 d6, d4, d5
    assert_eq!(f32::from_bits(cpu.sreg(12)), 4.0);
    assert_eq!(f32::from_bits(cpu.sreg(13)), -1.0);

    cpu.set_dreg(6, pack2(10.0, 10.0));
    cpu.execute_arm(
        enc_neon_3same(false, 0, 4, 6, 13, false, true, 5),
        0,
        &mut mem,
    )
    .unwrap(); // vmla.f32 d6, d4, d5
    assert_eq!(f32::from_bits(cpu.sreg(12)), 13.75);
    assert_eq!(f32::from_bits(cpu.sreg(13)), 4.0);

    cpu.set_dreg(4, pack2(1.0, 2.5));
    cpu.set_dreg(5, pack2(10.0, -3.0));
    cpu.execute_arm(
        enc_neon_3same(true, 0, 4, 7, 13, false, false, 5),
        0,
        &mut mem,
    )
    .unwrap(); // vpadd.f32 d7, d4, d5
    assert_eq!(f32::from_bits(cpu.sreg(14)), 3.5);
    assert_eq!(f32::from_bits(cpu.sreg(15)), 7.0);

    cpu.execute_arm(
        enc_neon_3same(true, 2, 4, 8, 13, false, false, 5),
        0,
        &mut mem,
    )
    .unwrap(); // vabd.f32 d8, d4, d5
    assert_eq!(f32::from_bits(cpu.sreg(16)), 9.0);
    assert_eq!(f32::from_bits(cpu.sreg(17)), 5.5);

    cpu.execute_arm(
        enc_neon_3same(true, 0, 4, 9, 15, false, false, 5),
        0,
        &mut mem,
    )
    .unwrap(); // vpmax.f32 d9, d4, d5
    assert_eq!(f32::from_bits(cpu.sreg(18)), 2.5);
    assert_eq!(f32::from_bits(cpu.sreg(19)), 10.0);

    cpu.execute_arm(
        enc_neon_3same(true, 2, 4, 10, 15, false, false, 5),
        0,
        &mut mem,
    )
    .unwrap(); // vpmin.f32 d10, d4, d5
    assert_eq!(f32::from_bits(cpu.sreg(20)), 1.0);
    assert_eq!(f32::from_bits(cpu.sreg(21)), -3.0);
}

#[test]
fn neon_structure_load_store_and_misc_function() {
    let mut cpu = Cpu::new();
    let mut mem = VecMemory::new(0x1000, 0x200);

    let mut interleaved = Vec::new();
    for lane in 1..=4u16 {
        interleaved.extend_from_slice(&(0x1000 | lane).to_le_bytes());
        interleaved.extend_from_slice(&(0x2000 | lane).to_le_bytes());
        interleaved.extend_from_slice(&(0x3000 | lane).to_le_bytes());
    }
    mem.load_bytes(0x1000, &interleaved).unwrap();
    cpu.set_reg(0, 0x1000);
    cpu.execute_arm(
        enc_neon_ls_multiple(true, 0, 4, 0b0100, 1, 0, 13),
        0,
        &mut mem,
    )
    .unwrap(); // vld3.16 {d4, d5, d6}, [r0]!
    assert_eq!(cpu.reg(0), 0x1018);
    assert_eq!(cpu.dreg(4), 0x1004_1003_1002_1001);
    assert_eq!(cpu.dreg(5), 0x2004_2003_2002_2001);
    assert_eq!(cpu.dreg(6), 0x3004_3003_3002_3001);

    cpu.set_reg(1, 0x1040);
    cpu.execute_arm(
        enc_neon_ls_multiple(false, 1, 4, 0b0100, 1, 0, 15),
        0,
        &mut mem,
    )
    .unwrap(); // vst3.16 {d4, d5, d6}, [r1]
    for (idx, expected) in interleaved.iter().copied().enumerate() {
        assert_eq!(mem.load8(0x1040 + idx as u32).unwrap(), expected);
    }

    cpu.set_dreg(15, u64::from_le_bytes(*b"abcdefgh"));
    cpu.set_dreg(16, u64::from_le_bytes(*b"ABCDEFGH"));
    cpu.set_dreg(4, u64::from_le_bytes([0, 7, 8, 15, 16, 1, 10, 99]));
    assert_eq!(enc_neon_table(15, 3, 1, false, 4), 0xf3bf_3904);
    cpu.execute_arm(enc_neon_table(15, 3, 1, false, 4), 0, &mut mem)
        .unwrap(); // vtbl.8 d3, {d15, d16}, d4
    assert_eq!(cpu.dreg(3), u64::from_le_bytes(*b"ahAH\0bC\0"));

    cpu.set_dreg(3, u64::from_le_bytes(*b"zzzzzzzz"));
    cpu.set_dreg(4, u64::from_le_bytes([0, 17, 1, 18, 2, 19, 3, 20]));
    cpu.execute_arm(enc_neon_table(15, 3, 1, true, 4), 0, &mut mem)
        .unwrap(); // vtbx.8 d3, {d15, d16}, d4
    assert_eq!(cpu.dreg(3), u64::from_le_bytes(*b"azbzczdz"));

    cpu.set_dreg(0, u64::from_le_bytes([0, 1, 2, 3, 4, 5, 6, 7]));
    cpu.set_dreg(1, u64::from_le_bytes([8, 9, 10, 11, 12, 13, 14, 15]));
    cpu.set_dreg(4, u64::from_le_bytes([16, 17, 18, 19, 20, 21, 22, 23]));
    cpu.set_dreg(5, u64::from_le_bytes([24, 25, 26, 27, 28, 29, 30, 31]));
    cpu.execute_arm(enc_neon_vext(0, 8, 12, true, 4), 0, &mut mem)
        .unwrap(); // vext.8 q4, q0, q2, #12
    assert_eq!(
        cpu.dreg(8),
        u64::from_le_bytes([12, 13, 14, 15, 16, 17, 18, 19])
    );
    assert_eq!(
        cpu.dreg(9),
        u64::from_le_bytes([20, 21, 22, 23, 24, 25, 26, 27])
    );

    cpu.set_dreg(6, 0x4444_3333_2222_1111);
    cpu.execute_arm(enc_neon_vdup(10, 0xa, false, 6), 0, &mut mem)
        .unwrap(); // vdup.16 d10, d6[2]
    assert_eq!(cpu.dreg(10), 0x3333_3333_3333_3333);

    cpu.set_dreg(11, u64::from_le_bytes([1, 2, 3, 4, 5, 6, 7, 8]));
    cpu.execute_arm(enc_neon_vrev(12, 0, 1, false, 11), 0, &mut mem)
        .unwrap(); // vrev32.8 d12, d11
    assert_eq!(cpu.dreg(12), u64::from_le_bytes([4, 3, 2, 1, 8, 7, 6, 5]));

    let pack2 = |a: f32, b: f32| u64::from(a.to_bits()) | (u64::from(b.to_bits()) << 32);
    cpu.set_dreg(20, pack2(-1.5, 2.25));
    cpu.execute_arm(enc_neon_2reg_misc(21, 2, 1, 14, false, 20), 0, &mut mem)
        .unwrap(); // vabs.f32 d21, d20
    assert_eq!(f32::from_bits(cpu.sreg(42)), 1.5);
    assert_eq!(f32::from_bits(cpu.sreg(43)), 2.25);

    cpu.set_dreg(23, u64::from_le_bytes([1, 0, 0, 0, 0xfe, 0xff, 0xff, 0xff]));
    cpu.execute_arm(enc_neon_2reg_misc(22, 2, 1, 7, false, 23), 0, &mut mem)
        .unwrap(); // vneg.s32 d22, d23
    assert_eq!(
        cpu.dreg(22),
        u64::from_le_bytes([0xff, 0xff, 0xff, 0xff, 2, 0, 0, 0])
    );

    cpu.execute_arm(
        enc_neon_modified_imm(14, 0x80, 14, true, false),
        0,
        &mut mem,
    )
    .unwrap(); // vmov.i8 q7, #0x80
    assert_eq!(cpu.dreg(14), 0x8080_8080_8080_8080);
    assert_eq!(cpu.dreg(15), 0x8080_8080_8080_8080);

    mem.store16(0x1080, 0x1234).unwrap();
    cpu.set_reg(2, 0x1080);
    cpu.execute_arm(
        enc_neon_ls_all_lanes(2, 24, 1, 1, false, false, 13),
        0,
        &mut mem,
    )
    .unwrap(); // vld1.16 {d24[]}, [r2]!
    assert_eq!(cpu.reg(2), 0x1082);
    assert_eq!(cpu.dreg(24), 0x1234_1234_1234_1234);

    cpu.set_dreg(25, 0x8877_6655_4433_2211);
    cpu.set_reg(3, 0x1090);
    cpu.set_reg(4, 5);
    cpu.execute_arm(
        enc_neon_ls_single(false, 3, 25, 1, 0, 3, false, 0, 4),
        0,
        &mut mem,
    )
    .unwrap(); // vst1.8 {d25[3]}, [r3], r4
    assert_eq!(mem.load8(0x1090).unwrap(), 0x44);
    assert_eq!(cpu.reg(3), 0x1095);

    mem.store32(0x10a0, 0xaabb_ccdd).unwrap();
    cpu.set_reg(5, 0x10a0);
    cpu.set_reg(6, 4);
    cpu.set_dreg(26, 0x1122_3344_5566_7788);
    cpu.execute_arm(
        enc_neon_ls_single(true, 5, 26, 1, 2, 1, false, 0, 6),
        0,
        &mut mem,
    )
    .unwrap(); // vld1.32 {d26[1]}, [r5], r6
    assert_eq!(cpu.dreg(26), 0xaabb_ccdd_5566_7788);
    assert_eq!(cpu.reg(5), 0x10a4);

    let (first, second) =
        thumb_neon_ls_from_a32(enc_neon_ls_multiple(false, 0, 16, 0b1010, 2, 0, 15));
    cpu.set_isa(Isa::Thumb);
    cpu.set_reg(0, 0x10c0);
    cpu.set_dreg(16, 0x0403_0201_ddcc_bbaa);
    cpu.set_dreg(17, 0x0c0b_0a09_0807_0605);
    cpu.execute_thumb32(first, second, 0, &mut mem).unwrap(); // vst1.32 {d16, d17}, [r0]
    assert_eq!(mem.load32(0x10c0).unwrap(), 0xddcc_bbaa);
    assert_eq!(mem.load32(0x10c4).unwrap(), 0x0403_0201);
    assert_eq!(mem.load32(0x10c8).unwrap(), 0x0807_0605);
    assert_eq!(mem.load32(0x10cc).unwrap(), 0x0c0b_0a09);

    mem.store8(0x10e0, 0xfe).unwrap();
    let (first, second) =
        thumb_neon_ls_from_a32(enc_neon_ls_single(true, 0, 0, 1, 0, 0, false, 0, 2));
    cpu.set_reg(0, 0x10e0);
    cpu.set_reg(2, 3);
    cpu.set_dreg(0, 0x8877_6655_4433_2211);
    cpu.execute_thumb32(first, second, 0, &mut mem).unwrap(); // vld1.8 {d0[0]}, [r0], r2
    assert_eq!(cpu.dreg(0), 0x8877_6655_4433_22fe);
    assert_eq!(cpu.reg(0), 0x10e3);
}

#[test]
fn neon_mcpe_kernel_patterns_function() {
    let mut cpu = Cpu::new();
    let mut mem = VecMemory::new(0x1000, 0x400);

    mem.load_bytes(
        0x1100,
        &[
            0xaa, 0xbb, 0xcc, 0xdd, 0x10, 0x11, 0x12, 0x13, 0x20, 0x21, 0x22, 0x23, 0x30, 0x31,
            0x32, 0x33, 0x40, 0x41, 0x42, 0x43, 0x50, 0x51, 0x52, 0x53, 0x60, 0x61, 0x62, 0x63,
            0x70, 0x71, 0x72, 0x73, 0x80, 0x81, 0x82, 0x83,
        ],
    )
    .unwrap();

    cpu.set_reg(2, 0x1100);
    cpu.set_dreg(28, 0x8877_6655_4433_2211);
    cpu.execute_arm(0xf4e2_c83d, 0, &mut mem).unwrap(); // vld1.32 {d28[0]}, [r2:32]!
    assert_eq!(cpu.dreg(28), 0x8877_6655_ddcc_bbaa);
    assert_eq!(cpu.reg(2), 0x1104);

    cpu.set_reg(1, 0x1104);
    cpu.execute_arm(0xf421_028d, 0, &mut mem).unwrap(); // vld1.32 {d0, d1, d2, d3}, [r1]!
    assert_eq!(cpu.dreg(0), 0x2322_2120_1312_1110);
    assert_eq!(cpu.dreg(1), 0x4342_4140_3332_3130);
    assert_eq!(cpu.dreg(2), 0x6362_6160_5352_5150);
    assert_eq!(cpu.dreg(3), 0x8382_8180_7372_7170);
    assert_eq!(cpu.reg(1), 0x1124);

    cpu.set_dreg(28, 0x0004_0003_0002_0001);
    cpu.set_dreg(8, 0x0014_0013_0012_0011);
    cpu.execute_arm(0xf3f6_c188, 0, &mut mem).unwrap(); // vzip.16 d28, d8
    assert_eq!(cpu.dreg(28), 0x0012_0002_0011_0001);
    assert_eq!(cpu.dreg(8), 0x0014_0004_0013_0003);

    cpu.set_dreg(28, 0x0000_0004_0000_0003);
    cpu.set_dreg(0, 0x0000_0007_0000_0005);
    cpu.execute_arm(0xf3ac_cac0, 0, &mut mem).unwrap(); // vmull.u32 q6, d28, d0[0]
    assert_eq!(cpu.dreg(12), 15);
    assert_eq!(cpu.dreg(13), 20);

    cpu.set_dreg(29, 0x0000_0003_0000_0002);
    cpu.set_dreg(4, 0x0000_000d_0000_000b);
    cpu.execute_arm(0xf3ad_c2c4, 0, &mut mem).unwrap(); // vmlal.u32 q6, d29, d4[0]
    assert_eq!(cpu.dreg(12), 37);
    assert_eq!(cpu.dreg(13), 53);

    cpu.set_dreg(13, 0x0000_0000_0001_0002);
    cpu.execute_arm(0xf290_a59d, 0, &mut mem).unwrap(); // vshl.i64 d10, d13, #16
    assert_eq!(cpu.dreg(10), 0x0000_0001_0002_0000);
    cpu.set_dreg(12, 5);
    cpu.execute_arm(0xf23a_a80c, 0, &mut mem).unwrap(); // vadd.i64 d10, d10, d12
    assert_eq!(cpu.dreg(10), 0x0000_0001_0002_0005);
    cpu.execute_arm(0xf3b0_a09a, 0, &mut mem).unwrap(); // vshr.u64 d10, d10, #16
    assert_eq!(cpu.dreg(10), 0x0000_0000_0001_0002);

    cpu.set_dreg(16, 0x0706_0504_0302_0100);
    cpu.set_dreg(17, 0x1716_1514_1312_1110);
    cpu.execute_arm(0xf3f0_0060, 0, &mut mem).unwrap(); // vrev64.8 q8, q8
    assert_eq!(cpu.dreg(16), 0x0001_0203_0405_0607);
    assert_eq!(cpu.dreg(17), 0x1011_1213_1415_1617);

    cpu.set_dreg(6, 0x1111_1111_1111_1111);
    cpu.set_dreg(7, 0x2222_2222_2222_2222);
    cpu.execute_arm(0xf2f6_4846, 0, &mut mem).unwrap(); // vext.64 q10, q3, q3, #1
    assert_eq!(cpu.dreg(20), 0x2222_2222_2222_2222);
    assert_eq!(cpu.dreg(21), 0x1111_1111_1111_1111);

    cpu.set_reg(7, 0x1200);
    cpu.set_dreg(12, 0x0706_0504_0302_0100);
    cpu.set_dreg(13, 0x1716_1514_1312_1110);
    cpu.set_dreg(14, 0x2726_2524_2322_2120);
    cpu.set_dreg(15, 0x3736_3534_3332_3130);
    cpu.execute_arm(0xf407_c2fd, 0, &mut mem).unwrap(); // vst1.64 {d12, d13, d14, d15}, [r7:256]!
    assert_eq!(mem.load32(0x1200).unwrap(), 0x0302_0100);
    assert_eq!(mem.load32(0x1204).unwrap(), 0x0706_0504);
    assert_eq!(mem.load32(0x121c).unwrap(), 0x3736_3534);
    assert_eq!(cpu.reg(7), 0x1220);
}

#[test]
fn neon_core_lane_moves_and_scalar_multiply_function() {
    let mut cpu = Cpu::new();
    let mut mem = VecMemory::new(0, 4);

    cpu.set_reg(0, 0x1122_3344);
    cpu.execute_arm(0xee88_0b10, 0, &mut mem).unwrap(); // vdup.32 d8, r0
    assert_eq!(cpu.dreg(8), 0x1122_3344_1122_3344);

    cpu.execute_arm(0xee88_0b30, 0, &mut mem).unwrap(); // vdup.16 d8, r0
    assert_eq!(cpu.dreg(8), 0x3344_3344_3344_3344);

    cpu.set_dreg(8, 0);
    cpu.set_reg(0, 0xffff_ffaa);
    cpu.execute_arm(0xee48_0b30, 0, &mut mem).unwrap(); // vmov.8 d8[1], r0
    assert_eq!(cpu.dreg(8), 0x0000_0000_0000_aa00);

    cpu.execute_arm(0xeed8_1b30, 0, &mut mem).unwrap(); // vmov.u8 r1, d8[1]
    assert_eq!(cpu.reg(1), 0xaa);
    cpu.execute_arm(0xee58_2b30, 0, &mut mem).unwrap(); // vmov.s8 r2, d8[1]
    assert_eq!(cpu.reg(2), 0xffff_ffaa);

    cpu.set_dreg(8, 0);
    cpu.set_reg(0, 0xffff_8765);
    cpu.execute_arm(0xee28_0b30, 0, &mut mem).unwrap(); // vmov.16 d8[2], r0
    assert_eq!(cpu.dreg(8), 0x0000_8765_0000_0000);

    cpu.execute_arm(0xeeb8_3b30, 0, &mut mem).unwrap(); // vmov.u16 r3, d8[2]
    assert_eq!(cpu.reg(3), 0x8765);
    cpu.execute_arm(0xee38_4b30, 0, &mut mem).unwrap(); // vmov.s16 r4, d8[2]
    assert_eq!(cpu.reg(4), 0xffff_8765);

    cpu.set_dreg(0, 0x0000_0007_0000_0005);
    cpu.set_dreg(12, 0x0000_0004_0000_0003);
    cpu.execute_arm(0xf2ec_6840, 0, &mut mem).unwrap(); // vmul.i32 d22, d12, d0[0]
    assert_eq!(cpu.dreg(22), 0x0000_0014_0000_000f);

    cpu.set_dreg(2, 0x0004_0003_0002_0001);
    cpu.set_dreg(4, 0x000a_0009_0008_0007);
    cpu.set_dreg(19, 0x0190_012c_00c8_0064);
    cpu.execute_arm(0xf2d2_306c, 0, &mut mem).unwrap(); // vmla.i16 d19, d2, d4[3]
    assert_eq!(cpu.dreg(19), 0x01b8_014a_00dc_006e);
}

#[test]
fn neon_register_shift_function() {
    let mut cpu = Cpu::new();
    let mut mem = VecMemory::new(0, 4);

    cpu.set_dreg(
        1,
        u64::from_le_bytes([1, 0x80, 0x7f, 2, 0xff, 8, 0x11, 0x40]),
    );
    cpu.set_dreg(13, u64::from_le_bytes([1, 1, 1, 0xff, 0xff, 8, 0xf8, 0]));
    cpu.execute_arm(0xf20d_4401, 0, &mut mem).unwrap(); // vshl.s8 d4, d1, d13
    assert_eq!(
        cpu.dreg(4),
        u64::from_le_bytes([2, 0, 0xfe, 1, 0xff, 0, 0, 0x40])
    );

    cpu.set_dreg(2, u64::from_le_bytes([0x40, 0x7f, 0x80, 0, 1, 2, 3, 4]));
    cpu.set_dreg(3, u64::from_le_bytes([1, 1, 1, 4, 8, 0xff, 0xfe, 0]));
    cpu.execute_arm(
        enc_neon_3same(false, 0, 3, 5, 4, false, true, 2),
        0,
        &mut mem,
    )
    .unwrap(); // vqshl.s8 d5, d2, d3
    assert_eq!(
        cpu.dreg(5),
        u64::from_le_bytes([0x7f, 0x7f, 0x80, 0, 0x7f, 1, 0, 4])
    );
    assert!(cpu.cpsr.q);

    cpu.cpsr.q = false;
    cpu.set_dreg(2, u64::from_le_bytes([1, 0, 0, 0x80, 0, 0x40, 0xff, 0]));
    cpu.set_dreg(3, u64::from_le_bytes([1, 1, 0xff, 1, 1, 0xff, 0, 0]));
    cpu.execute_arm(
        enc_neon_3same(false, 1, 3, 6, 4, false, false, 2),
        0,
        &mut mem,
    )
    .unwrap(); // vshl.s16 d6, d2, d3
    assert_eq!(
        cpu.dreg(6),
        u64::from_le_bytes([2, 0, 0, 0xc0, 0, 0x80, 0xff, 0])
    );

    cpu.set_dreg(6, u64::from_le_bytes([0, 0x40, 1, 0, 0xff, 0xff, 0, 0x80]));
    cpu.set_dreg(7, u64::from_le_bytes([2, 0, 1, 1, 0xff, 0, 1, 0x7f]));
    cpu.execute_arm(
        enc_neon_3same(true, 1, 7, 8, 4, false, true, 6),
        0,
        &mut mem,
    )
    .unwrap(); // vqshl.u16 d8, d6, d7
    assert_eq!(
        cpu.dreg(8),
        u64::from_le_bytes([0xff, 0xff, 2, 0, 0xff, 0x7f, 0xff, 0xff])
    );
    assert!(cpu.cpsr.q);
}

#[test]
fn neon_two_register_permute_function() {
    let mut cpu = Cpu::new();
    let mut mem = VecMemory::new(0, 4);

    cpu.set_dreg(0, u64::from_le_bytes([1, 2, 3, 4, 5, 6, 7, 8]));
    cpu.set_dreg(1, u64::from_le_bytes([11, 12, 13, 14, 15, 16, 17, 18]));
    cpu.execute_arm(enc_neon_2reg_misc(0, 0, 2, 1, false, 1), 0, &mut mem)
        .unwrap(); // vtrn.8 d0, d1
    assert_eq!(
        cpu.dreg(0),
        u64::from_le_bytes([1, 11, 3, 13, 5, 15, 7, 17])
    );
    assert_eq!(
        cpu.dreg(1),
        u64::from_le_bytes([2, 12, 4, 14, 6, 16, 8, 18])
    );

    cpu.set_dreg(2, u64::from_le_bytes([1, 2, 3, 4, 5, 6, 7, 8]));
    cpu.set_dreg(3, u64::from_le_bytes([11, 12, 13, 14, 15, 16, 17, 18]));
    cpu.execute_arm(enc_neon_2reg_misc(2, 0, 2, 2, false, 3), 0, &mut mem)
        .unwrap(); // vuzp.8 d2, d3
    assert_eq!(
        cpu.dreg(2),
        u64::from_le_bytes([1, 3, 5, 7, 11, 13, 15, 17])
    );
    assert_eq!(
        cpu.dreg(3),
        u64::from_le_bytes([2, 4, 6, 8, 12, 14, 16, 18])
    );

    cpu.set_dreg(4, u64::from_le_bytes([1, 0, 2, 0, 3, 0, 4, 0]));
    cpu.set_dreg(5, u64::from_le_bytes([11, 0, 12, 0, 13, 0, 14, 0]));
    cpu.execute_arm(enc_neon_2reg_misc(4, 1, 2, 3, false, 5), 0, &mut mem)
        .unwrap(); // vzip.16 d4, d5
    assert_eq!(cpu.dreg(4), u64::from_le_bytes([1, 0, 11, 0, 2, 0, 12, 0]));
    assert_eq!(cpu.dreg(5), u64::from_le_bytes([3, 0, 13, 0, 4, 0, 14, 0]));
}

#[test]
fn neon_two_register_misc_pairwise_count_and_saturating_function() {
    let mut cpu = Cpu::new();
    let mut mem = VecMemory::new(0, 4);

    let pack_u16x4 = |values: [u16; 4]| {
        let mut bytes = [0u8; 8];
        for (idx, value) in values.into_iter().enumerate() {
            bytes[idx * 2..idx * 2 + 2].copy_from_slice(&value.to_le_bytes());
        }
        u64::from_le_bytes(bytes)
    };
    let pack_i16x4 = |values: [i16; 4]| {
        let mut bytes = [0u8; 8];
        for (idx, value) in values.into_iter().enumerate() {
            bytes[idx * 2..idx * 2 + 2].copy_from_slice(&value.to_le_bytes());
        }
        u64::from_le_bytes(bytes)
    };

    cpu.set_dreg(28, u64::from_le_bytes([1, 2, 250, 5, 0xff, 1, 0, 16]));
    cpu.set_dreg(29, u64::from_le_bytes([10, 20, 30, 40, 50, 60, 70, 80]));
    cpu.execute_arm(enc_neon_2reg_misc(18, 0, 0, 5, true, 28), 0, &mut mem)
        .unwrap(); // vpaddl.u8 q9, q14
    assert_eq!(cpu.dreg(18), pack_u16x4([3, 255, 256, 16]));
    assert_eq!(cpu.dreg(19), pack_u16x4([30, 70, 110, 150]));

    cpu.set_dreg(14, u64::from(10u32) | (u64::from(20u32) << 32));
    cpu.set_dreg(16, pack_i16x4([-1, -2, 1000, -2000]));
    cpu.execute_arm(enc_neon_2reg_misc(14, 1, 0, 12, false, 16), 0, &mut mem)
        .unwrap(); // vpadal.s16 d14, d16
    assert_eq!(
        cpu.dreg(14),
        u64::from(7u32) | (u64::from((-980i32) as u32) << 32)
    );

    cpu.set_dreg(
        2,
        u64::from_le_bytes([0x00, 0x01, 0x80, 0xff, 0x0f, 0xf0, 0x55, 0xaa]),
    );
    cpu.execute_arm(enc_neon_2reg_misc(4, 0, 0, 9, false, 2), 0, &mut mem)
        .unwrap(); // vclz.i8 d4, d2
    assert_eq!(cpu.dreg(4), u64::from_le_bytes([8, 7, 0, 0, 4, 0, 1, 0]));

    cpu.execute_arm(enc_neon_2reg_misc(5, 0, 0, 10, false, 2), 0, &mut mem)
        .unwrap(); // vcnt.8 d5, d2
    assert_eq!(cpu.dreg(5), u64::from_le_bytes([0, 1, 1, 8, 4, 4, 4, 4]));

    cpu.set_dreg(8, u64::from_le_bytes([0, 1, 0xff, 0x7f, 0x80, 2, 0xfe, 3]));
    cpu.execute_arm(enc_neon_2reg_misc(9, 0, 1, 0, false, 8), 0, &mut mem)
        .unwrap(); // vcgt.s8 d9, d8, #0
    assert_eq!(
        cpu.dreg(9),
        u64::from_le_bytes([0, 0xff, 0, 0xff, 0, 0xff, 0, 0xff])
    );

    cpu.set_dreg(10, pack_i16x4([-2, 0, 3, i16::MIN]));
    cpu.execute_arm(enc_neon_2reg_misc(11, 1, 1, 3, false, 10), 0, &mut mem)
        .unwrap(); // vcle.s16 d11, d10, #0
    assert_eq!(cpu.dreg(11), pack_u16x4([0xffff, 0xffff, 0, 0xffff]));

    cpu.set_dreg(
        12,
        u64::from(0.0f32.to_bits()) | (u64::from((-2.0f32).to_bits()) << 32),
    );
    cpu.execute_arm(enc_neon_2reg_misc(13, 2, 1, 10, false, 12), 0, &mut mem)
        .unwrap(); // vceq.f32 d13, d12, #0
    assert_eq!(cpu.dreg(13), 0x0000_0000_ffff_ffff);

    cpu.set_dreg(
        14,
        u64::from(0x8000_0000u32) | (u64::from(0x4000_0000u32) << 32),
    );
    cpu.execute_arm(enc_neon_2reg_misc(15, 2, 3, 8, false, 14), 0, &mut mem)
        .unwrap(); // vrecpe.u32 d15, d14
    assert_eq!(
        cpu.dreg(15),
        u64::from(0xff80_0000u32) | (u64::from(u32::MAX) << 32)
    );

    cpu.set_dreg(
        16,
        u64::from(0x8000_0000u32) | (u64::from(0x2000_0000u32) << 32),
    );
    cpu.execute_arm(enc_neon_2reg_misc(17, 2, 3, 9, false, 16), 0, &mut mem)
        .unwrap(); // vrsqrte.u32 d17, d16
    assert_eq!(
        cpu.dreg(17),
        u64::from(0xb480_0000u32) | (u64::from(u32::MAX) << 32)
    );

    cpu.set_dreg(
        14,
        u64::from(2.0f32.to_bits()) | (u64::from(4.0f32.to_bits()) << 32),
    );
    cpu.execute_arm(enc_neon_2reg_misc(15, 2, 3, 10, false, 14), 0, &mut mem)
        .unwrap(); // vrecpe.f32 d15, d14
    assert_eq!(
        cpu.dreg(15),
        u64::from(0.5f32.to_bits()) | (u64::from(0.25f32.to_bits()) << 32)
    );

    cpu.set_dreg(
        16,
        u64::from(4.0f32.to_bits()) | (u64::from(16.0f32.to_bits()) << 32),
    );
    cpu.execute_arm(enc_neon_2reg_misc(17, 2, 3, 11, false, 16), 0, &mut mem)
        .unwrap(); // vrsqrte.f32 d17, d16
    assert_eq!(
        cpu.dreg(17),
        u64::from(0.5f32.to_bits()) | (u64::from(0.25f32.to_bits()) << 32)
    );

    cpu.set_dreg(
        18,
        u64::from(1.75f32.to_bits()) | (u64::from((-2.25f32).to_bits()) << 32),
    );
    cpu.execute_arm(enc_neon_2reg_misc(19, 2, 3, 14, false, 18), 0, &mut mem)
        .unwrap(); // vcvt.s32.f32 d19, d18
    assert_eq!(
        cpu.dreg(19),
        u64::from(1u32) | (u64::from((-2i32) as u32) << 32)
    );

    cpu.set_dreg(20, u64::from((-3i32) as u32) | (u64::from(10u32) << 32));
    cpu.execute_arm(enc_neon_2reg_misc(21, 2, 3, 12, false, 20), 0, &mut mem)
        .unwrap(); // vcvt.f32.s32 d21, d20
    assert_eq!(
        cpu.dreg(21),
        u64::from((-3.0f32).to_bits()) | (u64::from(10.0f32.to_bits()) << 32)
    );

    let pack_i16x8 = |values: [i16; 8]| {
        let mut bytes = [0u8; 16];
        for (idx, value) in values.into_iter().enumerate() {
            bytes[idx * 2..idx * 2 + 2].copy_from_slice(&value.to_le_bytes());
        }
        [
            u64::from_le_bytes(bytes[..8].try_into().expect("low q half")),
            u64::from_le_bytes(bytes[8..].try_into().expect("high q half")),
        ]
    };
    let q = pack_i16x8([-1, 0, 127, 128, 255, 300, -300, i16::MIN]);
    cpu.cpsr.q = false;
    cpu.set_dreg(24, q[0]);
    cpu.set_dreg(25, q[1]);
    cpu.execute_arm(enc_neon_2reg_misc(22, 0, 2, 4, true, 24), 0, &mut mem)
        .unwrap(); // vqmovun.s16 d22, q12
    assert_eq!(
        cpu.dreg(22),
        u64::from_le_bytes([0, 0, 127, 128, 255, 255, 0, 0])
    );
    assert!(cpu.cpsr.q);

    cpu.cpsr.q = false;
    cpu.execute_arm(enc_neon_2reg_misc(23, 0, 2, 5, false, 24), 0, &mut mem)
        .unwrap(); // vqmovn.s16 d23, q12
    assert_eq!(
        cpu.dreg(23),
        u64::from_le_bytes([0xff, 0, 0x7f, 0x7f, 0x7f, 0x7f, 0x80, 0x80])
    );
    assert!(cpu.cpsr.q);

    let q = pack_i16x8([0, 1, 127, 128, 255, 300, -1, 42]);
    cpu.cpsr.q = false;
    cpu.set_dreg(24, q[0]);
    cpu.set_dreg(25, q[1]);
    cpu.execute_arm(enc_neon_2reg_misc(24, 0, 2, 5, true, 24), 0, &mut mem)
        .unwrap(); // vqmovn.u16 d24, q12
    assert_eq!(
        cpu.dreg(24),
        u64::from_le_bytes([0, 1, 127, 127, 127, 127, 127, 42])
    );
    assert!(cpu.cpsr.q);

    cpu.cpsr.q = false;
    cpu.set_dreg(6, u64::from_le_bytes([0x80, 0xff, 0x7f, 0x01, 0, 0, 0, 0]));
    cpu.execute_arm(enc_neon_2reg_misc(7, 0, 0, 14, false, 6), 0, &mut mem)
        .unwrap(); // vqabs.s8 d7, d6
    assert_eq!(
        cpu.dreg(7),
        u64::from_le_bytes([0x7f, 1, 0x7f, 1, 0, 0, 0, 0])
    );
    assert!(cpu.cpsr.q);
}

#[test]
fn neon_immediate_shift_and_narrow_function() {
    let mut cpu = Cpu::new();
    let mut mem = VecMemory::new(0, 4);

    cpu.set_dreg(16, 0x8000_0000_1234_5678);
    cpu.set_dreg(17, 0xffff_0000_0001_0000);
    assert_eq!(
        enc_neon_2reg_shift(true, 48, 20, 0, false, true, 16),
        0xf3f0_4070
    );
    cpu.execute_arm(
        enc_neon_2reg_shift(true, 48, 20, 0, false, true, 16),
        0,
        &mut mem,
    )
    .unwrap(); // vshr.u32 q10, q8, #16
    assert_eq!(cpu.dreg(20), 0x0000_8000_0000_1234);
    assert_eq!(cpu.dreg(21), 0x0000_ffff_0000_0001);

    cpu.set_dreg(22, 0xaaaa_aaaa_aaaa_aaaa);
    cpu.set_dreg(18, 0x0000_ffff_0000_ffff);
    cpu.execute_arm(
        enc_neon_2reg_shift(true, 48, 22, 5, false, false, 18),
        0,
        &mut mem,
    )
    .unwrap(); // vsli.32 d22, d18, #16
    assert_eq!(cpu.dreg(22), 0xffff_aaaa_ffff_aaaa);

    cpu.set_dreg(16, 2);
    cpu.set_dreg(17, (-2i64) as u64);
    assert_eq!(
        enc_neon_2reg_shift(true, 63, 7, 8, false, false, 16),
        0xf3bf_7830
    );
    cpu.execute_arm(
        enc_neon_2reg_shift(true, 63, 7, 8, false, false, 16),
        0,
        &mut mem,
    )
    .unwrap(); // vqshrun.s64 d7, q8, #1
    assert_eq!(cpu.dreg(7), 1);
    assert!(cpu.cpsr.q);

    let pack2 = |a: f32, b: f32| u64::from(a.to_bits()) | (u64::from(b.to_bits()) << 32);
    cpu.fpscr = 0;
    cpu.set_dreg(26, pack2(1.5, 2.0));
    cpu.set_dreg(27, pack2(0.5, 3.0));
    cpu.execute_arm(
        enc_neon_2reg_shift(true, 41, 22, 15, false, true, 26),
        0,
        &mut mem,
    )
    .unwrap(); // vcvt.u32.f32 q11, q13, #23
    assert_eq!(cpu.dreg(22), 0x0100_0000_00c0_0000);
    assert_eq!(cpu.dreg(23), 0x0180_0000_0040_0000);
    assert_eq!(cpu.fpscr & FPSCR_IOC, 0);

    cpu.set_dreg(2, 0x0100_0000_00c0_0000);
    cpu.set_dreg(3, 0x0180_0000_0040_0000);
    cpu.execute_arm(
        enc_neon_2reg_shift(true, 41, 22, 14, false, true, 2),
        0,
        &mut mem,
    )
    .unwrap(); // vcvt.f32.u32 q11, q1, #23
    assert_eq!(f32::from_bits(cpu.sreg(44)), 1.5);
    assert_eq!(f32::from_bits(cpu.sreg(45)), 2.0);
    assert_eq!(f32::from_bits(cpu.sreg(46)), 0.5);
    assert_eq!(f32::from_bits(cpu.sreg(47)), 3.0);
}

#[test]
fn neon_three_different_length_integer_function() {
    let mut cpu = Cpu::new();
    let mut mem = VecMemory::new(0, 4);

    cpu.set_dreg(2, u64::from_le_bytes([1, 2, 250, 255, 0, 128, 3, 4]));
    cpu.set_dreg(3, u64::from_le_bytes([10, 20, 10, 2, 1, 1, 7, 8]));
    cpu.execute_arm(enc_neon_3diff(true, 0, 2, 0, 0, 3), 0, &mut mem)
        .unwrap(); // vaddl.u8 q0, d2, d3
    assert_eq!(cpu.dreg(0), u64::from_le_bytes([11, 0, 22, 0, 4, 1, 1, 1]));
    assert_eq!(
        cpu.dreg(1),
        u64::from_le_bytes([1, 0, 129, 0, 10, 0, 12, 0])
    );

    cpu.set_dreg(8, 10);
    cpu.set_dreg(9, 20);
    cpu.set_dreg(10, u64::from_le_bytes([3, 0, 0, 0, 4, 0, 0, 0]));
    cpu.set_dreg(11, u64::from_le_bytes([5, 0, 0, 0, 6, 0, 0, 0]));
    cpu.execute_arm(enc_neon_3diff(true, 2, 10, 8, 8, 11), 0, &mut mem)
        .unwrap(); // vmlal.u32 q4, d10, d11
    assert_eq!(cpu.dreg(8), 25);
    assert_eq!(cpu.dreg(9), 44);

    cpu.set_dreg(12, u64::from_le_bytes([0xe8, 3, 5, 0, 0x40, 0x9c, 0, 0]));
    cpu.set_dreg(
        13,
        u64::from_le_bytes([1, 0, 10, 0, 0x30, 0x75, 0xff, 0xff]),
    );
    cpu.execute_arm(enc_neon_3diff(true, 1, 12, 14, 7, 13), 0, &mut mem)
        .unwrap(); // vabdl.u16 q7, d12, d13
    assert_eq!(
        cpu.dreg(14),
        u64::from_le_bytes([0xe7, 3, 0, 0, 5, 0, 0, 0])
    );
    assert_eq!(
        cpu.dreg(15),
        u64::from_le_bytes([0x10, 0x27, 0, 0, 0xff, 0xff, 0, 0])
    );

    cpu.set_dreg(
        0,
        u64::from_le_bytes([0xff, 0, 0, 1, 0x34, 0x12, 0xff, 0xff]),
    );
    cpu.set_dreg(1, u64::from_le_bytes([0, 0, 0, 0, 0x80, 0, 0, 0]));
    cpu.set_dreg(4, u64::from_le_bytes([0, 0, 1, 0, 0, 1, 1, 0]));
    cpu.set_dreg(5, u64::from_le_bytes([0, 0, 0, 0, 0x80, 0, 0, 0]));
    cpu.execute_arm(enc_neon_3diff(true, 0, 0, 18, 4, 4), 0, &mut mem)
        .unwrap(); // vraddhn.i16 d18, q0, q2
    assert_eq!(
        cpu.dreg(18),
        u64::from_le_bytes([1, 1, 0x13, 0, 0, 0, 1, 0])
    );

    cpu.cpsr.q = false;
    cpu.set_dreg(2, u64::from_le_bytes([0, 0x40, 0, 0xc0, 0, 0, 1, 0]));
    cpu.set_dreg(3, u64::from_le_bytes([0, 0x40, 0, 0x40, 0, 0, 1, 0]));
    cpu.execute_arm(enc_neon_3diff(false, 1, 2, 20, 13, 3), 0, &mut mem)
        .unwrap(); // vqdmull.s16 q10, d2, d3
    assert_eq!(cpu.dreg(20), 0xe000_0000_2000_0000);
    assert_eq!(cpu.dreg(21), 0x0000_0002_0000_0000);
    assert!(!cpu.cpsr.q);

    cpu.set_dreg(22, 1);
    cpu.set_dreg(23, 0);
    cpu.execute_arm(enc_neon_3diff(false, 1, 2, 22, 9, 3), 0, &mut mem)
        .unwrap(); // vqdmlal.s16 q11, d2, d3
    assert_eq!(cpu.dreg(22), 0xe000_0000_2000_0001);
    assert_eq!(cpu.dreg(23), 0x0000_0002_0000_0000);
}

#[test]
fn neon_long_move_and_shift_function() {
    let mut cpu = Cpu::new();
    let mut mem = VecMemory::new(0, 4);

    cpu.set_dreg(
        16,
        u64::from_le_bytes([0x34, 0x12, 0xff, 0, 0xcd, 0xab, 0, 0]),
    );
    cpu.set_dreg(17, u64::from_le_bytes([1, 0, 2, 0, 3, 0, 4, 0]));
    cpu.execute_arm(enc_neon_2reg_misc(18, 0, 2, 4, false, 16), 0, &mut mem)
        .unwrap(); // vmovn.i16 d18, q8
    assert_eq!(
        cpu.dreg(18),
        u64::from_le_bytes([0x34, 0xff, 0xcd, 0, 1, 2, 3, 4])
    );

    cpu.set_dreg(18, u64::from_le_bytes([1, 0, 0, 0, 0, 0, 0, 0x80]));
    cpu.execute_arm(
        enc_neon_2reg_shift(true, 36, 20, 10, false, false, 18),
        0,
        &mut mem,
    )
    .unwrap(); // vshll.u32 q10, d18, #4
    assert_eq!(cpu.dreg(20), 16);
    assert_eq!(cpu.dreg(21), 0x0000_0008_0000_0000);

    cpu.execute_arm(enc_neon_2reg_misc(22, 2, 2, 6, false, 18), 0, &mut mem)
        .unwrap(); // vshll.i32 q11, d18, #32
    assert_eq!(cpu.dreg(22), 0x0000_0001_0000_0000);
    assert_eq!(cpu.dreg(23), 0x8000_0000_0000_0000);
}

#[test]
fn arm_and_thumb_exception_traps_function() {
    let mut cpu = Cpu::new();
    let mut mem = VecMemory::new(0, 4);

    let err = cpu.execute_arm(0xef00_0034, 0x100, &mut mem).unwrap_err(); // svc #0x34
    assert_eq!(
        err,
        Trap::SoftwareInterrupt {
            pc: 0x100,
            comment: 0x34,
        }
    );

    let err = cpu.execute_arm(0xe120_0a7b, 0x104, &mut mem).unwrap_err(); // bkpt #0xab
    assert_eq!(
        err,
        Trap::Breakpoint {
            pc: 0x104,
            comment: 0xab,
        }
    );

    let err = cpu.execute_thumb(0xdf56, 0x108, &mut mem).unwrap_err(); // svc #0x56
    assert_eq!(
        err,
        Trap::SoftwareInterrupt {
            pc: 0x108,
            comment: 0x56,
        }
    );
}

#[test]
fn arm_status_register_access_function() {
    let mut cpu = Cpu::new();
    let mut mem = VecMemory::new(0, 4);

    cpu.set_reg(2, 0xf80a_0000);
    cpu.execute_arm(0xe12c_f002, 0, &mut mem).unwrap(); // msr APSR_nzcvqg, r2
    assert!(cpu.cpsr.n);
    assert!(cpu.cpsr.z);
    assert!(cpu.cpsr.c);
    assert!(cpu.cpsr.v);
    assert!(cpu.cpsr.q);
    assert_eq!(cpu.cpsr.ge, 0xa);

    cpu.execute_arm(0xe10f_0000, 0, &mut mem).unwrap(); // mrs r0, cpsr
    assert_eq!(cpu.reg(0), cpu.cpsr.to_u32());

    let err = cpu.execute_arm(0xe10f_f000, 0x10, &mut mem).unwrap_err(); // mrs pc, cpsr
    assert_eq!(
        err,
        Trap::Unpredictable("status register access with PC register")
    );

    cpu.set_reg(4, 0);
    cpu.execute_arm(0xe128_f004, 0, &mut mem).unwrap(); // msr APSR_nzcvq, r4
    assert!(!cpu.cpsr.n);
    assert!(!cpu.cpsr.z);
    assert!(!cpu.cpsr.c);
    assert!(!cpu.cpsr.v);
    assert!(!cpu.cpsr.q);
    assert_eq!(cpu.cpsr.ge, 0xa);

    cpu.execute_arm(0xe328_f20f, 0, &mut mem).unwrap(); // msr APSR_nzcvq, #0xf0000000
    assert!(cpu.cpsr.n);
    assert!(cpu.cpsr.z);
    assert!(cpu.cpsr.c);
    assert!(cpu.cpsr.v);
    assert!(!cpu.cpsr.q);

    cpu.execute_arm(0xe32c_f80f, 0, &mut mem).unwrap(); // msr APSR_nzcvqg, #0x000f0000
    assert!(!cpu.cpsr.n);
    assert!(!cpu.cpsr.z);
    assert!(!cpu.cpsr.c);
    assert!(!cpu.cpsr.v);
    assert!(!cpu.cpsr.q);
    assert_eq!(cpu.cpsr.ge, 0xf);

    let err = cpu.execute_arm(0xe128_f00f, 0x14, &mut mem).unwrap_err(); // msr APSR_nzcvq, pc
    assert_eq!(
        err,
        Trap::Unpredictable("status register access with PC register")
    );

    let err = cpu.execute_arm(0xe14f_1000, 0x50, &mut mem).unwrap_err(); // mrs r1, spsr
    assert_eq!(
        err,
        Trap::Privileged {
            pc: 0x50,
            instr: 0xe14f_1000,
            operation: "MRS SPSR",
        }
    );

    let err = cpu.execute_arm(0xe121_f004, 0x54, &mut mem).unwrap_err(); // msr CPSR_c, r4
    assert_eq!(
        err,
        Trap::Privileged {
            pc: 0x54,
            instr: 0xe121_f004,
            operation: "MSR CPSR control",
        }
    );

    let err = cpu.execute_arm(0xe168_f005, 0x58, &mut mem).unwrap_err(); // msr SPSR_f, r5
    assert_eq!(
        err,
        Trap::Privileged {
            pc: 0x58,
            instr: 0xe168_f005,
            operation: "MSR SPSR",
        }
    );
}

#[test]
fn arm_cp15_thread_id_registers_function() {
    let mut cpu = Cpu::new();
    let mut mem = VecMemory::new(0, 4);

    cpu.cp15_tpidruro = 0x1234_5678;
    cpu.execute_arm(0xee1d_0f70, 0, &mut mem).unwrap(); // mrc p15, #0, r0, c13, c0, #3
    assert_eq!(cpu.reg(0), 0x1234_5678);

    cpu.cp15_tpidrurw = 0xaabb_ccdd;
    cpu.execute_arm(0xee1d_2f50, 0, &mut mem).unwrap(); // mrc p15, #0, r2, c13, c0, #2
    assert_eq!(cpu.reg(2), 0xaabb_ccdd);

    cpu.set_reg(1, 0xfeed_cafe);
    cpu.execute_arm(0xee0d_1f50, 0, &mut mem).unwrap(); // mcr p15, #0, r1, c13, c0, #2
    assert_eq!(cpu.cp15_tpidrurw, 0xfeed_cafe);
    cpu.execute_arm(0xee1d_3f70, 0, &mut mem).unwrap(); // mrc p15, #0, r3, c13, c0, #3
    assert_eq!(cpu.reg(3), 0x1234_5678);

    let err = cpu.execute_arm(0xee1d_ff50, 0x10, &mut mem).unwrap_err(); // mrc p15, #0, pc, c13, c0, #2
    assert_eq!(err, Trap::Unpredictable("CP15 TLS MRC to PC"));

    let err = cpu.execute_arm(0xee0d_ff50, 0x14, &mut mem).unwrap_err(); // mcr p15, #0, pc, c13, c0, #2
    assert_eq!(err, Trap::Unpredictable("CP15 TLS MCR from PC"));
    let err = cpu.execute_arm(0xee0d_1f70, 0x18, &mut mem).unwrap_err(); // mcr p15, #0, r1, c13, c0, #3
    assert_eq!(
        err,
        Trap::Privileged {
            pc: 0x18,
            instr: 0xee0d_1f70,
            operation: "MCR TPIDRURO",
        }
    );
    assert_eq!(cpu.cp15_tpidruro, 0x1234_5678);
}

#[test]
fn arm_cp15_barriers_are_user_mode_hle_noops() {
    let mut cpu = Cpu::new();
    let mut mem = VecMemory::new(0, 4);
    cpu.set_reg(0, 0xaaaa_5555);

    cpu.execute_arm(0xee07_0fba, 0, &mut mem).unwrap(); // mcr p15, #0, r0, c7, c10, #5 (DMB)
    cpu.execute_arm(0xee07_0f9a, 4, &mut mem).unwrap(); // mcr p15, #0, r0, c7, c10, #4 (DSB)
    cpu.execute_arm(0xee07_0f95, 8, &mut mem).unwrap(); // mcr p15, #0, r0, c7, c5, #4 (ISB)
    assert_eq!(cpu.reg(0), 0xaaaa_5555);

    let err = cpu.execute_arm(0xee07_ffba, 0x0c, &mut mem).unwrap_err(); // mcr p15, #0, pc, c7, c10, #5
    assert_eq!(err, Trap::Unpredictable("CP15 barrier MCR from PC"));
}

#[test]
fn arm_cp15_timer_mrrc_is_user_mode_hle_counter() {
    let mut cpu = Cpu::new();
    let mut mem = VecMemory::new(0, 4);

    cpu.execute_arm(0xec51_0f1e, 0, &mut mem).unwrap(); // mrrc p15, #1, r0, r1, c14
    assert_eq!((u64::from(cpu.reg(1)) << 32) | u64::from(cpu.reg(0)), 1);
    cpu.execute_arm(0xec51_2f1e, 4, &mut mem).unwrap(); // mrrc p15, #1, r2, r1, c14
    assert_eq!((u64::from(cpu.reg(1)) << 32) | u64::from(cpu.reg(2)), 1001);

    let err = cpu.execute_arm(0xec50_0f1e, 0x10, &mut mem).unwrap_err(); // mrrc p15, #1, r0, r0, c14
    assert_eq!(
        err,
        Trap::Unpredictable("CP15 MRRC/MCRR invalid core registers")
    );
    let err = cpu.execute_arm(0xec41_0f1e, 0x14, &mut mem).unwrap_err(); // mcrr p15, #1, r0, r1, c14
    assert_eq!(
        err,
        Trap::Privileged {
            pc: 0x14,
            instr: 0xec41_0f1e,
            operation: "MCRR CP15 timer",
        }
    );
}

#[test]
fn thumb_alu_memory_function() {
    let mut cpu = Cpu::new();
    let mut mem = VecMemory::new(0x2000, 0x1000);
    mem.load_thumb_halfwords(
        0x2000,
        &[
            0x2007, // movs r0, #7
            0x3003, // adds r0, #3
            0x6008, // str r0, [r1]
            0x680a, // ldr r2, [r1]
            0x4770, // bx lr
        ],
    )
    .unwrap();
    cpu.set_isa(Isa::Thumb);
    cpu.set_pc(0x2000);
    cpu.set_reg(1, 0x2400);
    cpu.set_reg(14, 0xffff_0001);
    for _ in 0..4 {
        cpu.step(&mut mem).unwrap();
    }
    assert_eq!(cpu.reg(0), 10);
    assert_eq!(cpu.reg(2), 10);
    cpu.step(&mut mem).unwrap();
    assert_eq!(cpu.pc(), 0xffff_0000);
    assert!(cpu.cpsr.t);
}

#[test]
fn thumb_high_register_add_reads_unaligned_pc_plus_four() {
    let mut cpu = Cpu::new();
    let mut mem = VecMemory::new(0, 4);

    cpu.set_isa(Isa::Thumb);
    cpu.set_reg(0, 0x0006_32fa);
    cpu.execute_thumb(0x4478, 0x0004_bad6, &mut mem).unwrap(); // add r0, pc
    assert_eq!(cpu.reg(0), 0x000a_edd4);
}

#[test]
fn thumb_compare_and_branch_function() {
    let mut cpu = Cpu::new();
    let mut mem = VecMemory::new(0, 4);

    cpu.set_reg(5, 0);
    cpu.execute_thumb(0xb325, 0xa202e2, &mut mem).unwrap(); // cbz r5, +0x48
    assert_eq!(cpu.pc(), 0xa2032e);

    cpu.set_pc(0);
    cpu.set_reg(5, 1);
    cpu.execute_thumb(0xb325, 0xa202e2, &mut mem).unwrap(); // not taken
    assert_eq!(cpu.pc(), 0);

    cpu.execute_thumb(0xbb25, 0xa202e2, &mut mem).unwrap(); // cbnz r5, +0x48
    assert_eq!(cpu.pc(), 0xa2032e);
}

#[test]
fn thumb_it_block_conditions_follow_mask() {
    let mut cpu = Cpu::new();
    let mut mem = VecMemory::new(0x3000, 0x100);
    mem.load_thumb_halfwords(
        0x3000,
        &[
            0xbf14, // ite ne
            0x2001, // movs r0, #1
            0x2002, // movs r0, #2
            0xbf94, // ite ls
            0x2103, // movs r1, #3
            0x2104, // movs r1, #4
        ],
    )
    .unwrap();

    cpu.set_isa(Isa::Thumb);
    cpu.set_pc(0x3000);
    cpu.cpsr.z = false;
    for _ in 0..3 {
        cpu.step(&mut mem).unwrap();
    }
    assert_eq!(cpu.reg(0), 1);

    cpu.set_pc(0x3000);
    cpu.set_reg(0, 0);
    cpu.cpsr.z = true;
    for _ in 0..3 {
        cpu.step(&mut mem).unwrap();
    }
    assert_eq!(cpu.reg(0), 2);

    cpu.set_pc(0x3006);
    cpu.cpsr.c = false;
    cpu.cpsr.z = false;
    for _ in 0..3 {
        cpu.step(&mut mem).unwrap();
    }
    assert_eq!(cpu.reg(1), 3);

    cpu.set_pc(0x3006);
    cpu.set_reg(1, 0);
    cpu.cpsr.c = true;
    cpu.cpsr.z = false;
    for _ in 0..3 {
        cpu.step(&mut mem).unwrap();
    }
    assert_eq!(cpu.reg(1), 4);
}

#[test]
fn thumb_push_pop_function() {
    let mut cpu = Cpu::new();
    let mut mem = VecMemory::new(0x3000, 0x2000);
    mem.load_thumb_halfwords(
        0x3000,
        &[
            0x2001, // movs r0, #1
            0x2102, // movs r1, #2
            0xb403, // push {r0, r1}
            0x2000, // movs r0, #0
            0x2100, // movs r1, #0
            0xbc0c, // pop {r2, r3}
        ],
    )
    .unwrap();
    cpu.set_isa(Isa::Thumb);
    cpu.set_pc(0x3000);
    cpu.set_reg(13, 0x4000);
    for _ in 0..6 {
        cpu.step(&mut mem).unwrap();
    }
    assert_eq!(cpu.reg(2), 1);
    assert_eq!(cpu.reg(3), 2);
    assert_eq!(cpu.reg(13), 0x4000);

    mem.store32(0x4020, 0x33).unwrap();
    mem.store32(0x4024, 0x44).unwrap();
    cpu.set_reg(0, 0x4020);
    cpu.execute_thumb(0xc803, 0x300c, &mut mem).unwrap(); // ldmia r0!, {r0, r1}
    assert_eq!(cpu.reg(0), 0x33);
    assert_eq!(cpu.reg(1), 0x44);
}

#[test]
fn thumb32_branch_clz_and_pop_function() {
    let mut cpu = Cpu::new();
    let mut mem = VecMemory::new(0x4b000, 0x2000);
    cpu.set_isa(Isa::Thumb);

    cpu.set_pc(0x4b694);
    mem.load_thumb_halfwords(0x4b694, &[0xf7ff, 0xece6])
        .unwrap();
    cpu.step(&mut mem).unwrap(); // blx 0x4b064
    assert_eq!(cpu.pc(), 0x4b064);
    assert!(!cpu.cpsr.t);
    assert_eq!(cpu.reg(14), 0x4b699);

    cpu.set_isa(Isa::Thumb);
    cpu.set_pc(0x4b6b0);
    mem.load_thumb_halfwords(0x4b6b0, &[0xf000, 0xbd6e])
        .unwrap();
    cpu.step(&mut mem).unwrap(); // b.w 0x4c190
    assert_eq!(cpu.pc(), 0x4c190);
    assert!(cpu.cpsr.t);

    cpu.set_pc(0x4b6c0);
    mem.load_thumb_halfwords(0x4b6c0, &[0xf3bf, 0x8f5b])
        .unwrap();
    cpu.step(&mut mem).unwrap(); // dmb ish
    assert_eq!(cpu.pc(), 0x4b6c4);
    assert!(cpu.cpsr.t);

    cpu.set_pc(0x4b6d8);
    cpu.set_reg(14, 0);
    mem.load_thumb_halfwords(0x4b6d8, &[0xf1be, 0x0f00])
        .unwrap();
    cpu.step(&mut mem).unwrap(); // cmp.w lr, #0
    assert!(cpu.cpsr.z);

    cpu.set_pc(0x4b6dc);
    cpu.set_reg(14, 1);
    mem.load_thumb_halfwords(0x4b6dc, &[0xf1be, 0x0f00])
        .unwrap();
    cpu.step(&mut mem).unwrap(); // cmp.w lr, #0
    assert!(!cpu.cpsr.z);

    cpu.set_pc(0x7036_177a);
    cpu.cpsr.z = true;
    cpu.execute_thumb32(0xf000, 0x80b1, 0x7036_1776, &mut mem)
        .unwrap(); // beq.w 0x703618dc
    assert_eq!(cpu.pc(), 0x7036_18dc);

    cpu.set_pc(0x7036_177a);
    cpu.cpsr.z = false;
    cpu.execute_thumb32(0xf000, 0x80b1, 0x7036_1776, &mut mem)
        .unwrap(); // beq.w not taken
    assert_eq!(cpu.pc(), 0x7036_177a);

    cpu.set_pc(0x4ba20);
    cpu.set_reg(2, 3);
    mem.load_thumb_halfwords(0x4ba20, &[0xe8df, 0xf002])
        .unwrap();
    mem.load_bytes(0x4ba24, &[2, 7, 9, 15]).unwrap();
    cpu.step(&mut mem).unwrap(); // tbb [pc, r2]
    assert_eq!(cpu.pc(), 0x4ba42);

    cpu.set_pc(0x4ba24);
    cpu.set_reg(1, 0x4c000);
    cpu.set_reg(3, 2);
    mem.load_thumb_halfwords(0x4ba24, &[0xe8d1, 0xf013])
        .unwrap();
    mem.store16(0x4c004, 0x12).unwrap();
    cpu.step(&mut mem).unwrap(); // tbh [r1, r3, lsl #1]
    assert_eq!(cpu.pc(), 0x4ba4c);

    mem.store32(0x4c000, 0x1111_2222).unwrap();
    cpu.set_reg(3, 0x4c000);
    cpu.set_pc(0x4b6c4);
    mem.load_thumb_halfwords(0x4b6c4, &[0xe853, 0x5f00])
        .unwrap();
    cpu.step(&mut mem).unwrap(); // ldrex r5, [r3]
    assert_eq!(cpu.reg(5), 0x1111_2222);

    cpu.set_reg(2, 0x3333_4444);
    cpu.set_pc(0x4b6c8);
    mem.load_thumb_halfwords(0x4b6c8, &[0xe843, 0x2100])
        .unwrap();
    cpu.step(&mut mem).unwrap(); // strex r1, r2, [r3]
    assert_eq!(cpu.reg(1), 0);
    assert_eq!(mem.load32(0x4c000).unwrap(), 0x3333_4444);

    mem.store8(0x4c010, 0x7f).unwrap();
    cpu.set_reg(0, 0x4c010);
    cpu.set_pc(0x4b6cc);
    mem.load_thumb_halfwords(0x4b6cc, &[0xe8d0, 0x2f4f])
        .unwrap();
    cpu.step(&mut mem).unwrap(); // ldrexb r2, [r0]
    assert_eq!(cpu.reg(2), 0x7f);

    cpu.set_reg(1, 0xab);
    cpu.set_pc(0x4b6d0);
    mem.load_thumb_halfwords(0x4b6d0, &[0xe8c0, 0x1f43])
        .unwrap();
    cpu.step(&mut mem).unwrap(); // strexb r3, r1, [r0]
    assert_eq!(cpu.reg(3), 0);
    assert_eq!(mem.load8(0x4c010).unwrap(), 0xab);

    mem.store16(0x4c012, 0x1234).unwrap();
    cpu.set_reg(0, 0x4c012);
    cpu.set_pc(0x4b6d4);
    mem.load_thumb_halfwords(0x4b6d4, &[0xe8d0, 0x2f5f])
        .unwrap();
    cpu.step(&mut mem).unwrap(); // ldrexh r2, [r0]
    assert_eq!(cpu.reg(2), 0x1234);

    cpu.set_reg(1, 0x5678);
    cpu.set_pc(0x4b6d8);
    mem.load_thumb_halfwords(0x4b6d8, &[0xe8c0, 0x1f53])
        .unwrap();
    cpu.step(&mut mem).unwrap(); // strexh r3, r1, [r0]
    assert_eq!(cpu.reg(3), 0);
    assert_eq!(mem.load16(0x4c012).unwrap(), 0x5678);

    cpu.set_pc(0x4b6a2);
    cpu.set_reg(0, 0x0000_00f0);
    mem.load_thumb_halfwords(0x4b6a2, &[0xfab0, 0xf380])
        .unwrap();
    cpu.step(&mut mem).unwrap(); // clz r3, r0
    assert_eq!(cpu.reg(3), 24);
    assert_eq!(cpu.pc(), 0x4b6a6);

    cpu.set_pc(0x4b6a6);
    cpu.set_reg(8, 1);
    cpu.set_reg(4, 4);
    mem.load_thumb_halfwords(0x4b6a6, &[0xfa08, 0xf104])
        .unwrap();
    cpu.step(&mut mem).unwrap(); // lsl.w r1, r8, r4
    assert_eq!(cpu.reg(1), 16);

    cpu.set_pc(0x4b6aa);
    cpu.set_reg(3, 0xe0);
    mem.load_thumb_halfwords(0x4b6aa, &[0xea4f, 0x1353])
        .unwrap();
    cpu.step(&mut mem).unwrap(); // lsr.w r3, r3, #5
    assert_eq!(cpu.reg(3), 7);

    cpu.set_pc(0x4b6ae);
    cpu.set_reg(2, 0x1234_abcd);
    mem.load_thumb_halfwords(0x4b6ae, &[0xf3c2, 0x020b])
        .unwrap();
    cpu.step(&mut mem).unwrap(); // ubfx r2, r2, #0, #12
    assert_eq!(cpu.reg(2), 0xbcd);

    cpu.set_pc(0x4b6d0);
    cpu.set_reg(2, 0x8000_0001);
    mem.load_thumb_halfwords(0x4b6d0, &[0xf012, 0x0201])
        .unwrap();
    cpu.step(&mut mem).unwrap(); // ands r2, r2, #1
    assert_eq!(cpu.reg(2), 1);
    assert!(!cpu.cpsr.n);
    assert!(!cpu.cpsr.z);

    cpu.set_pc(0x4b74c);
    mem.load_thumb_halfwords(0x4b74c, &[0xf04f, 0x35ff])
        .unwrap();
    cpu.step(&mut mem).unwrap(); // mov.w r5, #0xffffffff
    assert_eq!(cpu.reg(5), u32::MAX);

    cpu.set_pc(0x4b974);
    mem.load_thumb_halfwords(0x4b974, &[0xeeb0, 0x6b00])
        .unwrap();
    cpu.step(&mut mem).unwrap(); // vmov.f64 d6, #2.0
    assert_eq!(f64::from_bits(cpu.dreg(6)), 2.0);

    cpu.set_pc(0x4b978);
    mem.load_thumb_halfwords(0x4b978, &[0xf44f, 0x7080])
        .unwrap();
    cpu.step(&mut mem).unwrap(); // mov.w r0, #0x100
    assert_eq!(cpu.reg(0), 0x100);

    cpu.set_pc(0x4b97c);
    cpu.set_reg(13, 0x4c200);
    cpu.set_reg(4, 0x4444);
    cpu.set_reg(11, 0xbbbb);
    cpu.set_reg(14, 0xeeee);
    mem.load_thumb_halfwords(0x4b97c, &[0xe92d, 0x4ff0])
        .unwrap();
    cpu.step(&mut mem).unwrap(); // push.w {r4-r11, lr}
    assert_eq!(cpu.reg(13), 0x4c1dc);
    assert_eq!(mem.load32(0x4c1dc).unwrap(), 0x4444);
    assert_eq!(mem.load32(0x4c1f8).unwrap(), 0xbbbb);
    assert_eq!(mem.load32(0x4c1fc).unwrap(), 0xeeee);

    cpu.set_pc(0x4b990);
    cpu.set_reg(6, 0x1000);
    mem.load_thumb_halfwords(0x4b990, &[0xf506, 0x78a8])
        .unwrap();
    cpu.step(&mut mem).unwrap(); // add.w r8, r6, #0x150
    assert_eq!(cpu.reg(8), 0x1150);

    cpu.set_pc(0x4b994);
    cpu.set_reg(4, 0x703b_4dbc);
    mem.load_thumb_halfwords(0x4b994, &[0xf204, 0x101d])
        .unwrap();
    cpu.step(&mut mem).unwrap(); // addw r0, r4, #0x11d
    assert_eq!(cpu.reg(0), 0x703b_4ed9);

    cpu.set_pc(0x4b998);
    mem.load_thumb_halfwords(0x4b998, &[0xf2a4, 0x111d])
        .unwrap();
    cpu.step(&mut mem).unwrap(); // subw r1, r4, #0x11d
    assert_eq!(cpu.reg(1), 0x703b_4c9f);

    cpu.set_pc(0x4b99c);
    mem.load_thumb_halfwords(0x4b99c, &[0xf64a, 0x32cd])
        .unwrap();
    cpu.step(&mut mem).unwrap(); // movw r2, #0xabcd
    assert_eq!(cpu.reg(2), 0xabcd);

    cpu.set_pc(0x4b9a0);
    mem.load_thumb_halfwords(0x4b9a0, &[0xf2c1, 0x2234])
        .unwrap();
    cpu.step(&mut mem).unwrap(); // movt r2, #0x1234
    assert_eq!(cpu.reg(2), 0x1234_abcd);

    cpu.set_pc(0x4b9a4);
    mem.load_thumb_halfwords(0x4b9a4, &[0xf20f, 0x0320])
        .unwrap();
    cpu.step(&mut mem).unwrap(); // adr.w r3, #0x20
    assert_eq!(cpu.reg(3), 0x4b9c8);

    cpu.set_pc(0x4b9a8);
    cpu.set_reg(3, 7);
    cpu.set_reg(4, 11);
    mem.load_thumb_halfwords(0x4b9a8, &[0xfb04, 0xf203])
        .unwrap();
    cpu.step(&mut mem).unwrap(); // mul r2, r4, r3
    assert_eq!(cpu.reg(2), 77);

    cpu.set_pc(0x4b9ac);
    cpu.set_reg(1, 5);
    mem.load_thumb_halfwords(0x4b9ac, &[0xfb04, 0x1203])
        .unwrap();
    cpu.step(&mut mem).unwrap(); // mla r2, r4, r3, r1
    assert_eq!(cpu.reg(2), 82);

    cpu.set_pc(0x4b9b0);
    cpu.set_reg(2, 6);
    cpu.set_reg(3, 7);
    cpu.set_reg(4, 100);
    mem.load_thumb_halfwords(0x4b9b0, &[0xfb02, 0x4513])
        .unwrap();
    cpu.step(&mut mem).unwrap(); // mls r5, r2, r3, r4
    assert_eq!(cpu.reg(5), 58);

    cpu.set_pc(0x4b9b4);
    cpu.set_reg(4, 0x0d20_c51b);
    cpu.set_reg(7, 0xcccc_cccd);
    mem.load_thumb_halfwords(0x4b9b4, &[0xfba4, 0x0107])
        .unwrap();
    cpu.step(&mut mem).unwrap(); // umull r0, r1, r4, r7
    let product = 0x0d20_c51bu64 * 0xcccc_cccdu64;
    assert_eq!(cpu.reg(0), product as u32);
    assert_eq!(cpu.reg(1), (product >> 32) as u32);

    cpu.set_pc(0x4b9b2);
    cpu.set_reg(2, 0x1111_2222);
    cpu.set_reg(3, 0x3333_4444);
    cpu.set_reg(6, 0x4c200);
    mem.load_thumb_halfwords(0x4b9b2, &[0xe9c6, 0x2314])
        .unwrap();
    cpu.step(&mut mem).unwrap(); // strd r2, r3, [r6, #80]
    assert_eq!(mem.load32(0x4c250).unwrap(), 0x1111_2222);
    assert_eq!(mem.load32(0x4c254).unwrap(), 0x3333_4444);
    assert_eq!(cpu.reg(6), 0x4c200);

    cpu.set_pc(0x4b9b6);
    mem.store32(0x4c278, 0x5555_6666).unwrap();
    mem.store32(0x4c27c, 0x7777_8888).unwrap();
    mem.load_thumb_halfwords(0x4b9b6, &[0xe9d6, 0x451e])
        .unwrap();
    cpu.step(&mut mem).unwrap(); // ldrd r4, r5, [r6, #120]
    assert_eq!(cpu.reg(4), 0x5555_6666);
    assert_eq!(cpu.reg(5), 0x7777_8888);
    assert_eq!(cpu.reg(6), 0x4c200);

    cpu.set_pc(0x4ba04);
    cpu.set_reg(1, 0x5555_6666);
    cpu.set_reg(6, 0x4c200);
    mem.load_thumb_halfwords(0x4ba04, &[0xf8c6, 0x1098])
        .unwrap();
    cpu.step(&mut mem).unwrap(); // str.w r1, [r6, #0x98]
    assert_eq!(mem.load32(0x4c298).unwrap(), 0x5555_6666);

    cpu.set_pc(0x4ba08);
    cpu.set_reg(3, 0x4c2a0);
    cpu.set_reg(14, 0x1234_56ee);
    mem.load_thumb_halfwords(0x4ba08, &[0xf883, 0xe000])
        .unwrap();
    cpu.step(&mut mem).unwrap(); // strb.w lr, [r3]
    assert_eq!(mem.load8(0x4c2a0).unwrap(), 0xee);

    cpu.set_pc(0x4ba0c);
    mem.load_thumb_halfwords(0x4ba0c, &[0xf893, 0x2000])
        .unwrap();
    cpu.step(&mut mem).unwrap(); // ldrb.w r2, [r3]
    assert_eq!(cpu.reg(2), 0xee);

    cpu.set_pc(0x4ba10);
    mem.store8(0x4c2a1, 0xf1).unwrap();
    mem.load_thumb_halfwords(0x4ba10, &[0xf993, 0x1001])
        .unwrap();
    cpu.step(&mut mem).unwrap(); // ldrsb.w r1, [r3, #1]
    assert_eq!(cpu.reg(1), 0xffff_fff1);

    cpu.set_pc(0x4ba14);
    mem.store16(0x4c2ae, 0x8001).unwrap();
    mem.load_thumb_halfwords(0x4ba14, &[0xf9b3, 0x000e])
        .unwrap();
    cpu.step(&mut mem).unwrap(); // ldrsh.w r0, [r3, #0xe]
    assert_eq!(cpu.reg(0), 0xffff_8001);

    cpu.set_pc(0x4ba18);
    cpu.set_reg(5, 0x4c2c0);
    cpu.set_reg(2, 6);
    mem.store16(0x4c2cc, 0xff80).unwrap();
    mem.load_thumb_halfwords(0x4ba18, &[0xf935, 0x4012])
        .unwrap();
    cpu.step(&mut mem).unwrap(); // ldrsh.w r4, [r5, r2, lsl #1]
    assert_eq!(cpu.reg(4), 0xffff_ff80);

    cpu.set_pc(0x4ba10);
    mem.load_thumb_halfwords(0x4ba10, &[0xf8df, 0x4498])
        .unwrap();
    mem.store32(0x4beac, 0x1234_5678).unwrap();
    cpu.step(&mut mem).unwrap(); // ldr.w r4, [pc, #0x498]
    assert_eq!(cpu.reg(4), 0x1234_5678);

    cpu.set_pc(0x4ba14);
    cpu.set_reg(13, 0x4c260);
    mem.store32(0x4c260, 0x4bb01).unwrap();
    mem.load_thumb_halfwords(0x4ba14, &[0xf85d, 0xfb04])
        .unwrap();
    cpu.step(&mut mem).unwrap(); // ldr pc, [sp], #4
    assert_eq!(cpu.pc(), 0x4bb00);
    assert!(cpu.cpsr.t);
    assert_eq!(cpu.reg(13), 0x4c264);

    cpu.set_isa(Isa::Thumb);
    cpu.set_pc(0x4ba18);
    cpu.set_reg(2, 0xffff_fffe);
    cpu.set_reg(3, 3);
    mem.load_thumb_halfwords(0x4ba18, &[0xfb82, 0x0103])
        .unwrap();
    cpu.step(&mut mem).unwrap(); // smull r0, r1, r2, r3
    assert_eq!(cpu.reg(0), 0xffff_fffa);
    assert_eq!(cpu.reg(1), 0xffff_ffff);

    cpu.set_pc(0x4ba1c);
    cpu.set_reg(1, 0x0002_0003);
    cpu.set_reg(2, 0x0004_0005);
    cpu.set_reg(3, 10);
    mem.load_thumb_halfwords(0x4ba1c, &[0xfb21, 0x3002])
        .unwrap();
    cpu.step(&mut mem).unwrap(); // smlad r0, r1, r2, r3
    assert_eq!(cpu.reg(0), 33);

    cpu.set_pc(0x4ba18);
    cpu.set_reg(6, 0x4c280);
    cpu.set_reg(7, 3);
    mem.store32(0x4c28c, 0xfeed_face).unwrap();
    mem.load_thumb_halfwords(0x4ba18, &[0xf856, 0x0027])
        .unwrap();
    cpu.step(&mut mem).unwrap(); // ldr.w r0, [r6, r7, lsl #2]
    assert_eq!(cpu.reg(0), 0xfeed_face);

    cpu.set_pc(0x4ba1c);
    cpu.set_reg(4, 0x4c300);
    mem.store32(0x4c300, 0x1234_5678).unwrap();
    mem.store32(0x4c304, 0x9abc_def0).unwrap();
    mem.load_thumb_halfwords(0x4ba1c, &[0xe894, 0x0060])
        .unwrap();
    cpu.step(&mut mem).unwrap(); // ldm.w r4, {r5, r6}
    assert_eq!(cpu.reg(5), 0x1234_5678);
    assert_eq!(cpu.reg(6), 0x9abc_def0);
    assert_eq!(cpu.reg(4), 0x4c300);

    cpu.set_pc(0x4b758);
    cpu.set_reg(0, 0xaaaa_bbbb);
    cpu.set_reg(1, 0x4c100);
    cpu.set_reg(2, 0xcccc_dddd);
    mem.load_thumb_halfwords(0x4b758, &[0xe881, 0x0005])
        .unwrap();
    cpu.step(&mut mem).unwrap(); // stm.w r1, {r0, r2}
    assert_eq!(mem.load32(0x4c100).unwrap(), 0xaaaa_bbbb);
    assert_eq!(mem.load32(0x4c104).unwrap(), 0xcccc_dddd);
    assert_eq!(cpu.reg(1), 0x4c100);

    cpu.set_pc(0x4b7b8);
    cpu.set_reg(1, 0);
    cpu.set_reg(2, 0x4c180);
    cpu.cpsr.n = false;
    mem.store32(0x4c180, 0).unwrap();
    mem.load_thumb_halfwords(0x4b7b8, &[0xbf5c, 0x2101, 0x6011])
        .unwrap();
    for _ in 0..3 {
        cpu.step(&mut mem).unwrap();
    }
    assert_eq!(mem.load32(0x4c180).unwrap(), 1);

    cpu.set_pc(0x4b7b8);
    cpu.set_reg(1, 0);
    cpu.set_reg(2, 0x4c180);
    cpu.cpsr.n = true;
    mem.store32(0x4c180, 0).unwrap();
    for _ in 0..3 {
        cpu.step(&mut mem).unwrap();
    }
    assert_eq!(mem.load32(0x4c180).unwrap(), 0);

    cpu.set_pc(0x4b6ac);
    cpu.set_reg(13, 0x4c000);
    mem.store32(0x4c000, 0x1234_5678).unwrap();
    mem.store32(0x4c004, 0x8765_4321).unwrap();
    mem.load_thumb_halfwords(0x4b6ac, &[0xe8bd, 0x4010])
        .unwrap();
    cpu.step(&mut mem).unwrap(); // pop.w {r4, lr}
    assert_eq!(cpu.reg(4), 0x1234_5678);
    assert_eq!(cpu.reg(14), 0x8765_4321);
    assert_eq!(cpu.reg(13), 0x4c008);
    assert_eq!(cpu.pc(), 0x4b6b0);
}

#[test]
fn thumb_unpredictable_register_forms() {
    let mut cpu = Cpu::new();
    let mut mem = VecMemory::new(0x4000, 0x100);
    cpu.set_isa(Isa::Thumb);

    let err = cpu.execute_thumb(0xb400, 0, &mut mem).unwrap_err(); // push {}
    assert_eq!(
        err,
        Trap::Unpredictable("empty Thumb push/pop register list")
    );
    let err = cpu.execute_thumb(0xbc00, 0, &mut mem).unwrap_err(); // pop {}
    assert_eq!(
        err,
        Trap::Unpredictable("empty Thumb push/pop register list")
    );

    cpu.set_reg(0, 0x4020);
    cpu.set_reg(1, 0x1122_3344);
    cpu.execute_thumb(0xc003, 0, &mut mem).unwrap(); // stmia r0!, {r0, r1}
    assert_eq!(mem.load32(0x4020).unwrap(), 0x4020);
    assert_eq!(mem.load32(0x4024).unwrap(), 0x1122_3344);
    assert_eq!(cpu.reg(0), 0x4028);

    let err = cpu.execute_thumb(0xc103, 0, &mut mem).unwrap_err(); // stmia r1!, {r0, r1}
    assert_eq!(
        err,
        Trap::Unpredictable("Thumb STM writeback base not first in register list")
    );

    let err = cpu.execute_thumb(0x4508, 0, &mut mem).unwrap_err(); // cmp r0, r1 in high-register encoding
    assert_eq!(
        err,
        Trap::Unpredictable("Thumb high-register CMP with invalid registers")
    );
    let err = cpu.execute_thumb(0x4587, 0, &mut mem).unwrap_err(); // cmp pc, r0
    assert_eq!(
        err,
        Trap::Unpredictable("Thumb high-register CMP with invalid registers")
    );
    let err = cpu.execute_thumb(0x44ff, 0, &mut mem).unwrap_err(); // add pc, pc
    assert_eq!(
        err,
        Trap::Unpredictable("Thumb high-register ADD with PC operands")
    );
}

#[test]
fn thumb_armv6_extend_reverse_and_breakpoint_function() {
    let mut cpu = Cpu::new();
    let mut mem = VecMemory::new(0, 4);
    cpu.set_isa(Isa::Thumb);

    cpu.set_reg(1, 0x0000_8001);
    cpu.execute_thumb(0xb208, 0, &mut mem).unwrap(); // sxth r0, r1
    assert_eq!(cpu.reg(0), 0xffff_8001);

    cpu.set_reg(3, 0x0000_00f1);
    cpu.execute_thumb(0xb25a, 0, &mut mem).unwrap(); // sxtb r2, r3
    assert_eq!(cpu.reg(2), 0xffff_fff1);

    cpu.set_reg(5, 0x1234_8001);
    cpu.execute_thumb(0xb2ac, 0, &mut mem).unwrap(); // uxth r4, r5
    assert_eq!(cpu.reg(4), 0x8001);

    cpu.set_reg(7, 0x1234_56ab);
    cpu.execute_thumb(0xb2fe, 0, &mut mem).unwrap(); // uxtb r6, r7
    assert_eq!(cpu.reg(6), 0xab);

    cpu.set_reg(1, 0x1122_3344);
    cpu.execute_thumb(0xba08, 0, &mut mem).unwrap(); // rev r0, r1
    assert_eq!(cpu.reg(0), 0x4433_2211);

    cpu.set_reg(3, 0x1122_3344);
    cpu.execute_thumb(0xba5a, 0, &mut mem).unwrap(); // rev16 r2, r3
    assert_eq!(cpu.reg(2), 0x2211_4433);

    cpu.set_reg(5, 0x0000_80ff);
    cpu.execute_thumb(0xbaec, 0, &mut mem).unwrap(); // revsh r4, r5
    assert_eq!(cpu.reg(4), 0xffff_ff80);

    let err = cpu.execute_thumb(0xbe07, 0x1234, &mut mem).unwrap_err();
    assert_eq!(
        err,
        Trap::Breakpoint {
            pc: 0x1234,
            comment: 7
        }
    );

    cpu.execute_thumb(0xb650, 0, &mut mem).unwrap(); // setend le
    let err = cpu.execute_thumb(0xb662, 0x24, &mut mem).unwrap_err(); // cpsie i
    assert_eq!(
        err,
        Trap::Privileged {
            pc: 0x24,
            instr: 0xb662,
            operation: "CPS",
        }
    );
    let err = cpu.execute_thumb(0xb672, 0x28, &mut mem).unwrap_err(); // cpsid i
    assert_eq!(
        err,
        Trap::Privileged {
            pc: 0x28,
            instr: 0xb672,
            operation: "CPS",
        }
    );
    let err = cpu.execute_thumb(0xb658, 0, &mut mem).unwrap_err(); // setend be
    assert!(matches!(err, Trap::Unpredictable(_)));
}

#[test]
fn armv6_misc_reversal_extension_and_saturation() {
    let mut cpu = Cpu::new();
    let mut mem = VecMemory::new(0, 4);

    cpu.set_reg(1, 0x1122_3344);
    cpu.execute_arm(0xe6bf_0f31, 0, &mut mem).unwrap(); // rev r0, r1
    assert_eq!(cpu.reg(0), 0x4433_2211);

    cpu.set_reg(3, 0x1122_3344);
    cpu.execute_arm(0xe6bf_2fb3, 0, &mut mem).unwrap(); // rev16 r2, r3
    assert_eq!(cpu.reg(2), 0x2211_4433);

    cpu.set_reg(5, 0x0000_80ff);
    cpu.execute_arm(0xe6ff_4fb5, 0, &mut mem).unwrap(); // revsh r4, r5
    assert_eq!(cpu.reg(4), 0xffff_ff80);

    cpu.set_reg(1, 0x0000_00f1);
    cpu.execute_arm(0xe6af_0071, 0, &mut mem).unwrap(); // sxtb r0, r1
    assert_eq!(cpu.reg(0), 0xffff_fff1);

    cpu.set_reg(3, 0x0000_8001);
    cpu.execute_arm(0xe6bf_2073, 0, &mut mem).unwrap(); // sxth r2, r3
    assert_eq!(cpu.reg(2), 0xffff_8001);

    cpu.set_reg(5, 0x1234_56ab);
    cpu.execute_arm(0xe6ef_4075, 0, &mut mem).unwrap(); // uxtb r4, r5
    assert_eq!(cpu.reg(4), 0xab);

    cpu.set_reg(7, 0x1234_8001);
    cpu.execute_arm(0xe6ff_6077, 0, &mut mem).unwrap(); // uxth r6, r7
    assert_eq!(cpu.reg(6), 0x8001);

    cpu.set_reg(1, 10);
    cpu.set_reg(2, 0x0000_00f6);
    cpu.execute_arm(0xe6a1_0072, 0, &mut mem).unwrap(); // sxtab r0, r1, r2
    assert_eq!(cpu.reg(0), 0);

    cpu.set_reg(4, 0x0001_0002);
    cpu.set_reg(5, 0x00fe_00ff);
    cpu.execute_arm(0xe684_3075, 0, &mut mem).unwrap(); // sxtab16 r3, r4, r5
    assert_eq!(cpu.reg(3), 0xffff_0001);

    cpu.set_reg(7, 5);
    cpu.set_reg(8, 0x0000_fff0);
    cpu.execute_arm(0xe6b7_6078, 0, &mut mem).unwrap(); // sxtah r6, r7, r8
    assert_eq!(cpu.reg(6), (-11i32) as u32);

    cpu.set_reg(10, 0x00fe_00ff);
    cpu.execute_arm(0xe68f_907a, 0, &mut mem).unwrap(); // sxtb16 r9, r10
    assert_eq!(cpu.reg(9), 0xfffe_ffff);

    cpu.set_reg(1, 10);
    cpu.set_reg(2, 0x0000_00f6);
    cpu.execute_arm(0xe6e1_0072, 0, &mut mem).unwrap(); // uxtab r0, r1, r2
    assert_eq!(cpu.reg(0), 256);

    cpu.set_reg(4, 0x0001_0002);
    cpu.set_reg(5, 0x00fe_00ff);
    cpu.execute_arm(0xe6c4_3075, 0, &mut mem).unwrap(); // uxtab16 r3, r4, r5
    assert_eq!(cpu.reg(3), 0x00ff_0101);

    cpu.set_reg(7, 5);
    cpu.set_reg(8, 0x0000_fff0);
    cpu.execute_arm(0xe6f7_6078, 0, &mut mem).unwrap(); // uxtah r6, r7, r8
    assert_eq!(cpu.reg(6), 0xfff5);

    cpu.set_reg(10, 0x00fe_00ff);
    cpu.execute_arm(0xe6cf_907a, 0, &mut mem).unwrap(); // uxtb16 r9, r10
    assert_eq!(cpu.reg(9), 0x00fe_00ff);

    cpu.set_reg(1, 0xaf28_6bcb);
    cpu.execute_arm(0xe7eb_0651, 0, &mut mem).unwrap(); // ubfx r0, r1, #12, #12
    assert_eq!(cpu.reg(0), 0x286);

    cpu.set_reg(1, 0x00f0_0000);
    cpu.execute_arm(0xe7ab_0651, 0, &mut mem).unwrap(); // sbfx r0, r1, #12, #12
    assert_eq!(cpu.reg(0), 0xffff_ff00);

    cpu.set_reg(0, 0xffff_ffff);
    cpu.execute_arm(0xe7cf_041f, 0, &mut mem).unwrap(); // bfc r0, #8, #8
    assert_eq!(cpu.reg(0), 0xffff_00ff);

    cpu.set_reg(0, 0xffff_00ff);
    cpu.set_reg(1, 0x0000_00ab);
    cpu.execute_arm(0xe7cf_0411, 0, &mut mem).unwrap(); // bfi r0, r1, #8, #8
    assert_eq!(cpu.reg(0), 0xffff_abff);

    cpu.set_reg(1, 0x7fff_ffff);
    cpu.set_reg(2, 1);
    cpu.execute_arm(0xe102_0051, 0, &mut mem).unwrap(); // qadd r0, r1, r2
    assert_eq!(cpu.reg(0), 0x7fff_ffff);
    assert!(cpu.cpsr.q);

    cpu.cpsr.q = false;
    cpu.set_reg(1, 200);
    cpu.execute_arm(0xe6a7_0011, 0, &mut mem).unwrap(); // ssat r0, #8, r1
    assert_eq!(cpu.reg(0), 127);
    assert!(cpu.cpsr.q);

    cpu.cpsr.q = false;
    cpu.set_reg(3, u32::MAX);
    cpu.execute_arm(0xe6e7_2013, 0, &mut mem).unwrap(); // usat r2, #7, r3
    assert_eq!(cpu.reg(2), 0);
    assert!(cpu.cpsr.q);

    cpu.cpsr.q = false;
    cpu.set_reg(1, 0x0100_ff00);
    cpu.execute_arm(0xe6a7_0f31, 0, &mut mem).unwrap(); // ssat16 r0, #8, r1
    assert_eq!(cpu.reg(0), 0x007f_ff80);
    assert!(cpu.cpsr.q);

    cpu.cpsr.q = false;
    cpu.set_reg(3, 0x0100_fffe);
    cpu.execute_arm(0xe6e7_2f33, 0, &mut mem).unwrap(); // usat16 r2, #7, r3
    assert_eq!(cpu.reg(2), 0x007f_0000);
    assert!(cpu.cpsr.q);

    let err = cpu.execute_arm(0xe16f_ff11, 0, &mut mem).unwrap_err(); // clz pc, r1
    assert!(matches!(
        err,
        Trap::Unpredictable("misc instruction with PC register")
    ));
    let err = cpu.execute_arm(0xe6bf_ff31, 0, &mut mem).unwrap_err(); // rev pc, r1
    assert!(matches!(
        err,
        Trap::Unpredictable("misc instruction with PC register")
    ));
    let err = cpu.execute_arm(0xe6af_f071, 0, &mut mem).unwrap_err(); // sxtb pc, r1
    assert!(matches!(
        err,
        Trap::Unpredictable("extend with PC register")
    ));
    let err = cpu.execute_arm(0xe10f_0051, 0, &mut mem).unwrap_err(); // qadd r0, r1, pc
    assert!(matches!(
        err,
        Trap::Unpredictable("saturating arithmetic with PC register")
    ));
    let err = cpu.execute_arm(0xe7eb_065f, 0, &mut mem).unwrap_err(); // ubfx r0, pc, #12, #12
    assert!(matches!(
        err,
        Trap::Unpredictable("bitfield extract with PC register")
    ));
    let err = cpu.execute_arm(0xe7cf_f411, 0, &mut mem).unwrap_err(); // bfi pc, r1, #8, #8
    assert!(matches!(
        err,
        Trap::Unpredictable("bitfield insert with PC destination")
    ));
    let err = cpu.execute_arm(0xe6a7_0f3f, 0, &mut mem).unwrap_err(); // ssat16 r0, #8, pc
    assert!(matches!(
        err,
        Trap::Unpredictable("saturation with PC register")
    ));
}

#[test]
fn armv6_swap_and_exclusive_function() {
    let mut cpu = Cpu::new();
    let mut mem = VecMemory::new(0x5000, 0x100);
    mem.store32(0x5040, 0x1122_3344).unwrap();

    cpu.set_reg(1, 0xaabb_ccdd);
    cpu.set_reg(2, 0x5040);
    cpu.execute_arm(0xe102_0091, 0, &mut mem).unwrap(); // swp r0, r1, [r2]
    assert_eq!(cpu.reg(0), 0x1122_3344);
    assert_eq!(mem.load32(0x5040).unwrap(), 0xaabb_ccdd);

    mem.store32(0x5044, 0x1122_3344).unwrap();
    cpu.set_reg(1, 0xaa);
    cpu.set_reg(2, 0x5044);
    cpu.execute_arm(0xe142_0091, 0, &mut mem).unwrap(); // swpb r0, r1, [r2]
    assert_eq!(cpu.reg(0), 0x44);
    assert_eq!(mem.load32(0x5044).unwrap(), 0x1122_33aa);

    let err = cpu.execute_arm(0xe100_0091, 0, &mut mem).unwrap_err(); // swp r0, r1, [r0]
    assert_eq!(err, Trap::Unpredictable("SWP with invalid register form"));
    let err = cpu.execute_arm(0xe10f_0091, 0, &mut mem).unwrap_err(); // swp r0, r1, [pc]
    assert_eq!(err, Trap::Unpredictable("SWP with invalid register form"));

    cpu.set_reg(1, 0x5040);
    cpu.execute_arm(0xe191_0f9f, 0, &mut mem).unwrap(); // ldrex r0, [r1]
    assert_eq!(cpu.reg(0), 0xaabb_ccdd);

    cpu.set_reg(3, 0xfeed_cafe);
    cpu.set_reg(4, 0x5040);
    cpu.execute_arm(0xe184_2f93, 0, &mut mem).unwrap(); // strex r2, r3, [r4]
    assert_eq!(cpu.reg(2), 0);
    assert_eq!(mem.load32(0x5040).unwrap(), 0xfeed_cafe);

    mem.store8(0x5048, 0x12).unwrap();
    cpu.set_reg(1, 0x5048);
    cpu.execute_arm(0xe1d1_0f9f, 0, &mut mem).unwrap(); // ldrexb r0, [r1]
    assert_eq!(cpu.reg(0), 0x12);
    cpu.set_reg(1, 0x34);
    cpu.set_reg(2, 0x5048);
    cpu.execute_arm(0xe1c2_0f91, 0, &mut mem).unwrap(); // strexb r0, r1, [r2]
    assert_eq!(cpu.reg(0), 0);
    assert_eq!(mem.load8(0x5048).unwrap(), 0x34);

    mem.store16(0x504a, 0x5678).unwrap();
    cpu.set_reg(3, 0x504a);
    cpu.execute_arm(0xe1f3_2f9f, 0, &mut mem).unwrap(); // ldrexh r2, [r3]
    assert_eq!(cpu.reg(2), 0x5678);
    cpu.set_reg(4, 0x9abc);
    cpu.set_reg(5, 0x504a);
    cpu.execute_arm(0xe1e5_3f94, 0, &mut mem).unwrap(); // strexh r3, r4, [r5]
    assert_eq!(cpu.reg(3), 0);
    assert_eq!(mem.load16(0x504a).unwrap(), 0x9abc);

    mem.store32(0x5050, 0x1111_2222).unwrap();
    mem.store32(0x5054, 0x3333_4444).unwrap();
    cpu.set_reg(6, 0x5050);
    cpu.execute_arm(0xe1b6_4f9f, 0, &mut mem).unwrap(); // ldrexd r4, r5, [r6]
    assert_eq!(cpu.reg(4), 0x1111_2222);
    assert_eq!(cpu.reg(5), 0x3333_4444);
    cpu.set_reg(7, 0x5050);
    cpu.set_reg(8, 0xaaaa_bbbb);
    cpu.set_reg(9, 0xcccc_dddd);
    cpu.execute_arm(0xe1a7_6f98, 0, &mut mem).unwrap(); // strexd r6, r8, r9, [r7]
    assert_eq!(cpu.reg(6), 0);
    assert_eq!(mem.load32(0x5050).unwrap(), 0xaaaa_bbbb);
    assert_eq!(mem.load32(0x5054).unwrap(), 0xcccc_dddd);

    mem.store32(0x5060, 0x1111_1111).unwrap();
    cpu.set_reg(4, 0x5060);
    cpu.execute_arm(0xe194_0f9f, 0, &mut mem).unwrap(); // ldrex r0, [r4]
    cpu.set_reg(2, 0x2222_2222);
    cpu.execute_arm(0xe584_2000, 0, &mut mem).unwrap(); // str r2, [r4]
    cpu.set_reg(3, 0x3333_3333);
    cpu.execute_arm(0xe184_0f93, 0, &mut mem).unwrap(); // strex r0, r3, [r4]
    assert_eq!(cpu.reg(0), 1);
    assert_eq!(mem.load32(0x5060).unwrap(), 0x2222_2222);

    mem.store32(0x5068, 0x1111_1111).unwrap();
    mem.store32(0x506c, 0x4444_4444).unwrap();
    cpu.set_reg(4, 0x5068);
    cpu.execute_arm(0xe194_0f9f, 0, &mut mem).unwrap(); // ldrex r0, [r4]
    cpu.set_reg(2, 0x2222_2222);
    cpu.execute_arm(0xe584_2004, 0, &mut mem).unwrap(); // str r2, [r4, #4]
    cpu.set_reg(3, 0x3333_3333);
    cpu.execute_arm(0xe184_0f93, 0, &mut mem).unwrap(); // strex r0, r3, [r4]
    assert_eq!(cpu.reg(0), 0);
    assert_eq!(mem.load32(0x5068).unwrap(), 0x3333_3333);
    assert_eq!(mem.load32(0x506c).unwrap(), 0x2222_2222);

    mem.store16(0x5070, 0x1111).unwrap();
    cpu.set_reg(4, 0x5070);
    cpu.execute_arm(0xe1f4_0f9f, 0, &mut mem).unwrap(); // ldrexh r0, [r4]
    cpu.set_reg(2, 0x22);
    cpu.execute_arm(0xe5c4_2001, 0, &mut mem).unwrap(); // strb r2, [r4, #1]
    cpu.set_reg(3, 0x3333);
    cpu.execute_arm(0xe1e4_0f93, 0, &mut mem).unwrap(); // strexh r0, r3, [r4]
    assert_eq!(cpu.reg(0), 1);
    assert_eq!(mem.load16(0x5070).unwrap(), 0x2211);

    cpu.execute_arm(0xf57f_f01f, 0, &mut mem).unwrap(); // clrex
    cpu.set_reg(3, 0x1234_5678);
    cpu.set_reg(4, 0x5040);
    cpu.execute_arm(0xe184_2f93, 0, &mut mem).unwrap(); // strex r2, r3, [r4]
    assert_eq!(cpu.reg(2), 1);
    assert_eq!(mem.load32(0x5040).unwrap(), 0xfeed_cafe);

    let err = cpu.execute_arm(0xe191_ff9f, 0, &mut mem).unwrap_err(); // ldrex pc, [r1]
    assert!(matches!(
        err,
        Trap::Unpredictable("exclusive load with PC register")
    ));
    let err = cpu.execute_arm(0xe19f_0f9f, 0, &mut mem).unwrap_err(); // ldrex r0, [pc]
    assert!(matches!(
        err,
        Trap::Unpredictable("exclusive load with PC register")
    ));
    let err = cpu.execute_arm(0xe1b6_ef9f, 0, &mut mem).unwrap_err(); // ldrexd lr, [r6]
    assert!(matches!(
        err,
        Trap::Unpredictable("LDREXD with invalid register pair")
    ));
    let err = cpu.execute_arm(0xe184_4f93, 0, &mut mem).unwrap_err(); // strex r4, r3, [r4]
    assert!(matches!(
        err,
        Trap::Unpredictable("exclusive store status register overlaps operand")
    ));
    let err = cpu.execute_arm(0xe184_2f9f, 0, &mut mem).unwrap_err(); // strex r2, pc, [r4]
    assert!(matches!(
        err,
        Trap::Unpredictable("exclusive store with PC register")
    ));
    let err = cpu.execute_arm(0xe1a7_6f99, 0, &mut mem).unwrap_err(); // strexd r6, r9, [r7]
    assert!(matches!(
        err,
        Trap::Unpredictable("STREXD with invalid register pair")
    ));
    let err = cpu.execute_arm(0xe1a7_9f98, 0, &mut mem).unwrap_err(); // strexd r9, r8, [r7]
    assert!(matches!(
        err,
        Trap::Unpredictable("exclusive store status register overlaps operand")
    ));
}

#[test]
fn armv6_pack_select_and_parallel_media_function() {
    let mut cpu = Cpu::new();
    let mut mem = VecMemory::new(0, 4);

    cpu.set_reg(1, 0xaaaa_5555);
    cpu.set_reg(2, 0x1122_3344);
    cpu.execute_arm(0xe681_0012, 0, &mut mem).unwrap(); // pkhbt r0, r1, r2
    assert_eq!(cpu.reg(0), 0x1122_5555);

    cpu.set_reg(4, 0xaaaa_5555);
    cpu.set_reg(5, 0x8123_4567);
    cpu.execute_arm(0xe684_3455, 0, &mut mem).unwrap(); // pkhtb r3, r4, r5, asr #8
    assert_eq!(cpu.reg(3), 0xaaaa_2345);

    cpu.cpsr.ge = 0b1010;
    cpu.set_reg(1, 0x1111_1111);
    cpu.set_reg(2, 0x2222_2222);
    cpu.execute_arm(0xe681_0fb2, 0, &mut mem).unwrap(); // sel r0, r1, r2
    assert_eq!(cpu.reg(0), 0x1122_1122);

    cpu.set_reg(1, 0x0001_ffff);
    cpu.set_reg(2, 0x0001_0001);
    cpu.execute_arm(0xe611_0f12, 0, &mut mem).unwrap(); // sadd16 r0, r1, r2
    assert_eq!(cpu.reg(0), 0x0002_0000);
    assert_eq!(cpu.cpsr.ge, 0b1111);

    cpu.set_reg(1, 0x0000_7f80);
    cpu.set_reg(2, 0x0000_0201);
    cpu.execute_arm(0xe621_0f92, 0, &mut mem).unwrap(); // qadd8 r0, r1, r2
    assert_eq!(cpu.reg(0), 0x0000_7f81);

    cpu.set_reg(1, 0x10f0_ffff);
    cpu.set_reg(2, 0xf020_0102);
    cpu.execute_arm(0xe661_0f92, 0, &mut mem).unwrap(); // uqadd8 r0, r1, r2
    assert_eq!(cpu.reg(0), 0xffff_ffff);

    cpu.set_reg(1, 0x0004_0008);
    cpu.set_reg(2, 0x0002_0002);
    cpu.execute_arm(0xe671_0f12, 0, &mut mem).unwrap(); // uhadd16 r0, r1, r2
    assert_eq!(cpu.reg(0), 0x0003_0005);

    let err = cpu.execute_arm(0xe68f_0012, 0, &mut mem).unwrap_err(); // pkhbt r0, pc, r2
    assert!(matches!(
        err,
        Trap::Unpredictable("packing with PC register")
    ));
    let err = cpu.execute_arm(0xe68f_0fb2, 0, &mut mem).unwrap_err(); // sel r0, pc, r2
    assert!(matches!(err, Trap::Unpredictable("SEL with PC register")));
    let err = cpu.execute_arm(0xe611_0f1f, 0, &mut mem).unwrap_err(); // sadd16 r0, r1, pc
    assert!(matches!(
        err,
        Trap::Unpredictable("parallel media with PC register")
    ));
}

#[test]
fn armv5te_signed_halfword_multiply_function() {
    let mut cpu = Cpu::new();
    let mut mem = VecMemory::new(0, 4);

    cpu.set_reg(1, 3);
    cpu.set_reg(2, 4);
    cpu.set_reg(3, 5);
    cpu.execute_arm(0xe100_3281, 0, &mut mem).unwrap(); // smlabb r0, r1, r2, r3
    assert_eq!(cpu.reg(0), 17);

    cpu.set_reg(1, 0xfffe_0000);
    cpu.set_reg(2, 0x0007_0000);
    cpu.set_reg(3, 1);
    cpu.execute_arm(0xe100_32e1, 0, &mut mem).unwrap(); // smlatt r0, r1, r2, r3
    assert_eq!(cpu.reg(0), (-13i32) as u32);

    cpu.set_reg(5, 3);
    cpu.set_reg(6, 0xfffc_0000);
    cpu.execute_arm(0xe164_06c5, 0, &mut mem).unwrap(); // smulbt r4, r5, r6
    assert_eq!(cpu.reg(4), (-12i32) as u32);

    cpu.set_reg(1, 0x0002_0000);
    cpu.set_reg(2, 0x0000_4000);
    cpu.set_reg(3, 2);
    cpu.execute_arm(0xe120_3281, 0, &mut mem).unwrap(); // smlawb r0, r1, r2, r3
    assert_eq!(cpu.reg(0), 32770);

    cpu.set_reg(5, 0x0003_0000);
    cpu.set_reg(6, 0x4000_0000);
    cpu.execute_arm(0xe124_06e5, 0, &mut mem).unwrap(); // smulwt r4, r5, r6
    assert_eq!(cpu.reg(4), 49152);

    cpu.set_reg(0, 10);
    cpu.set_reg(1, 0);
    cpu.set_reg(2, 2);
    cpu.set_reg(3, 3);
    cpu.execute_arm(0xe141_0382, 0, &mut mem).unwrap(); // smlalbb r0, r1, r2, r3
    assert_eq!(cpu.reg(0), 16);
    assert_eq!(cpu.reg(1), 0);

    let err = cpu.execute_arm(0xe00f_0291, 0, &mut mem).unwrap_err(); // mul pc, r1, r2
    assert!(matches!(
        err,
        Trap::Unpredictable("multiply with PC register")
    ));
    let err = cpu.execute_arm(0xe020_f291, 0, &mut mem).unwrap_err(); // mla r0, r1, r2, pc
    assert!(matches!(
        err,
        Trap::Unpredictable("multiply with PC register")
    ));
    let err = cpu.execute_arm(0xe081_039f, 0, &mut mem).unwrap_err(); // umull r0, r1, pc, r3
    assert!(matches!(
        err,
        Trap::Unpredictable("multiply with PC register")
    ));
    let err = cpu.execute_arm(0xe10f_3281, 0, &mut mem).unwrap_err(); // smlabb pc, r1, r2, r3
    assert!(matches!(
        err,
        Trap::Unpredictable("multiply with PC register")
    ));
    let err = cpu.execute_arm(0xe141_f382, 0, &mut mem).unwrap_err(); // smlalbb pc, r1, r2, r3
    assert!(matches!(
        err,
        Trap::Unpredictable("multiply with PC register")
    ));
}

#[test]
fn armv6_unsigned_sum_absolute_differences_function() {
    let mut cpu = Cpu::new();
    let mut mem = VecMemory::new(0, 4);

    cpu.set_reg(1, 0x10_20_30_40);
    cpu.set_reg(2, 0x18_10_28_50);
    cpu.execute_arm(0xe780_f211, 0, &mut mem).unwrap(); // usad8 r0, r1, r2
    assert_eq!(cpu.reg(0), 8 + 16 + 8 + 16);

    cpu.set_reg(3, 5);
    cpu.execute_arm(0xe780_3211, 0, &mut mem).unwrap(); // usada8 r0, r1, r2, r3
    assert_eq!(cpu.reg(0), 5 + 8 + 16 + 8 + 16);
}

#[test]
fn armv6_dsp_multiply_function() {
    let mut cpu = Cpu::new();
    let mut mem = VecMemory::new(0, 4);

    cpu.set_reg(1, 0x0002_0003);
    cpu.set_reg(2, 0x0005_0007);
    cpu.set_reg(3, 10);
    cpu.execute_arm(0xe700_3211, 0, &mut mem).unwrap(); // smlad r0, r1, r2, r3
    assert_eq!(cpu.reg(0), 41);

    cpu.set_reg(5, 0x0002_0003);
    cpu.set_reg(6, 0x0005_0007);
    cpu.set_reg(7, 1);
    cpu.execute_arm(0xe704_7635, 0, &mut mem).unwrap(); // smladx r4, r5, r6, r7
    assert_eq!(cpu.reg(4), 30);

    cpu.set_reg(1, 0x0002_0003);
    cpu.set_reg(2, 0x0005_0007);
    cpu.set_reg(3, 10);
    cpu.execute_arm(0xe700_3251, 0, &mut mem).unwrap(); // smlsd r0, r1, r2, r3
    assert_eq!(cpu.reg(0), 21);

    cpu.execute_arm(0xe700_f211, 0, &mut mem).unwrap(); // smuad r0, r1, r2
    assert_eq!(cpu.reg(0), 31);
    cpu.set_reg(7, 0x0002_0003);
    cpu.set_reg(8, 0x0005_0007);
    cpu.execute_arm(0xe706_f857, 0, &mut mem).unwrap(); // smusd r6, r7, r8
    assert_eq!(cpu.reg(6), 11);

    cpu.set_reg(0, 1);
    cpu.set_reg(1, 0);
    cpu.set_reg(2, 0x0002_0003);
    cpu.set_reg(3, 0x0005_0007);
    cpu.execute_arm(0xe741_0312, 0, &mut mem).unwrap(); // smlald r0, r1, r2, r3
    assert_eq!(cpu.reg(0), 32);
    assert_eq!(cpu.reg(1), 0);

    cpu.set_reg(0, 1);
    cpu.set_reg(1, 0);
    cpu.execute_arm(0xe741_0352, 0, &mut mem).unwrap(); // smlsld r0, r1, r2, r3
    assert_eq!(cpu.reg(0), 12);
    assert_eq!(cpu.reg(1), 0);

    cpu.set_reg(1, 0x4000_0000);
    cpu.set_reg(2, 4);
    cpu.execute_arm(0xe750_f211, 0, &mut mem).unwrap(); // smmul r0, r1, r2
    assert_eq!(cpu.reg(0), 1);

    cpu.set_reg(4, 0x4000_0000);
    cpu.set_reg(5, 2);
    cpu.execute_arm(0xe753_f534, 0, &mut mem).unwrap(); // smmulr r3, r4, r5
    assert_eq!(cpu.reg(3), 1);

    cpu.set_reg(7, 0x4000_0000);
    cpu.set_reg(8, 4);
    cpu.set_reg(9, 5);
    cpu.execute_arm(0xe756_9817, 0, &mut mem).unwrap(); // smmla r6, r7, r8, r9
    assert_eq!(cpu.reg(6), 6);

    cpu.set_reg(2, 0x4000_0000);
    cpu.set_reg(3, 4);
    cpu.set_reg(4, 5);
    cpu.execute_arm(0xe751_43d2, 0, &mut mem).unwrap(); // smmls r1, r2, r3, r4
    assert_eq!(cpu.reg(1), 4);

    cpu.set_reg(0, 5);
    cpu.set_reg(1, 6);
    cpu.set_reg(2, 3);
    cpu.set_reg(3, 4);
    cpu.execute_arm(0xe041_0392, 0, &mut mem).unwrap(); // umaal r0, r1, r2, r3
    assert_eq!(cpu.reg(0), 23);
    assert_eq!(cpu.reg(1), 0);

    let err = cpu.execute_arm(0xe70f_3211, 0, &mut mem).unwrap_err(); // smlad pc, r1, r2, r3
    assert!(matches!(
        err,
        Trap::Unpredictable("multiply with PC register")
    ));
    let err = cpu.execute_arm(0xe74f_0312, 0, &mut mem).unwrap_err(); // smlald r0, pc, r2, r3
    assert!(matches!(
        err,
        Trap::Unpredictable("multiply with PC register")
    ));
    let err = cpu.execute_arm(0xe751_f3d2, 0, &mut mem).unwrap_err(); // smmls r1, r2, r3, pc
    assert!(matches!(
        err,
        Trap::Unpredictable("multiply with PC register")
    ));
    let err = cpu.execute_arm(0xe041_039f, 0, &mut mem).unwrap_err(); // umaal r0, r1, pc, r3
    assert!(matches!(
        err,
        Trap::Unpredictable("multiply with PC register")
    ));
}

#[test]
fn vfpv2_single_register_moves_and_arithmetic_function() {
    let mut cpu = Cpu::new();
    let mut mem = VecMemory::new(0, 0x200);

    cpu.set_reg(0, 1.5f32.to_bits());
    cpu.execute_arm(0xee00_0a10, 0, &mut mem).unwrap(); // vmov s0, r0
    assert_eq!(f32::from_bits(cpu.sreg(0)), 1.5);

    cpu.set_reg(2, 2.25f32.to_bits());
    cpu.execute_arm(0xee00_2a90, 0, &mut mem).unwrap(); // vmov s1, r2
    assert_eq!(f32::from_bits(cpu.sreg(1)), 2.25);

    cpu.execute_arm(0xee30_1a20, 0, &mut mem).unwrap(); // vadd.f32 s2, s0, s1
    assert_eq!(f32::from_bits(cpu.sreg(2)), 3.75);

    cpu.execute_arm(0xee71_1a60, 0, &mut mem).unwrap(); // vsub.f32 s3, s2, s1
    assert_eq!(f32::from_bits(cpu.sreg(3)), 1.5);

    cpu.execute_arm(0xee21_2a21, 0, &mut mem).unwrap(); // vmul.f32 s4, s2, s3
    assert_eq!(f32::from_bits(cpu.sreg(4)), 5.625);

    cpu.execute_arm(0xeec2_2a00, 0, &mut mem).unwrap(); // vdiv.f32 s5, s4, s0
    assert_eq!(f32::from_bits(cpu.sreg(5)), 3.75);

    cpu.execute_arm(0xeeb1_3a62, 0, &mut mem).unwrap(); // vneg.f32 s6, s5
    assert_eq!(f32::from_bits(cpu.sreg(6)), -3.75);

    cpu.execute_arm(0xeef0_3ac3, 0, &mut mem).unwrap(); // vabs.f32 s7, s6
    assert_eq!(f32::from_bits(cpu.sreg(7)), 3.75);

    cpu.set_sreg(0, 10.0f32.to_bits());
    cpu.set_sreg(1, 2.0f32.to_bits());
    cpu.set_sreg(2, 3.0f32.to_bits());
    cpu.execute_arm(0xee00_0a81, 0, &mut mem).unwrap(); // vmla.f32 s0, s1, s2
    assert_eq!(f32::from_bits(cpu.sreg(0)), 16.0);

    cpu.set_sreg(3, 20.0f32.to_bits());
    cpu.set_sreg(4, 4.0f32.to_bits());
    cpu.set_sreg(5, 1.5f32.to_bits());
    cpu.execute_arm(0xee42_1a62, 0, &mut mem).unwrap(); // vmls.f32 s3, s4, s5
    assert_eq!(f32::from_bits(cpu.sreg(3)), 14.0);

    cpu.set_sreg(6, 2.0f32.to_bits());
    cpu.set_sreg(7, 3.0f32.to_bits());
    cpu.set_sreg(8, 4.0f32.to_bits());
    cpu.execute_arm(0xee13_3ac4, 0, &mut mem).unwrap(); // vnmla.f32 s6, s7, s8
    assert_eq!(f32::from_bits(cpu.sreg(6)), -14.0);

    cpu.set_sreg(9, 20.0f32.to_bits());
    cpu.set_sreg(10, 3.0f32.to_bits());
    cpu.set_sreg(11, 4.0f32.to_bits());
    cpu.execute_arm(0xee55_4a25, 0, &mut mem).unwrap(); // vnmls.f32 s9, s10, s11
    assert_eq!(f32::from_bits(cpu.sreg(9)), -8.0);

    cpu.set_sreg(13, 2.0f32.to_bits());
    cpu.set_sreg(14, 5.0f32.to_bits());
    cpu.execute_arm(0xee26_6ac7, 0, &mut mem).unwrap(); // vnmul.f32 s12, s13, s14
    assert_eq!(f32::from_bits(cpu.sreg(12)), -10.0);

    cpu.set_sreg(16, 9.0f32.to_bits());
    cpu.execute_arm(0xeef1_7ac8, 0, &mut mem).unwrap(); // vsqrt.f32 s15, s16
    assert_eq!(f32::from_bits(cpu.sreg(15)), 3.0);

    cpu.set_sreg(18, 6.25f32.to_bits());
    cpu.execute_arm(0xeef0_8a49, 0, &mut mem).unwrap(); // vmov.f32 s17, s18
    assert_eq!(f32::from_bits(cpu.sreg(17)), 6.25);

    cpu.set_sreg(19, 0.0f32.to_bits());
    cpu.execute_arm(0xeef5_9a40, 0, &mut mem).unwrap(); // vcmp.f32 s19, #0.0
    cpu.execute_arm(0xeef1_fa10, 0, &mut mem).unwrap(); // vmrs APSR_nzcv, fpscr
    assert!(!cpu.cpsr.n);
    assert!(cpu.cpsr.z);
    assert!(cpu.cpsr.c);
    assert!(!cpu.cpsr.v);

    cpu.set_sreg(4, 0x1111_2222);
    cpu.set_sreg(5, 0x3333_4444);
    cpu.execute_arm(0xec51_0a12, 0, &mut mem).unwrap(); // vmov r0, r1, s4, s5
    assert_eq!(cpu.reg(0), 0x1111_2222);
    assert_eq!(cpu.reg(1), 0x3333_4444);

    cpu.set_reg(2, 0x5555_6666);
    cpu.set_reg(3, 0x7777_8888);
    cpu.execute_arm(0xec43_2a13, 0, &mut mem).unwrap(); // vmov s6, s7, r2, r3
    assert_eq!(cpu.sreg(6), 0x5555_6666);
    assert_eq!(cpu.sreg(7), 0x7777_8888);

    cpu.set_reg(0, 0x100);
    mem.store32(0x100, 6.5f32.to_bits()).unwrap();
    cpu.execute_arm(0xed90_0a00, 0, &mut mem).unwrap(); // vldr s0, [r0]
    assert_eq!(f32::from_bits(cpu.sreg(0)), 6.5);

    cpu.set_sreg(1, 7.25f32.to_bits());
    cpu.execute_arm(0xedc0_0a01, 0, &mut mem).unwrap(); // vstr s1, [r0, #4]
    assert_eq!(f32::from_bits(mem.load32(0x104).unwrap()), 7.25);

    cpu.execute_arm(0xeeb4_0a60, 0, &mut mem).unwrap(); // vcmp.f32 s0, s1
    cpu.execute_arm(0xeef1_fa10, 0, &mut mem).unwrap(); // vmrs APSR_nzcv, fpscr
    assert!(cpu.cpsr.n);
    assert!(!cpu.cpsr.z);
    assert!(!cpu.cpsr.c);
    assert!(!cpu.cpsr.v);

    cpu.set_reg(2, 0xf000_0000);
    cpu.execute_arm(0xeee1_2a10, 0, &mut mem).unwrap(); // vmsr fpscr, r2
    cpu.execute_arm(0xeef1_1a10, 0, &mut mem).unwrap(); // vmrs r1, fpscr
    assert_eq!(cpu.reg(1), 0xf000_0000);

    cpu.execute_arm(0xeef0_0a10, 0, &mut mem).unwrap(); // vmrs r0, fpsid
    assert_eq!(cpu.reg(0), VFP_FPSID_ARM1136);
    cpu.set_reg(2, 0xffff_ffff);
    cpu.execute_arm(0xeee0_2a10, 0, &mut mem).unwrap(); // vmsr fpsid, r2
    cpu.execute_arm(0xeef0_0a10, 0, &mut mem).unwrap(); // vmrs r0, fpsid
    assert_eq!(cpu.reg(0), VFP_FPSID_ARM1136);

    let err = cpu.execute_arm(0xee00_fa10, 0x20, &mut mem).unwrap_err(); // vmov s0, pc
    assert!(matches!(err, Trap::Unpredictable("VFP VMOV from PC")));
    let err = cpu.execute_arm(0xee10_fa10, 0x24, &mut mem).unwrap_err(); // vmov pc, s0
    assert!(matches!(err, Trap::Unpredictable("VFP VMOV to PC")));
    let err = cpu.execute_arm(0xeee1_fa10, 0x28, &mut mem).unwrap_err(); // vmsr fpscr, pc
    assert!(matches!(err, Trap::Unpredictable("VFP VMSR from PC")));
    let err = cpu.execute_arm(0xeef0_fa10, 0x2c, &mut mem).unwrap_err(); // vmrs pc, fpsid
    assert!(matches!(
        err,
        Trap::Unpredictable("VFP VMRS non-FPSCR to PC")
    ));
    let err = cpu.execute_arm(0xeef8_0a10, 0x30, &mut mem).unwrap_err(); // vmrs r0, fpexc
    assert!(matches!(
        err,
        Trap::Privileged {
            operation: "VMRS FPEXC",
            ..
        }
    ));

    cpu.set_sreg(2, 3.75f32.to_bits());
    cpu.execute_arm(0xeefd_1ac1, 0, &mut mem).unwrap(); // vcvt.s32.f32 s3, s2
    assert_eq!(cpu.sreg(3), 3);

    cpu.set_reg(2, 0);
    cpu.execute_arm(0xeee1_2a10, 0, &mut mem).unwrap(); // vmsr fpscr, r2
    cpu.set_sreg(2, 2.5f32.to_bits());
    cpu.execute_arm(0xeefd_1a41, 0, &mut mem).unwrap(); // vcvtr.s32.f32 s3, s2
    assert_eq!(cpu.sreg(3), 2);

    cpu.set_sreg(2, 3.5f32.to_bits());
    cpu.execute_arm(0xeefd_1a41, 0, &mut mem).unwrap(); // vcvtr.s32.f32 s3, s2
    assert_eq!(cpu.sreg(3), 4);

    cpu.set_reg(2, 1 << 22);
    cpu.execute_arm(0xeee1_2a10, 0, &mut mem).unwrap(); // vmsr fpscr, r2
    cpu.set_sreg(2, 2.25f32.to_bits());
    cpu.execute_arm(0xeebc_2a41, 0, &mut mem).unwrap(); // vcvtr.u32.f32 s4, s2
    assert_eq!(cpu.sreg(4), 3);

    cpu.set_reg(2, 2 << 22);
    cpu.execute_arm(0xeee1_2a10, 0, &mut mem).unwrap(); // vmsr fpscr, r2
    cpu.set_sreg(2, (-2.25f32).to_bits());
    cpu.execute_arm(0xeefd_1a41, 0, &mut mem).unwrap(); // vcvtr.s32.f32 s3, s2
    assert_eq!(cpu.sreg(3) as i32, -3);

    cpu.execute_arm(0xeef8_2ae1, 0, &mut mem).unwrap(); // vcvt.f32.s32 s5, s3
    assert_eq!(f32::from_bits(cpu.sreg(5)), -3.0);

    cpu.set_sreg(2, 3.75f32.to_bits());
    cpu.execute_arm(0xeebc_2ac1, 0, &mut mem).unwrap(); // vcvt.u32.f32 s4, s2
    assert_eq!(cpu.sreg(4), 3);

    cpu.execute_arm(0xeeb8_3a42, 0, &mut mem).unwrap(); // vcvt.f32.u32 s6, s4
    assert_eq!(f32::from_bits(cpu.sreg(6)), 3.0);

    cpu.execute_arm(0xee10_1a10, 0, &mut mem).unwrap(); // vmov r1, s0
    assert_eq!(cpu.reg(1), 6.5f32.to_bits());
}

#[test]
fn vfpv2_short_vector_arithmetic_and_unary() {
    let mut cpu = Cpu::new();
    let mut mem = VecMemory::new(0, 0x100);

    cpu.fpscr = 1 << 16; // LEN=2, stride=1.
    cpu.set_sreg(16, 1.0f32.to_bits());
    cpu.set_sreg(17, 2.0f32.to_bits());
    cpu.set_sreg(24, 10.0f32.to_bits());
    cpu.set_sreg(25, 20.0f32.to_bits());
    cpu.execute_arm(0xee38_4a0c, 0, &mut mem).unwrap(); // vadd.f32 s8, s16, s24
    assert_eq!(f32::from_bits(cpu.sreg(8)), 11.0);
    assert_eq!(f32::from_bits(cpu.sreg(9)), 22.0);

    cpu.set_sreg(0, (-3.5f32).to_bits());
    cpu.execute_arm(0xeeb0_5ac0, 0, &mut mem).unwrap(); // vabs.f32 s10, s0
    assert_eq!(f32::from_bits(cpu.sreg(10)), 3.5);
    assert_eq!(f32::from_bits(cpu.sreg(11)), 3.5);

    cpu.fpscr = (1 << 16) | (3 << 20); // LEN=2, stride=2.
    cpu.set_sreg(16, 1.0f32.to_bits());
    cpu.set_sreg(18, 3.0f32.to_bits());
    cpu.set_sreg(24, 10.0f32.to_bits());
    cpu.set_sreg(26, 30.0f32.to_bits());
    cpu.execute_arm(0xee38_4a0c, 0, &mut mem).unwrap(); // vadd.f32 s8, s16, s24
    assert_eq!(f32::from_bits(cpu.sreg(8)), 11.0);
    assert_eq!(f32::from_bits(cpu.sreg(10)), 33.0);

    cpu.fpscr = 1 << 16; // LEN=2, stride=1.
    cpu.set_dreg(8, 1.5f64.to_bits());
    cpu.set_dreg(9, 2.5f64.to_bits());
    cpu.set_dreg(12, 10.0f64.to_bits());
    cpu.set_dreg(13, 20.0f64.to_bits());
    cpu.execute_arm(0xee38_4b0c, 0, &mut mem).unwrap(); // vadd.f64 d4, d8, d12
    assert_eq!(f64::from_bits(cpu.dreg(4)), 11.5);
    assert_eq!(f64::from_bits(cpu.dreg(5)), 22.5);

    cpu.fpscr = 3 << 20;
    let err = cpu.execute_arm(0xee38_4a0c, 0, &mut mem).unwrap_err(); // vadd.f32 s8, s16, s24
    assert_eq!(err, Trap::Unpredictable("invalid VFP vector stride"));

    cpu.fpscr = (4 << 16) | (3 << 20);
    let err = cpu.execute_arm(0xee38_4a0c, 0, &mut mem).unwrap_err(); // vadd.f32 s8, s16, s24
    assert_eq!(err, Trap::Unpredictable("invalid VFP vector length/stride"));
}

#[test]
fn vfpv2_compare_and_conversion_remain_scalar_in_vector_mode() {
    let mut cpu = Cpu::new();
    let mut mem = VecMemory::new(0, 0x100);

    cpu.fpscr = 1 << 16; // LEN=2, stride=1.
    cpu.set_sreg(8, 1.0f32.to_bits());
    cpu.set_sreg(9, 2.0f32.to_bits());
    cpu.execute_arm(0xeeb4_4a64, 0, &mut mem).unwrap(); // vcmp.f32 s8, s9
    cpu.execute_arm(0xeef1_fa10, 0, &mut mem).unwrap(); // vmrs APSR_nzcv, fpscr
    assert!(cpu.cpsr.n);
    assert!(!cpu.cpsr.z);
    assert!(!cpu.cpsr.c);
    assert!(!cpu.cpsr.v);

    cpu.set_sreg(10, 0xaaaa_aaaa);
    cpu.set_sreg(11, 0xbbbb_bbbb);
    cpu.set_sreg(16, 3.5f32.to_bits());
    cpu.set_sreg(17, 9.5f32.to_bits());
    cpu.execute_arm(0xeebd_5ac8, 0, &mut mem).unwrap(); // vcvt.s32.f32 s10, s16
    assert_eq!(cpu.sreg(10), 3);
    assert_eq!(cpu.sreg(11), 0xbbbb_bbbb);

    cpu.fpscr = (1 << 16) | (1 << 22); // LEN=2, round toward plus infinity.
    cpu.set_sreg(12, 0xcccc_cccc);
    cpu.set_sreg(13, 0xdddd_dddd);
    cpu.set_sreg(18, 2.25f32.to_bits());
    cpu.set_sreg(19, 7.25f32.to_bits());
    cpu.execute_arm(0xeebc_6a49, 0, &mut mem).unwrap(); // vcvtr.u32.f32 s12, s18
    assert_eq!(cpu.sreg(12), 3);
    assert_eq!(cpu.sreg(13), 0xdddd_dddd);

    cpu.set_sreg(14, 0xeeee_eeee);
    cpu.set_sreg(15, 0xffff_ffff);
    cpu.set_dreg(8, 2.5f64.to_bits());
    cpu.set_dreg(9, 7.5f64.to_bits());
    cpu.execute_arm(0xeeb7_7bc8, 0, &mut mem).unwrap(); // vcvt.f32.f64 s14, d8
    assert_eq!(f32::from_bits(cpu.sreg(14)), 2.5);
    assert_eq!(cpu.sreg(15), 0xffff_ffff);
}

#[test]
fn vfpv2_basic_exception_flags_are_cumulative() {
    let mut cpu = Cpu::new();
    let mut mem = VecMemory::new(0, 0x100);

    cpu.set_sreg(0, 1.0f32.to_bits());
    cpu.set_sreg(1, 0.0f32.to_bits());
    cpu.execute_arm(0xee80_1a20, 0, &mut mem).unwrap(); // vdiv.f32 s2, s0, s1
    assert_eq!(cpu.fpscr & (FPSCR_IOC | FPSCR_DZC), FPSCR_DZC);

    cpu.set_sreg(6, (-1.0f32).to_bits());
    cpu.execute_arm(0xeeb1_2ac3, 0, &mut mem).unwrap(); // vsqrt.f32 s4, s6
    assert_eq!(cpu.fpscr & (FPSCR_IOC | FPSCR_DZC), FPSCR_IOC | FPSCR_DZC);

    cpu.fpscr = 0;
    cpu.set_sreg(0, 0.0f32.to_bits());
    cpu.set_sreg(1, 0.0f32.to_bits());
    cpu.execute_arm(0xee80_1a20, 0, &mut mem).unwrap(); // vdiv.f32 s2, s0, s1
    assert_eq!(cpu.fpscr & (FPSCR_IOC | FPSCR_DZC), FPSCR_IOC);

    cpu.fpscr = 0;
    cpu.set_dreg(0, 1.0f64.to_bits());
    cpu.set_dreg(1, 0.0f64.to_bits());
    cpu.execute_arm(0xee80_2b01, 0, &mut mem).unwrap(); // vdiv.f64 d2, d0, d1
    assert_eq!(cpu.fpscr & (FPSCR_IOC | FPSCR_DZC), FPSCR_DZC);

    cpu.set_dreg(6, (-1.0f64).to_bits());
    cpu.execute_arm(0xeeb1_4bc6, 0, &mut mem).unwrap(); // vsqrt.f64 d4, d6
    assert_eq!(cpu.fpscr & (FPSCR_IOC | FPSCR_DZC), FPSCR_IOC | FPSCR_DZC);

    cpu.fpscr = 0;
    cpu.set_dreg(0, 0.0f64.to_bits());
    cpu.set_dreg(1, 0.0f64.to_bits());
    cpu.execute_arm(0xee80_2b01, 0, &mut mem).unwrap(); // vdiv.f64 d2, d0, d1
    assert_eq!(cpu.fpscr & (FPSCR_IOC | FPSCR_DZC), FPSCR_IOC);
}

#[test]
fn vfpv2_single_arithmetic_exception_flags() {
    let mut cpu = Cpu::new();
    let mut mem = VecMemory::new(0, 0x100);
    let mask = FPSCR_IOC | FPSCR_DZC | FPSCR_OFC | FPSCR_UFC | FPSCR_IXC;

    cpu.set_sreg(0, 1.0f32.to_bits());
    cpu.set_sreg(1, (2.0f32).powi(-25).to_bits());
    cpu.execute_arm(0xee30_1a20, 0, &mut mem).unwrap(); // vadd.f32 s2, s0, s1
    assert_eq!(f32::from_bits(cpu.sreg(2)), 1.0);
    assert_eq!(cpu.fpscr & mask, FPSCR_IXC);

    cpu.fpscr = 0;
    cpu.set_sreg(0, f32::MAX.to_bits());
    cpu.set_sreg(1, 2.0f32.to_bits());
    cpu.execute_arm(0xee20_1a20, 0, &mut mem).unwrap(); // vmul.f32 s2, s0, s1
    assert_eq!(f32::from_bits(cpu.sreg(2)), f32::INFINITY);
    assert_eq!(cpu.fpscr & mask, FPSCR_OFC | FPSCR_IXC);

    cpu.fpscr = 0;
    cpu.set_sreg(0, f32::MIN_POSITIVE.to_bits());
    cpu.set_sreg(1, 0.5f32.to_bits());
    cpu.execute_arm(0xee20_1a20, 0, &mut mem).unwrap(); // vmul.f32 s2, s0, s1
    assert_eq!(cpu.sreg(2), 0x0040_0000);
    assert_eq!(cpu.fpscr & mask, 0);

    cpu.fpscr = 0;
    cpu.set_sreg(0, 1);
    cpu.set_sreg(1, 0.5f32.to_bits());
    cpu.execute_arm(0xee20_1a20, 0, &mut mem).unwrap(); // vmul.f32 s2, s0, s1
    assert_eq!(cpu.sreg(2), 0);
    assert_eq!(cpu.fpscr & mask, FPSCR_UFC | FPSCR_IXC);

    cpu.fpscr = 0;
    cpu.set_sreg(0, 1.0f32.to_bits());
    cpu.set_sreg(1, 3.0f32.to_bits());
    cpu.execute_arm(0xee80_1a20, 0, &mut mem).unwrap(); // vdiv.f32 s2, s0, s1
    assert_eq!(cpu.fpscr & mask, FPSCR_IXC);

    cpu.fpscr = 0;
    cpu.set_sreg(16, 2.0f32.to_bits());
    cpu.execute_arm(0xeef1_7ac8, 0, &mut mem).unwrap(); // vsqrt.f32 s15, s16
    assert_eq!(f32::from_bits(cpu.sreg(15)), 2.0f32.sqrt());
    assert_eq!(cpu.fpscr & mask, FPSCR_IXC);

    cpu.fpscr = 0;
    cpu.set_sreg(0, f32::INFINITY.to_bits());
    cpu.set_sreg(1, f32::NEG_INFINITY.to_bits());
    cpu.execute_arm(0xee30_1a20, 0, &mut mem).unwrap(); // vadd.f32 s2, s0, s1
    assert_eq!(cpu.fpscr & mask, FPSCR_IOC);

    cpu.fpscr = 0;
    cpu.set_sreg(0, 1.0f32.to_bits());
    cpu.set_sreg(1, 1.0f32.to_bits());
    cpu.set_sreg(2, (2.0f32).powi(-25).to_bits());
    cpu.execute_arm(0xee00_0a81, 0, &mut mem).unwrap(); // vmla.f32 s0, s1, s2
    assert_eq!(f32::from_bits(cpu.sreg(0)), 1.0);
    assert_eq!(cpu.fpscr & mask, FPSCR_IXC);
}

#[test]
fn vfpv2_double_invalid_arithmetic_exception_flags() {
    let mut cpu = Cpu::new();
    let mut mem = VecMemory::new(0, 0x100);
    let mask = FPSCR_IOC | FPSCR_DZC;

    cpu.set_dreg(0, f64::INFINITY.to_bits());
    cpu.set_dreg(1, f64::NEG_INFINITY.to_bits());
    cpu.execute_arm(0xee30_2b01, 0, &mut mem).unwrap(); // vadd.f64 d2, d0, d1
    assert_eq!(cpu.fpscr & mask, FPSCR_IOC);

    cpu.fpscr = 0;
    cpu.set_dreg(0, 0.0f64.to_bits());
    cpu.set_dreg(1, f64::INFINITY.to_bits());
    cpu.execute_arm(0xee20_2b01, 0, &mut mem).unwrap(); // vmul.f64 d2, d0, d1
    assert_eq!(cpu.fpscr & mask, FPSCR_IOC);

    cpu.fpscr = 0;
    cpu.set_dreg(0, f64::INFINITY.to_bits());
    cpu.set_dreg(1, f64::INFINITY.to_bits());
    cpu.execute_arm(0xee80_2b01, 0, &mut mem).unwrap(); // vdiv.f64 d2, d0, d1
    assert_eq!(cpu.fpscr & mask, FPSCR_IOC);

    cpu.fpscr = 0;
    cpu.set_dreg(6, 0x7ff0_0000_0000_0001);
    cpu.execute_arm(0xeeb1_4bc6, 0, &mut mem).unwrap(); // vsqrt.f64 d4, d6
    assert_eq!(cpu.fpscr & mask, FPSCR_IOC);

    cpu.fpscr = 0;
    cpu.set_dreg(6, 1.0f64.to_bits());
    cpu.set_dreg(7, 0.0f64.to_bits());
    cpu.set_dreg(8, f64::INFINITY.to_bits());
    cpu.execute_arm(0xee07_6b08, 0, &mut mem).unwrap(); // vmla.f64 d6, d7, d8
    assert_eq!(cpu.fpscr & mask, FPSCR_IOC);
}

#[test]
fn vfpv2_double_overflow_exception_flags() {
    let mut cpu = Cpu::new();
    let mut mem = VecMemory::new(0, 0x100);
    let mask = FPSCR_IOC | FPSCR_DZC | FPSCR_OFC | FPSCR_UFC | FPSCR_IXC;

    cpu.set_dreg(0, f64::MAX.to_bits());
    cpu.set_dreg(1, f64::MAX.to_bits());
    cpu.execute_arm(0xee30_2b01, 0, &mut mem).unwrap(); // vadd.f64 d2, d0, d1
    assert_eq!(f64::from_bits(cpu.dreg(2)), f64::INFINITY);
    assert_eq!(cpu.fpscr & mask, FPSCR_OFC | FPSCR_IXC);

    cpu.fpscr = 0;
    cpu.set_dreg(0, f64::MAX.to_bits());
    cpu.set_dreg(1, 2.0f64.to_bits());
    cpu.execute_arm(0xee20_2b01, 0, &mut mem).unwrap(); // vmul.f64 d2, d0, d1
    assert_eq!(f64::from_bits(cpu.dreg(2)), f64::INFINITY);
    assert_eq!(cpu.fpscr & mask, FPSCR_OFC | FPSCR_IXC);

    cpu.fpscr = 0;
    cpu.set_dreg(0, f64::MAX.to_bits());
    cpu.set_dreg(1, f64::MIN_POSITIVE.to_bits());
    cpu.execute_arm(0xee80_2b01, 0, &mut mem).unwrap(); // vdiv.f64 d2, d0, d1
    assert_eq!(f64::from_bits(cpu.dreg(2)), f64::INFINITY);
    assert_eq!(cpu.fpscr & mask, FPSCR_OFC | FPSCR_IXC);

    cpu.fpscr = 0;
    cpu.set_dreg(6, 1.0f64.to_bits());
    cpu.set_dreg(7, f64::MAX.to_bits());
    cpu.set_dreg(8, 2.0f64.to_bits());
    cpu.execute_arm(0xee07_6b08, 0, &mut mem).unwrap(); // vmla.f64 d6, d7, d8
    assert_eq!(f64::from_bits(cpu.dreg(6)), f64::INFINITY);
    assert_eq!(cpu.fpscr & mask, FPSCR_OFC | FPSCR_IXC);
}

#[test]
fn vfpv2_double_absorbed_inexact_exception_flags() {
    let mut cpu = Cpu::new();
    let mut mem = VecMemory::new(0, 0x100);
    let mask = FPSCR_IOC | FPSCR_DZC | FPSCR_OFC | FPSCR_UFC | FPSCR_IXC;

    cpu.set_dreg(0, 1.0f64.to_bits());
    cpu.set_dreg(1, (f64::EPSILON / 2.0).to_bits());
    cpu.execute_arm(0xee30_2b01, 0, &mut mem).unwrap(); // vadd.f64 d2, d0, d1
    assert_eq!(f64::from_bits(cpu.dreg(2)), 1.0);
    assert_eq!(cpu.fpscr & mask, FPSCR_IXC);

    cpu.fpscr = 0;
    cpu.set_dreg(0, 1.0f64.to_bits());
    cpu.set_dreg(1, (f64::EPSILON / 4.0).to_bits());
    cpu.execute_arm(0xee30_2b41, 0, &mut mem).unwrap(); // vsub.f64 d2, d0, d1
    assert_eq!(f64::from_bits(cpu.dreg(2)), 1.0);
    assert_eq!(cpu.fpscr & mask, FPSCR_IXC);
}

#[test]
fn vfpv2_double_multiply_inexact_exception_flags() {
    let mut cpu = Cpu::new();
    let mut mem = VecMemory::new(0, 0x100);
    let mask = FPSCR_IOC | FPSCR_DZC | FPSCR_OFC | FPSCR_UFC | FPSCR_IXC;

    cpu.set_dreg(0, 1.1f64.to_bits());
    cpu.set_dreg(1, 1.1f64.to_bits());
    cpu.execute_arm(0xee20_2b01, 0, &mut mem).unwrap(); // vmul.f64 d2, d0, d1
    assert_eq!(cpu.fpscr & mask, FPSCR_IXC);

    cpu.fpscr = 0;
    cpu.set_dreg(0, f64::MIN_POSITIVE.to_bits());
    cpu.set_dreg(1, 0.1f64.to_bits());
    cpu.execute_arm(0xee20_2b01, 0, &mut mem).unwrap(); // vmul.f64 d2, d0, d1
    assert!(f64::from_bits(cpu.dreg(2)).is_subnormal());
    assert_eq!(cpu.fpscr & mask, FPSCR_UFC | FPSCR_IXC);

    cpu.fpscr = 0;
    cpu.set_dreg(0, f64::MIN_POSITIVE.to_bits());
    cpu.set_dreg(1, 0.5f64.to_bits());
    cpu.execute_arm(0xee20_2b01, 0, &mut mem).unwrap(); // vmul.f64 d2, d0, d1
    assert_eq!(cpu.dreg(2), 0x0008_0000_0000_0000);
    assert_eq!(cpu.fpscr & mask, 0);
}

#[test]
fn vfpv2_double_divide_inexact_exception_flags() {
    let mut cpu = Cpu::new();
    let mut mem = VecMemory::new(0, 0x100);
    let mask = FPSCR_IOC | FPSCR_DZC | FPSCR_OFC | FPSCR_UFC | FPSCR_IXC;

    cpu.set_dreg(0, 1.0f64.to_bits());
    cpu.set_dreg(1, 10.0f64.to_bits());
    cpu.execute_arm(0xee80_2b01, 0, &mut mem).unwrap(); // vdiv.f64 d2, d0, d1
    assert_eq!(cpu.fpscr & mask, FPSCR_IXC);

    cpu.fpscr = 0;
    cpu.set_dreg(0, f64::MIN_POSITIVE.to_bits());
    cpu.set_dreg(1, 10.0f64.to_bits());
    cpu.execute_arm(0xee80_2b01, 0, &mut mem).unwrap(); // vdiv.f64 d2, d0, d1
    assert!(f64::from_bits(cpu.dreg(2)).is_subnormal());
    assert_eq!(cpu.fpscr & mask, FPSCR_UFC | FPSCR_IXC);

    cpu.fpscr = 0;
    cpu.set_dreg(0, f64::MIN_POSITIVE.to_bits());
    cpu.set_dreg(1, 2.0f64.to_bits());
    cpu.execute_arm(0xee80_2b01, 0, &mut mem).unwrap(); // vdiv.f64 d2, d0, d1
    assert_eq!(cpu.dreg(2), 0x0008_0000_0000_0000);
    assert_eq!(cpu.fpscr & mask, 0);
}

#[test]
fn vfpv2_double_zero_underflow_exception_flags() {
    let mut cpu = Cpu::new();
    let mut mem = VecMemory::new(0, 0x100);
    let mask = FPSCR_IOC | FPSCR_DZC | FPSCR_OFC | FPSCR_UFC | FPSCR_IXC;

    cpu.set_dreg(0, 1);
    cpu.set_dreg(1, 0.5f64.to_bits());
    cpu.execute_arm(0xee20_2b01, 0, &mut mem).unwrap(); // vmul.f64 d2, d0, d1
    assert_eq!(cpu.dreg(2), 0);
    assert_eq!(cpu.fpscr & mask, FPSCR_UFC | FPSCR_IXC);

    cpu.fpscr = 0;
    cpu.set_dreg(0, f64::MIN_POSITIVE.to_bits());
    cpu.set_dreg(1, 0.5f64.to_bits());
    cpu.execute_arm(0xee20_2b01, 0, &mut mem).unwrap(); // vmul.f64 d2, d0, d1
    assert_eq!(cpu.dreg(2), 0x0008_0000_0000_0000);
    assert_eq!(cpu.fpscr & mask, 0);

    cpu.fpscr = 0;
    cpu.set_dreg(0, 1);
    cpu.set_dreg(1, 2.0f64.to_bits());
    cpu.execute_arm(0xee80_2b01, 0, &mut mem).unwrap(); // vdiv.f64 d2, d0, d1
    assert_eq!(cpu.dreg(2), 0);
    assert_eq!(cpu.fpscr & mask, FPSCR_UFC | FPSCR_IXC);

    cpu.fpscr = 0;
    cpu.set_dreg(6, 1.0f64.to_bits());
    cpu.set_dreg(7, 1);
    cpu.set_dreg(8, 0.5f64.to_bits());
    cpu.execute_arm(0xee07_6b08, 0, &mut mem).unwrap(); // vmla.f64 d6, d7, d8
    assert_eq!(f64::from_bits(cpu.dreg(6)), 1.0);
    assert_eq!(cpu.fpscr & mask, FPSCR_UFC | FPSCR_IXC);
}

#[test]
fn vfpv2_conversion_invalid_flags_and_saturation() {
    let mut cpu = Cpu::new();
    let mut mem = VecMemory::new(0, 0x100);

    cpu.set_sreg(0, f32::NAN.to_bits());
    cpu.execute_arm(0xeefd_0ac0, 0, &mut mem).unwrap(); // vcvt.s32.f32 s1, s0
    assert_eq!(cpu.sreg(1), 0);
    assert_eq!(cpu.fpscr & FPSCR_IOC, FPSCR_IOC);

    cpu.fpscr = 0;
    cpu.set_sreg(0, (-1.0f32).to_bits());
    cpu.execute_arm(0xeefc_0ac0, 0, &mut mem).unwrap(); // vcvt.u32.f32 s1, s0
    assert_eq!(cpu.sreg(1), 0);
    assert_eq!(cpu.fpscr & FPSCR_IOC, FPSCR_IOC);

    cpu.fpscr = 0;
    cpu.set_sreg(0, 2_147_483_648.0f32.to_bits());
    cpu.execute_arm(0xeefd_0ac0, 0, &mut mem).unwrap(); // vcvt.s32.f32 s1, s0
    assert_eq!(cpu.sreg(1), i32::MAX as u32);
    assert_eq!(cpu.fpscr & FPSCR_IOC, FPSCR_IOC);

    cpu.fpscr = 0;
    cpu.set_dreg(0, f64::NEG_INFINITY.to_bits());
    cpu.execute_arm(0xeefd_0bc0, 0, &mut mem).unwrap(); // vcvt.s32.f64 s1, d0
    assert_eq!(cpu.sreg(1), i32::MIN as u32);
    assert_eq!(cpu.fpscr & FPSCR_IOC, FPSCR_IOC);

    cpu.fpscr = 0;
    cpu.set_dreg(0, f64::NAN.to_bits());
    cpu.execute_arm(0xeefc_0bc0, 0, &mut mem).unwrap(); // vcvt.u32.f64 s1, d0
    assert_eq!(cpu.sreg(1), 0);
    assert_eq!(cpu.fpscr & FPSCR_IOC, FPSCR_IOC);

    cpu.set_reg(2, 2 << 22); // Round toward minus infinity.
    cpu.execute_arm(0xeee1_2a10, 0, &mut mem).unwrap(); // vmsr fpscr, r2
    cpu.set_sreg(0, (-0.25f32).to_bits());
    cpu.execute_arm(0xeefc_0a40, 0, &mut mem).unwrap(); // vcvtr.u32.f32 s1, s0
    assert_eq!(cpu.sreg(1), 0);
    assert_eq!(cpu.fpscr & FPSCR_IOC, FPSCR_IOC);
}

#[test]
fn vfpv2_conversion_inexact_flags_follow_rounding() {
    let mut cpu = Cpu::new();
    let mut mem = VecMemory::new(0, 0x100);

    cpu.set_sreg(0, 3.5f32.to_bits());
    cpu.execute_arm(0xeefd_0ac0, 0, &mut mem).unwrap(); // vcvt.s32.f32 s1, s0
    assert_eq!(cpu.sreg(1), 3);
    assert_eq!(cpu.fpscr & (FPSCR_IOC | FPSCR_IXC), FPSCR_IXC);

    cpu.fpscr = 0;
    cpu.set_sreg(0, (-0.25f32).to_bits());
    cpu.execute_arm(0xeefc_0ac0, 0, &mut mem).unwrap(); // vcvt.u32.f32 s1, s0
    assert_eq!(cpu.sreg(1), 0);
    assert_eq!(cpu.fpscr & (FPSCR_IOC | FPSCR_IXC), FPSCR_IXC);

    cpu.set_reg(2, 2 << 22); // Round toward minus infinity.
    cpu.execute_arm(0xeee1_2a10, 0, &mut mem).unwrap(); // vmsr fpscr, r2
    cpu.set_sreg(0, (-0.25f32).to_bits());
    cpu.execute_arm(0xeefc_0a40, 0, &mut mem).unwrap(); // vcvtr.u32.f32 s1, s0
    assert_eq!(cpu.sreg(1), 0);
    assert_eq!(cpu.fpscr & (FPSCR_IOC | FPSCR_IXC), FPSCR_IOC);

    cpu.fpscr = 0;
    cpu.set_dreg(0, 2.5f64.to_bits());
    cpu.execute_arm(0xeefd_0b40, 0, &mut mem).unwrap(); // vcvtr.s32.f64 s1, d0
    assert_eq!(cpu.sreg(1), 2);
    assert_eq!(cpu.fpscr & (FPSCR_IOC | FPSCR_IXC), FPSCR_IXC);

    cpu.fpscr = 0;
    cpu.set_dreg(0, 4.0f64.to_bits());
    cpu.execute_arm(0xeefd_0bc0, 0, &mut mem).unwrap(); // vcvt.s32.f64 s1, d0
    assert_eq!(cpu.sreg(1), 4);
    assert_eq!(cpu.fpscr & (FPSCR_IOC | FPSCR_IXC), 0);
}

#[test]
fn vfpv2_compare_nan_exception_flags_match_vcmp_variant() {
    let mut cpu = Cpu::new();
    let mut mem = VecMemory::new(0, 0x100);

    cpu.set_sreg(0, 0x7fc0_0000);
    cpu.set_sreg(1, 1.0f32.to_bits());
    cpu.execute_arm(0xeeb4_0a60, 0, &mut mem).unwrap(); // vcmp.f32 s0, s1
    assert_eq!(cpu.fpscr & FPSCR_IOC, 0);
    assert_eq!(cpu.fpscr & 0xf000_0000, 0x3000_0000);

    cpu.fpscr = 0;
    cpu.execute_arm(0xeeb4_0ae0, 0, &mut mem).unwrap(); // vcmpe.f32 s0, s1
    assert_eq!(cpu.fpscr & FPSCR_IOC, FPSCR_IOC);
    assert_eq!(cpu.fpscr & 0xf000_0000, 0x3000_0000);

    cpu.fpscr = 0;
    cpu.set_sreg(0, 0x7fa0_0000);
    cpu.execute_arm(0xeeb4_0a60, 0, &mut mem).unwrap(); // vcmp.f32 s0, s1
    assert_eq!(cpu.fpscr & FPSCR_IOC, FPSCR_IOC);
    assert_eq!(cpu.fpscr & 0xf000_0000, 0x3000_0000);

    cpu.fpscr = 0;
    cpu.set_sreg(0, 0x7fc0_0000);
    cpu.execute_arm(0xeeb5_0ac0, 0, &mut mem).unwrap(); // vcmpe.f32 s0, #0
    assert_eq!(cpu.fpscr & FPSCR_IOC, FPSCR_IOC);
    assert_eq!(cpu.fpscr & 0xf000_0000, 0x3000_0000);

    cpu.fpscr = 0;
    cpu.set_dreg(0, 0x7ff8_0000_0000_0000);
    cpu.set_dreg(1, 1.0f64.to_bits());
    cpu.execute_arm(0xeeb4_0bc1, 0, &mut mem).unwrap(); // vcmpe.f64 d0, d1
    assert_eq!(cpu.fpscr & FPSCR_IOC, FPSCR_IOC);
    assert_eq!(cpu.fpscr & 0xf000_0000, 0x3000_0000);
}

#[test]
fn vfpv2_integer_to_single_inexact_flags() {
    let mut cpu = Cpu::new();
    let mut mem = VecMemory::new(0, 0x100);

    cpu.set_sreg(0, 0x0100_0001);
    cpu.execute_arm(0xeef8_0ac0, 0, &mut mem).unwrap(); // vcvt.f32.s32 s1, s0
    assert_eq!(f32::from_bits(cpu.sreg(1)), 16_777_216.0);
    assert_eq!(cpu.fpscr & FPSCR_IXC, FPSCR_IXC);

    cpu.fpscr = 0;
    cpu.set_sreg(0, 0x0100_0001);
    cpu.execute_arm(0xeef8_0a40, 0, &mut mem).unwrap(); // vcvt.f32.u32 s1, s0
    assert_eq!(f32::from_bits(cpu.sreg(1)), 16_777_216.0);
    assert_eq!(cpu.fpscr & FPSCR_IXC, FPSCR_IXC);

    cpu.fpscr = 0;
    cpu.set_sreg(0, 0x0100_0000);
    cpu.execute_arm(0xeef8_0ac0, 0, &mut mem).unwrap(); // vcvt.f32.s32 s1, s0
    assert_eq!(f32::from_bits(cpu.sreg(1)), 16_777_216.0);
    assert_eq!(cpu.fpscr & FPSCR_IXC, 0);

    cpu.fpscr = 0;
    cpu.set_sreg(0, 0xffff_ffff);
    cpu.execute_arm(0xeeb8_0b40, 0, &mut mem).unwrap(); // vcvt.f64.u32 d0, s0
    assert_eq!(f64::from_bits(cpu.dreg(0)), f64::from(u32::MAX));
    assert_eq!(cpu.fpscr & FPSCR_IXC, 0);
}

#[test]
fn vfpv2_double_to_single_exception_flags() {
    let mut cpu = Cpu::new();
    let mut mem = VecMemory::new(0, 0x100);

    cpu.set_dreg(0, 1.1f64.to_bits());
    cpu.execute_arm(0xeef7_0bc0, 0, &mut mem).unwrap(); // vcvt.f32.f64 s1, d0
    assert_eq!(f32::from_bits(cpu.sreg(1)), 1.1f32);
    assert_eq!(cpu.fpscr & (FPSCR_OFC | FPSCR_UFC | FPSCR_IXC), FPSCR_IXC);

    cpu.fpscr = 0;
    cpu.set_dreg(0, 1.0e40f64.to_bits());
    cpu.execute_arm(0xeef7_0bc0, 0, &mut mem).unwrap(); // vcvt.f32.f64 s1, d0
    assert_eq!(f32::from_bits(cpu.sreg(1)), f32::INFINITY);
    assert_eq!(
        cpu.fpscr & (FPSCR_OFC | FPSCR_UFC | FPSCR_IXC),
        FPSCR_OFC | FPSCR_IXC
    );

    cpu.fpscr = 0;
    cpu.set_dreg(0, 1.0e-50f64.to_bits());
    cpu.execute_arm(0xeef7_0bc0, 0, &mut mem).unwrap(); // vcvt.f32.f64 s1, d0
    assert_eq!(cpu.sreg(1), 0);
    assert_eq!(
        cpu.fpscr & (FPSCR_OFC | FPSCR_UFC | FPSCR_IXC),
        FPSCR_UFC | FPSCR_IXC
    );

    cpu.fpscr = 0;
    cpu.set_dreg(0, f64::from(f32::from_bits(1)).to_bits());
    cpu.execute_arm(0xeef7_0bc0, 0, &mut mem).unwrap(); // vcvt.f32.f64 s1, d0
    assert_eq!(cpu.sreg(1), 1);
    assert_eq!(cpu.fpscr & (FPSCR_OFC | FPSCR_UFC | FPSCR_IXC), 0);
}

#[test]
fn vfpv3_nonbaseline_encodings_trap_undefined() {
    let cases = [
        0xeeba_1a44, // vcvt.f32.s16 s2, s2, #8
        0xeebe_2a44, // vcvt.s16.f32 s4, s4, #8
    ];

    for (idx, instr) in cases.into_iter().enumerate() {
        let mut cpu = Cpu::new();
        let mut mem = VecMemory::new(0, 4);
        let pc = 0x6000 + (idx as u32 * 4);
        let err = cpu.execute_arm(instr, pc, &mut mem).unwrap_err();
        assert_eq!(err, Trap::UndefinedArm { pc, instr });
    }
}

#[test]
fn vfpv3_immediate_moves_function() {
    let mut cpu = Cpu::new();
    let mut mem = VecMemory::new(0, 4);

    cpu.execute_arm(0xeeb0_6b00, 0, &mut mem).unwrap(); // vmov.f64 d6, #2.0
    assert_eq!(f64::from_bits(cpu.dreg(6)), 2.0);

    cpu.execute_arm(0xeeb7_0a00, 0, &mut mem).unwrap(); // vmov.f32 s0, #1.0
    assert_eq!(f32::from_bits(cpu.sreg(0)), 1.0);
}

#[test]
fn vfpv2_double_arithmetic_and_memory_function() {
    let mut cpu = Cpu::new();
    let mut mem = VecMemory::new(0, 0x200);

    cpu.set_dreg(0, 1.5f64.to_bits());
    cpu.set_dreg(1, 2.25f64.to_bits());
    cpu.execute_arm(0xee30_2b01, 0, &mut mem).unwrap(); // vadd.f64 d2, d0, d1
    assert_eq!(f64::from_bits(cpu.dreg(2)), 3.75);

    cpu.execute_arm(0xee32_3b41, 0, &mut mem).unwrap(); // vsub.f64 d3, d2, d1
    assert_eq!(f64::from_bits(cpu.dreg(3)), 1.5);

    cpu.execute_arm(0xee22_4b03, 0, &mut mem).unwrap(); // vmul.f64 d4, d2, d3
    assert_eq!(f64::from_bits(cpu.dreg(4)), 5.625);

    cpu.execute_arm(0xee84_5b00, 0, &mut mem).unwrap(); // vdiv.f64 d5, d4, d0
    assert_eq!(f64::from_bits(cpu.dreg(5)), 3.75);

    cpu.execute_arm(0xeeb1_6b45, 0, &mut mem).unwrap(); // vneg.f64 d6, d5
    assert_eq!(f64::from_bits(cpu.dreg(6)), -3.75);

    cpu.execute_arm(0xeeb0_7bc6, 0, &mut mem).unwrap(); // vabs.f64 d7, d6
    assert_eq!(f64::from_bits(cpu.dreg(7)), 3.75);

    cpu.set_dreg(6, 1.0f64.to_bits());
    cpu.set_dreg(7, 2.0f64.to_bits());
    cpu.set_dreg(8, 3.0f64.to_bits());
    cpu.execute_arm(0xee07_6b08, 0, &mut mem).unwrap(); // vmla.f64 d6, d7, d8
    assert_eq!(f64::from_bits(cpu.dreg(6)), 7.0);

    cpu.set_dreg(10, 16.0f64.to_bits());
    cpu.execute_arm(0xeeb1_9bca, 0, &mut mem).unwrap(); // vsqrt.f64 d9, d10
    assert_eq!(f64::from_bits(cpu.dreg(9)), 4.0);

    cpu.set_dreg(2, 0x1122_3344_5566_7788);
    cpu.execute_arm(0xec51_0b12, 0, &mut mem).unwrap(); // vmov r0, r1, d2
    assert_eq!(cpu.reg(0), 0x5566_7788);
    assert_eq!(cpu.reg(1), 0x1122_3344);

    cpu.set_reg(2, 0xaabb_ccdd);
    cpu.set_reg(3, 0x1234_5678);
    cpu.execute_arm(0xec43_2b13, 0, &mut mem).unwrap(); // vmov d3, r2, r3
    assert_eq!(cpu.dreg(3), 0x1234_5678_aabb_ccdd);

    cpu.set_dreg(4, 0xface_cafe_feed_beef);
    cpu.execute_arm(0xee14_6b10, 0, &mut mem).unwrap(); // vmov.32 r6, d4[0]
    assert_eq!(cpu.reg(6), 0xfeed_beef);

    cpu.execute_arm(0xee34_6b10, 0, &mut mem).unwrap(); // vmov.32 r6, d4[1]
    assert_eq!(cpu.reg(6), 0xface_cafe);

    cpu.set_dreg(5, 0x1111_2222_3333_4444);
    cpu.set_reg(7, 0x9999_aaaa);
    cpu.execute_arm(0xee05_7b10, 0, &mut mem).unwrap(); // vmov.32 d5[0], r7
    assert_eq!(cpu.dreg(5), 0x1111_2222_9999_aaaa);

    cpu.set_reg(7, 0xbbbb_cccc);
    cpu.execute_arm(0xee25_7b10, 0, &mut mem).unwrap(); // vmov.32 d5[1], r7
    assert_eq!(cpu.dreg(5), 0xbbbb_cccc_9999_aaaa);

    cpu.set_reg(0, 0x100);
    mem.store32(0x100, 8.5f64.to_bits() as u32).unwrap();
    mem.store32(0x104, (8.5f64.to_bits() >> 32) as u32).unwrap();
    cpu.execute_arm(0xed90_0b00, 0, &mut mem).unwrap(); // vldr d0, [r0]
    assert_eq!(f64::from_bits(cpu.dreg(0)), 8.5);

    cpu.set_dreg(1, 9.25f64.to_bits());
    cpu.execute_arm(0xed80_1b02, 0, &mut mem).unwrap(); // vstr d1, [r0, #8]
    let lo = u64::from(mem.load32(0x108).unwrap());
    let hi = u64::from(mem.load32(0x10c).unwrap());
    assert_eq!(f64::from_bits(lo | (hi << 32)), 9.25);

    cpu.execute_arm(0xeeb4_0b41, 0, &mut mem).unwrap(); // vcmp.f64 d0, d1
    cpu.execute_arm(0xeef1_fa10, 0, &mut mem).unwrap(); // vmrs APSR_nzcv, fpscr
    assert!(cpu.cpsr.n);
    assert!(!cpu.cpsr.z);
    assert!(!cpu.cpsr.c);
    assert!(!cpu.cpsr.v);

    cpu.set_sreg(1, 1.25f32.to_bits());
    cpu.execute_arm(0xeeb7_0ae0, 0, &mut mem).unwrap(); // vcvt.f64.f32 d0, s1
    assert_eq!(f64::from_bits(cpu.dreg(0)), 1.25);

    cpu.set_dreg(1, 2.5f64.to_bits());
    cpu.execute_arm(0xeeb7_1bc1, 0, &mut mem).unwrap(); // vcvt.f32.f64 s2, d1
    assert_eq!(f32::from_bits(cpu.sreg(2)), 2.5);

    cpu.set_dreg(2, 4.75f64.to_bits());
    cpu.execute_arm(0xeebd_4bc2, 0, &mut mem).unwrap(); // vcvt.s32.f64 s8, d2
    assert_eq!(cpu.sreg(8), 4);

    cpu.set_reg(2, 0);
    cpu.execute_arm(0xeee1_2a10, 0, &mut mem).unwrap(); // vmsr fpscr, r2
    cpu.set_dreg(2, 2.5f64.to_bits());
    cpu.execute_arm(0xeebd_4b42, 0, &mut mem).unwrap(); // vcvtr.s32.f64 s8, d2
    assert_eq!(cpu.sreg(8), 2);

    cpu.set_reg(2, 1 << 22);
    cpu.execute_arm(0xeee1_2a10, 0, &mut mem).unwrap(); // vmsr fpscr, r2
    cpu.set_dreg(2, 2.25f64.to_bits());
    cpu.execute_arm(0xeefc_4b42, 0, &mut mem).unwrap(); // vcvtr.u32.f64 s9, d2
    assert_eq!(cpu.sreg(9), 3);

    cpu.set_sreg(8, 4);
    cpu.execute_arm(0xeeb8_3bc4, 0, &mut mem).unwrap(); // vcvt.f64.s32 d3, s8
    assert_eq!(f64::from_bits(cpu.dreg(3)), 4.0);
}

#[test]
fn vfpv3_d16_to_d31_double_registers_function() {
    let mut cpu = Cpu::new();
    let mut mem = VecMemory::new(0, 0x100);

    cpu.set_dreg(13, 2.0f64.to_bits());
    cpu.set_dreg(14, 1.0f64.to_bits());
    cpu.execute_arm(0xee3e_fb0d, 0, &mut mem).unwrap(); // vadd.f64 d15, d14, d13
    assert_eq!(f64::from_bits(cpu.dreg(15)), 3.0);

    cpu.set_reg(2, 0x5566_7788);
    cpu.set_reg(3, 0x1122_3344);
    cpu.execute_arm(0xec43_2b30, 0, &mut mem).unwrap(); // vmov d16, r2, r3
    assert_eq!(cpu.dreg(16), 0x1122_3344_5566_7788);

    cpu.execute_arm(0xec51_0b30, 0, &mut mem).unwrap(); // vmov r0, r1, d16
    assert_eq!(cpu.reg(0), 0x5566_7788);
    assert_eq!(cpu.reg(1), 0x1122_3344);

    cpu.set_dreg(0, 1.5f64.to_bits());
    cpu.set_dreg(1, 2.5f64.to_bits());
    cpu.execute_arm(0xee70_0b01, 0, &mut mem).unwrap(); // vadd.f64 d16, d0, d1
    assert_eq!(f64::from_bits(cpu.dreg(16)), 4.0);

    cpu.execute_arm(0xee30_2b81, 0, &mut mem).unwrap(); // vadd.f64 d2, d16, d1
    assert_eq!(f64::from_bits(cpu.dreg(2)), 6.5);

    cpu.set_sreg(1, 3.25f32.to_bits());
    cpu.execute_arm(0xeef7_0ae0, 0, &mut mem).unwrap(); // vcvt.f64.f32 d16, s1
    assert_eq!(f64::from_bits(cpu.dreg(16)), 3.25);

    cpu.execute_arm(0xeeb7_1be0, 0, &mut mem).unwrap(); // vcvt.f32.f64 s2, d16
    assert_eq!(f32::from_bits(cpu.sreg(2)), 3.25);
}

#[test]
fn vfpv2_multiple_transfer_function() {
    let mut cpu = Cpu::new();
    let mut mem = VecMemory::new(0, 0x300);

    cpu.set_reg(13, 0x200);
    for idx in 0..4 {
        cpu.set_sreg(idx, (idx as f32 + 1.0).to_bits());
    }
    cpu.execute_arm(0xed2d_0a04, 0, &mut mem).unwrap(); // vpush {s0-s3}
    assert_eq!(cpu.reg(13), 0x1f0);
    for idx in 0..4 {
        cpu.set_sreg(idx, 0);
    }
    cpu.execute_arm(0xecbd_0a04, 0, &mut mem).unwrap(); // vpop {s0-s3}
    assert_eq!(cpu.reg(13), 0x200);
    for idx in 0..4 {
        assert_eq!(f32::from_bits(cpu.sreg(idx)), idx as f32 + 1.0);
    }

    cpu.set_reg(1, 0x120);
    for idx in 0..4 {
        cpu.set_sreg(idx, (idx as f32 + 10.0).to_bits());
    }
    cpu.execute_arm(0xec81_0a04, 0, &mut mem).unwrap(); // vstmia r1, {s0-s3}
    assert_eq!(cpu.reg(1), 0x120);
    for idx in 0..4 {
        cpu.set_sreg(idx, 0);
    }
    cpu.execute_arm(0xec91_0a04, 0, &mut mem).unwrap(); // vldmia r1, {s0-s3}
    assert_eq!(cpu.reg(1), 0x120);
    for idx in 0..4 {
        assert_eq!(f32::from_bits(cpu.sreg(idx)), idx as f32 + 10.0);
    }

    cpu.set_reg(0, 0x100);
    cpu.set_dreg(0, 1.25f64.to_bits());
    cpu.set_dreg(1, 2.5f64.to_bits());
    cpu.execute_arm(0xeca0_0b04, 0, &mut mem).unwrap(); // vstmia r0!, {d0-d1}
    assert_eq!(cpu.reg(0), 0x110);
    cpu.set_dreg(0, 0);
    cpu.set_dreg(1, 0);
    cpu.set_reg(0, 0x100);
    cpu.execute_arm(0xecb0_0b04, 0, &mut mem).unwrap(); // vldmia r0!, {d0-d1}
    assert_eq!(cpu.reg(0), 0x110);
    assert_eq!(f64::from_bits(cpu.dreg(0)), 1.25);
    assert_eq!(f64::from_bits(cpu.dreg(1)), 2.5);
}

#[test]
fn vfpv2_load_store_invalid_ranges_trap() {
    let mut cpu = Cpu::new();
    let mut mem = VecMemory::new(0, 0x100);
    cpu.set_reg(0, 0x40);

    cpu.execute_arm(0xedd0_0b00, 0, &mut mem).unwrap(); // vldr d16, [r0]

    let err = cpu.execute_arm(0xeca0_0a00, 0, &mut mem).unwrap_err(); // vstmia r0!, {}
    assert_eq!(
        err,
        Trap::Unpredictable("VFP multiple transfer empty register list")
    );

    let err = cpu.execute_arm(0xecaf_0a01, 0, &mut mem).unwrap_err(); // vstmia pc!, {s0}
    assert_eq!(
        err,
        Trap::Unpredictable("VFP multiple transfer writeback with PC base")
    );

    let err = cpu.execute_arm(0xece0_fb04, 0, &mut mem).unwrap_err(); // vstmia r0!, {d31-d32}
    assert_eq!(
        err,
        Trap::Unpredictable("VFP multiple transfer register range")
    );

    let err = cpu.execute_arm(0xece0_fa02, 0, &mut mem).unwrap_err(); // vstmia r0!, {s31-s32}
    assert_eq!(
        err,
        Trap::Unpredictable("VFP multiple transfer register range")
    );
}

#[test]
fn reports_undefined_for_unimplemented_thumb_control_instruction() {
    let mut cpu = Cpu::new();
    let mut mem = VecMemory::new(0, 4);
    cpu.set_isa(Isa::Thumb);
    let err = cpu.execute_thumb(0xde00, 0, &mut mem).unwrap_err();
    assert!(matches!(err, Trap::UndefinedThumb { .. }));
}

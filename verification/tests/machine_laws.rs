use aemu::armv6::{Cpsr, Cpu, Isa, Memory, Trap, VecMemory};

fn arm(cpu: &mut Cpu, mem: &mut VecMemory, instr: u32) {
    let pc = cpu.pc();
    cpu.execute_arm(instr, pc, mem).unwrap();
}

#[test]
fn words_read_back_and_neighbours_stay() {
    let mut mem = VecMemory::new(0x1000, 16);
    mem.load_bytes(0x1000, &[0xee; 16]).unwrap();
    mem.store32(0x1004, 0x1234_5678).unwrap();
    assert_eq!(mem.load32(0x1004).unwrap(), 0x1234_5678);
    assert_eq!(mem.load8(0x1004).unwrap(), 0x78);
    assert_eq!(mem.load16(0x1006).unwrap(), 0x1234);
    assert_eq!(mem.load32(0x1000).unwrap(), 0xeeee_eeee);
    assert_eq!(mem.load32(0x1008).unwrap(), 0xeeee_eeee);
    mem.store16(0x100a, 0xbeef).unwrap();
    assert_eq!(mem.load16(0x100a).unwrap(), 0xbeef);
    assert_eq!(mem.load16(0x1008).unwrap(), 0xeeee);
}

#[test]
fn loaded_programs_read_back() {
    let mut mem = VecMemory::new(0x2000, 32);
    mem.load_bytes(0x2001, &[1, 2, 3]).unwrap();
    assert_eq!(mem.load8(0x2000).unwrap(), 0);
    assert_eq!(mem.load8(0x2001).unwrap(), 1);
    assert_eq!(mem.load8(0x2003).unwrap(), 3);
    mem.load_arm_words(0x2008, &[0xdead_beef, 0x0bad_f00d]).unwrap();
    assert_eq!(mem.load32(0x2008).unwrap(), 0xdead_beef);
    assert_eq!(mem.load32(0x200c).unwrap(), 0x0bad_f00d);
    mem.load_thumb_halfwords(0x2010, &[0x1111, 0x2222]).unwrap();
    assert_eq!(mem.load16(0x2010).unwrap(), 0x1111);
    assert_eq!(mem.load32(0x2010).unwrap(), 0x2222_1111);
}

#[test]
fn memory_blocks_have_edges() {
    let mut mem = VecMemory::new(0x1000, 4);
    assert_eq!(mem.base(), 0x1000);
    assert_eq!(mem.len(), 4);
    assert!(!mem.is_empty());
    assert!(VecMemory::new(0, 0).is_empty());
    assert_eq!(
        mem.load8(0xfff).unwrap_err().to_string(),
        "memory error: address 0x00000fff below base 0x00001000"
    );
    assert_eq!(
        mem.store8(0x1004, 1).unwrap_err(),
        Trap::Memory("address 0x00001004 outside memory range 0x00001000..0x00001004".to_string())
    );
    assert!(mem.load32(0x1001).is_err());
    assert_eq!(mem.store32(0x1002, 0xffff_ffff).is_err(), true);
    assert_eq!(mem.load16(0x1002).unwrap(), 0xffff);
}

#[test]
fn partial_loads_stop_at_the_edge() {
    let mut mem = VecMemory::new(0x1000, 4);
    assert!(mem.load_bytes(0x1002, &[7, 8, 9]).is_err());
    assert_eq!(mem.load32(0x1000).unwrap(), 0x0807_0000);
}

#[test]
fn registers_read_back_one_by_one() {
    let mut cpu = Cpu::new();
    for i in 0..16 {
        cpu.set_reg(i, 100 + i as u32);
    }
    for i in 0..16 {
        assert_eq!(cpu.reg(i), 100 + i as u32);
    }
    cpu.set_dreg(3, 0x1122_3344_5566_7788);
    assert_eq!(cpu.sreg(6), 0x5566_7788);
    assert_eq!(cpu.sreg(7), 0x1122_3344);
    assert_eq!(cpu.dreg(3), 0x1122_3344_5566_7788);
    assert_eq!(cpu.dreg(2), 0);
    assert_eq!(cpu.dreg(4), 0);
    cpu.set_sreg(8, 1);
    assert_eq!(cpu.dreg(4), 1);
}

#[test]
fn jumps_select_the_instruction_set_by_the_lowest_bit() {
    let mut cpu = Cpu::new();
    assert_eq!(cpu.isa(), Isa::Arm);
    cpu.branch_exchange(0x2001);
    assert_eq!(cpu.isa(), Isa::Thumb);
    assert_eq!(cpu.pc(), 0x2000);
    cpu.branch_exchange(0x3000);
    assert_eq!(cpu.isa(), Isa::Arm);
    assert_eq!(cpu.pc(), 0x3000);
}

#[test]
fn a_step_without_code_changes_nothing() {
    let mut mem = VecMemory::new(0x1000, 4);
    let mut cpu = Cpu::new();
    cpu.set_reg(3, 9);
    cpu.set_pc(0x8000);
    let trap = cpu.step(&mut mem).unwrap_err();
    assert_eq!(
        trap.to_string(),
        "memory error: address 0x00008000 outside memory range 0x00001000..0x00001004"
    );
    assert_eq!(cpu.pc(), 0x8000);
    assert_eq!(cpu.reg(3), 9);
}

#[test]
fn a_pop_undoes_a_push() {
    let mut mem = VecMemory::new(0x1000, 0x100);
    let mut cpu = Cpu::new();
    cpu.set_reg(13, 0x1040);
    cpu.set_reg(4, 44);
    cpu.set_reg(7, 77);
    cpu.set_reg(14, 0x1234);
    arm(&mut cpu, &mut mem, 0xe92d_4090);
    assert_eq!(cpu.reg(13), 0x1034);
    assert_eq!(mem.load32(0x1034).unwrap(), 44);
    assert_eq!(mem.load32(0x103c).unwrap(), 0x1234);
    cpu.set_reg(4, 0);
    cpu.set_reg(5, 5);
    cpu.set_reg(7, 0);
    cpu.set_reg(14, 0);
    arm(&mut cpu, &mut mem, 0xe8bd_4090);
    assert_eq!(cpu.reg(13), 0x1040);
    assert_eq!(cpu.reg(4), 44);
    assert_eq!(cpu.reg(5), 5);
    assert_eq!(cpu.reg(7), 77);
    assert_eq!(cpu.reg(14), 0x1234);
}

#[test]
fn an_exclusive_store_needs_a_standing_claim() {
    let mut mem = VecMemory::new(0x1000, 0x10);
    let mut cpu = Cpu::new();
    cpu.set_reg(1, 0x1000);
    cpu.set_reg(3, 7);
    arm(&mut cpu, &mut mem, 0xe181_2f93);
    assert_eq!(cpu.reg(2), 1);
    assert_eq!(mem.load32(0x1000).unwrap(), 0);
    arm(&mut cpu, &mut mem, 0xe191_0f9f);
    arm(&mut cpu, &mut mem, 0xe181_2f93);
    assert_eq!(cpu.reg(2), 0);
    assert_eq!(mem.load32(0x1000).unwrap(), 7);
    arm(&mut cpu, &mut mem, 0xe181_2f93);
    assert_eq!(cpu.reg(2), 1);
}

#[test]
fn a_store_to_claimed_bytes_breaks_the_claim() {
    let mut mem = VecMemory::new(0x1000, 0x10);
    let mut cpu = Cpu::new();
    cpu.set_reg(1, 0x1000);
    cpu.set_reg(3, 7);
    arm(&mut cpu, &mut mem, 0xe191_0f9f);
    arm(&mut cpu, &mut mem, 0xe5c1_3002);
    arm(&mut cpu, &mut mem, 0xe181_2f93);
    assert_eq!(cpu.reg(2), 1);
    arm(&mut cpu, &mut mem, 0xe191_0f9f);
    arm(&mut cpu, &mut mem, 0xe5c1_3004);
    arm(&mut cpu, &mut mem, 0xe181_2f93);
    assert_eq!(cpu.reg(2), 0);
}

#[test]
fn a_run_can_be_cut_in_two() {
    let code = [0xe280_0001u32, 0xe280_0002, 0xe280_0004, 0xe280_0008];
    let mut mem = VecMemory::new(0, 0x100);
    mem.load_arm_words(0, &code).unwrap();
    let mut whole = Cpu::new();
    assert_eq!(whole.run(&mut mem, 4).unwrap_err(), Trap::StepLimit);
    let mut parts = Cpu::new();
    assert_eq!(parts.run(&mut mem, 1).unwrap_err(), Trap::StepLimit);
    assert_eq!(parts.reg(0), 1);
    assert_eq!(parts.run(&mut mem, 3).unwrap_err(), Trap::StepLimit);
    assert_eq!(whole.reg(0), 15);
    assert_eq!(parts.reg(0), 15);
    assert_eq!(whole.pc(), parts.pc());
}

#[test]
fn running_keeps_the_edges_of_memory() {
    let mut mem = VecMemory::new(0, 0x20);
    mem.load_arm_words(0, &[0xe3a0_1010, 0xe581_1000, 0xe581_1010]).unwrap();
    let mut cpu = Cpu::new();
    let trap = cpu.run(&mut mem, 10).unwrap_err();
    assert_eq!(
        trap.to_string(),
        "memory error: address 0x00000020 outside memory range 0x00000000..0x00000020"
    );
    assert_eq!(mem.load32(0x10).unwrap(), 0x10);
    assert_eq!(mem.len(), 0x20);
    assert!(mem.load8(0x20).is_err());
    assert!(mem.load8(0x1f).is_ok());
}

#[test]
fn a_failed_condition_only_moves_on() {
    let mut mem = VecMemory::new(0, 0x10);
    mem.load_arm_words(0, &[0x03a0_0005, 0x13a0_0006]).unwrap();
    let mut cpu = Cpu::new();
    cpu.step(&mut mem).unwrap();
    assert_eq!(cpu.reg(0), 0);
    assert_eq!(cpu.pc(), 4);
    cpu.step(&mut mem).unwrap();
    assert_eq!(cpu.reg(0), 6);
}

#[test]
fn comparing_sets_the_flags_of_a_subtraction() {
    for (a, b) in [(5u32, 5u32), (3, 9), (0x8000_0000, 1), (9, 3)] {
        let mut mem = VecMemory::new(0, 0x10);
        let mut compared = Cpu::new();
        compared.set_reg(0, a);
        compared.set_reg(1, b);
        let mut subtracted = compared.clone();
        arm(&mut compared, &mut mem, 0xe150_0001);
        arm(&mut subtracted, &mut mem, 0xe050_2001);
        assert_eq!(compared.cpsr, subtracted.cpsr);
        assert_eq!(compared.cpsr.z, a == b);
        assert_eq!(compared.cpsr.c, a >= b);
        assert_eq!(subtracted.reg(2), a.wrapping_sub(b));
        assert_eq!(compared.reg(2), 0);
    }
}

#[test]
fn status_words_round_trip() {
    let c = Cpsr::from_u32(0xa80f_0020);
    assert!(c.n && !c.z && c.c && !c.v && c.q && c.t);
    assert_eq!(c.ge, 15);
    assert_eq!(c.to_u32(), 0xa80f_0020);
    assert_eq!(Cpsr::from_u32(0xffff_ffff).to_u32(), 0xf80f_0020);
    assert_eq!(Cpsr::from_u32(c.to_u32()), c);
}

#[test]
fn reversing_bytes_twice_gives_the_word_back() {
    let mut mem = VecMemory::new(0, 0x10);
    let mut cpu = Cpu::new();
    cpu.set_reg(0, 0x0102_0304);
    arm(&mut cpu, &mut mem, 0xe6bf_1f30);
    assert_eq!(cpu.reg(1), 0x0403_0201);
    arm(&mut cpu, &mut mem, 0xe6bf_2f31);
    assert_eq!(cpu.reg(2), 0x0102_0304);
}

#[test]
fn conditions_come_in_pairs() {
    for word in 0..16u32 {
        for pair in 0..7u32 {
            let mut mem = VecMemory::new(0, 0x10);
            let mut cpu = Cpu::new();
            cpu.cpsr = Cpsr::from_u32(word << 28);
            arm(&mut cpu, &mut mem, (2 * pair) << 28 | 0x03a0_0001);
            arm(&mut cpu, &mut mem, (2 * pair + 1) << 28 | 0x03a0_1001);
            assert_eq!(cpu.reg(0) + cpu.reg(1), 1);
        }
    }
}

#[test]
fn a_lane_that_was_set_reads_back() {
    let mut mem = VecMemory::new(0, 0x10);
    let mut cpu = Cpu::new();
    cpu.set_dreg(2, 0x1111_2222_3333_4444);
    cpu.set_reg(0, 0xabcd);
    arm(&mut cpu, &mut mem, 0xee02_0b70);
    assert_eq!(cpu.dreg(2), 0x1111_2222_abcd_4444);
    arm(&mut cpu, &mut mem, 0xee92_1b70);
    assert_eq!(cpu.reg(1), 0xabcd);
}

#[test]
fn traps_have_messages() {
    let cases = [
        (Trap::Memory("lost".to_string()), "memory error: lost"),
        (
            Trap::UndefinedArm { pc: 4, instr: 0xe7f0_00f0 },
            "undefined ARM instruction 0xe7f000f0 at 0x00000004",
        ),
        (
            Trap::UndefinedThumb { pc: 2, instr: 0xde00 },
            "undefined Thumb instruction 0xde00 at 0x00000002",
        ),
        (Trap::Unpredictable("x"), "unpredictable instruction behavior: x"),
        (
            Trap::Privileged { pc: 8, instr: 1, operation: "CPS" },
            "privileged CPS instruction 0x00000001 at 0x00000008",
        ),
        (
            Trap::SoftwareInterrupt { pc: 0, comment: 0x2a },
            "software interrupt 0x2a at 0x00000000",
        ),
        (Trap::Breakpoint { pc: 0x10, comment: 0 }, "breakpoint 0x0 at 0x00000010"),
        (Trap::StepLimit, "step limit reached"),
    ];
    for (trap, text) in cases {
        assert_eq!(trap.to_string(), text);
    }
}

#[test]
fn it_blocks_run_their_conditions_in_order() {
    let mut mem = VecMemory::new(0, 0x20);
    mem.load_thumb_halfwords(0, &[0x2800, 0xbf0c, 0x4641, 0x4642, 0x4643]).unwrap();
    let mut cpu = Cpu::new();
    cpu.set_isa(Isa::Thumb);
    cpu.set_reg(8, 5);
    for _ in 0..5 {
        cpu.step(&mut mem).unwrap();
    }
    assert_eq!(cpu.reg(1), 5);
    assert_eq!(cpu.reg(2), 0);
    assert_eq!(cpu.reg(3), 5);
}

#[test]
fn floating_point_rounds_to_nearest() {
    let mut mem = VecMemory::new(0, 0x10);
    let mut cpu = Cpu::new();
    for (a, b) in [(0.1f32, 0.2f32), (1.0e30, -1.0e30), (1.5, 2.25), (3.0e-39, 1.0e-40)] {
        cpu.set_sreg(0, a.to_bits());
        cpu.set_sreg(1, b.to_bits());
        arm(&mut cpu, &mut mem, 0xee30_1a20);
        assert_eq!(cpu.sreg(2), (a + b).to_bits());
        arm(&mut cpu, &mut mem, 0xee20_1a20);
        assert_eq!(cpu.sreg(2), (a * b).to_bits());
        arm(&mut cpu, &mut mem, 0xee80_1a20);
        assert_eq!(cpu.sreg(2), (a / b).to_bits());
    }
    for a in [2.0f64, 0.3, 1.0e300, 4.9e-324] {
        cpu.set_dreg(1, a.to_bits());
        arm(&mut cpu, &mut mem, 0xeeb1_0bc1);
        assert_eq!(cpu.dreg(0), a.sqrt().to_bits());
    }
}

#[test]
fn loading_bytes_keeps_the_extent_of_a_block() {
    let mut mem = VecMemory::new(0xffff_fffc, 4);
    assert!(mem.load_bytes(0xffff_fffe, &[1, 2]).is_ok());
    assert_eq!((mem.base(), mem.len()), (0xffff_fffc, 4));
    assert!(mem.load_bytes(0xffff_fffe, &[3, 4, 5]).is_err());
    assert_eq!((mem.base(), mem.len()), (0xffff_fffc, 4));
    assert_eq!(mem.load32(0xffff_fffc).unwrap(), 0x0403_0000);
    assert!(mem.load_arm_words(0, &[]).is_ok());
    assert!(mem.load_arm_words(0, &[7]).is_err());
    assert!(mem.load_thumb_halfwords(0xffff_fffc, &[8, 9]).is_ok());
    assert_eq!((mem.base(), mem.len()), (0xffff_fffc, 4));
    assert_eq!(mem.load32(0xffff_fffc).unwrap(), 0x0009_0008);
}

#[test]
fn a_thumb_pop_undoes_a_thumb_push() {
    let mut mem = VecMemory::new(0x1000, 0x40);
    mem.load_bytes(0x1000, &[0xee; 0x40]).unwrap();
    let mut cpu = Cpu::new();
    cpu.set_isa(Isa::Thumb);
    cpu.set_reg(13, 0x1020);
    for i in 0..8 {
        cpu.set_reg(i, 0x100 + i as u32);
    }
    cpu.execute_thumb(0xb400 | 0b1010_0010, 0, &mut mem).unwrap();
    assert_eq!(cpu.reg(13), 0x1014);
    assert_eq!(mem.load32(0x1014).unwrap(), 0x101);
    assert_eq!(mem.load32(0x1018).unwrap(), 0x105);
    assert_eq!(mem.load32(0x101c).unwrap(), 0x107);
    assert_eq!(mem.load32(0x1010).unwrap(), 0xeeee_eeee);
    assert_eq!(mem.load32(0x1020).unwrap(), 0xeeee_eeee);
    for i in 0..8 {
        cpu.set_reg(i, 0);
    }
    cpu.execute_thumb(0xbc00 | 0b1010_0010, 2, &mut mem).unwrap();
    assert_eq!(cpu.reg(13), 0x1020);
    for i in 0..8 {
        let listed = 0b1010_0010 >> i & 1 == 1;
        assert_eq!(cpu.reg(i), if listed { 0x100 + i as u32 } else { 0 });
    }
}

#[test]
fn exception_flags_stay_until_the_status_is_written() {
    let mut mem = VecMemory::new(0, 0x10);
    let mut cpu = Cpu::new();
    cpu.set_sreg(0, 1.0f32.to_bits());
    arm(&mut cpu, &mut mem, 0xee80_1a20);
    assert_eq!(cpu.fpscr & 0x1f, 2);
    cpu.set_sreg(1, 3.0f32.to_bits());
    arm(&mut cpu, &mut mem, 0xee80_1a20);
    assert_eq!(cpu.fpscr & 0x1f, 0x12);
    arm(&mut cpu, &mut mem, 0xeeb4_0a60);
    arm(&mut cpu, &mut mem, 0xee30_1a00);
    assert_eq!(cpu.fpscr & 0x1f, 0x12);
    arm(&mut cpu, &mut mem, 0xeee1_0a10);
    assert_eq!(cpu.fpscr & 0x1f, 0);
}

#[test]
fn reversing_a_vector_twice_gives_it_back() {
    for (op2, size, once) in [
        (0u32, 0u32, 0x0102_0304_0506_0708u64),
        (0, 1, 0x0201_0403_0605_0807),
        (0, 2, 0x0403_0201_0807_0605),
        (1, 0, 0x0506_0708_0102_0304),
        (1, 1, 0x0605_0807_0201_0403),
        (2, 0, 0x0708_0506_0304_0102),
    ] {
        let mut mem = VecMemory::new(0, 0x10);
        let mut cpu = Cpu::new();
        cpu.set_dreg(2, 0x0807_0605_0403_0201);
        cpu.set_dreg(3, 0x1817_1615_1413_1211);
        let word = 0xf3b0_0040 | size << 18 | op2 << 7;
        arm(&mut cpu, &mut mem, word | 2);
        assert_eq!(cpu.dreg(0), once);
        assert_eq!(cpu.dreg(1), once + 0x1010_1010_1010_1010);
        arm(&mut cpu, &mut mem, word);
        assert_eq!(cpu.dreg(0), 0x0807_0605_0403_0201);
        assert_eq!(cpu.dreg(1), 0x1817_1615_1413_1211);
    }
}

#[test]
fn permutations_of_vectors_can_be_undone() {
    for q in [0u32, 1] {
        for size in 0..3u32 {
            for (op, back) in [(0u32, 0u32), (1, 1), (3, 2), (2, 3)] {
                if op >= 2 && q == 0 && size == 2 {
                    continue;
                }
                let mut mem = VecMemory::new(0, 0x10);
                let mut cpu = Cpu::new();
                for i in 0..8 {
                    cpu.set_dreg(i, 0x0706_0504_0302_0100 + 0x0808_0808_0808_0808 * i as u64);
                }
                let before: Vec<u64> = (0..8).map(|i| cpu.dreg(i)).collect();
                let word = 0xf3b2_0000 | size << 18 | q << 6 | 4;
                arm(&mut cpu, &mut mem, word | op << 7);
                assert_ne!(cpu.dreg(0), before[0]);
                arm(&mut cpu, &mut mem, word | back << 7);
                let after: Vec<u64> = (0..8).map(|i| cpu.dreg(i)).collect();
                assert_eq!(after, before);
            }
        }
    }
}

#[test]
fn status_fields_can_be_set_by_name() {
    let mut cpu = Cpu::new();
    cpu.set_fp_status(5);
    cpu.set_flags(Cpsr::from_u32(1 << 30));
    cpu.set_thread_id_rw(6);
    cpu.set_thread_id_ro(7);
    assert_eq!((cpu.fp_status(), cpu.fpscr), (5, 5));
    assert!(cpu.flags().z && cpu.cpsr.z);
    assert_eq!((cpu.thread_id_rw(), cpu.thread_id_ro()), (6, 7));
}

#[test]
fn inserted_bit_fields_read_back() {
    let mut mem = VecMemory::new(0, 0x10);
    let mut cpu = Cpu::new();
    cpu.set_reg(0, 0xffff_ffff);
    cpu.set_reg(1, 0x1234_5678);
    arm(&mut cpu, &mut mem, 0xe7cb_0211);
    assert_eq!(cpu.reg(0), 0xffff_f78f);
    arm(&mut cpu, &mut mem, 0xe7e7_2250);
    assert_eq!(cpu.reg(2), 0x78);
}

#[test]
fn exclusive_pairs_of_every_size_succeed() {
    let mut mem = VecMemory::new(0x1000, 0x10);
    let mut cpu = Cpu::new();
    cpu.set_reg(1, 0x1000);
    cpu.set_reg(6, 0x1122_3344);
    cpu.set_reg(7, 0x5566_7788);
    for (load, store) in
        [(0xe1b1_2f9fu32, 0xe1a1_4f96u32), (0xe1d1_2f9f, 0xe1c1_4f96), (0xe1f1_2f9f, 0xe1e1_4f96)]
    {
        cpu.set_reg(4, 9);
        arm(&mut cpu, &mut mem, load);
        arm(&mut cpu, &mut mem, store);
        assert_eq!(cpu.reg(4), 0);
    }
    assert_eq!(mem.load32(0x1000).unwrap(), 0x1122_3344);
    assert_eq!(mem.load32(0x1004).unwrap(), 0x5566_7788);
}

#[test]
fn thumb_exclusive_pairs_succeed() {
    let mut mem = VecMemory::new(0x1000, 0x10);
    let mut cpu = Cpu::new();
    cpu.set_isa(Isa::Thumb);
    cpu.set_reg(1, 0x1000);
    cpu.set_reg(6, 0x1122_3344);
    for (load, store, at, expected) in [
        ((0xe851u16, 0x2f01u16), (0xe841u16, 0x6401u16), 0x1004, 0x1122_3344u32),
        ((0xe8d1, 0x2f4f), (0xe8c1, 0x6f44), 0x1000, 0x44),
        ((0xe8d1, 0x2f5f), (0xe8c1, 0x6f54), 0x1000, 0x3344),
    ] {
        cpu.set_reg(4, 9);
        cpu.execute_thumb32(load.0, load.1, 0, &mut mem).unwrap();
        cpu.execute_thumb32(store.0, store.1, 4, &mut mem).unwrap();
        assert_eq!(cpu.reg(4), 0);
        assert_eq!(mem.load32(at).unwrap(), expected);
    }
}

#[test]
fn words_load_like_their_bytes() {
    let words = [0x0403_0201u32, 0x0807_0605];
    let mut a = VecMemory::new(0, 6);
    let mut b = VecMemory::new(0, 6);
    let first = a.load_arm_words(0, &words);
    let second = b.load_bytes(0, &[1, 2, 3, 4, 5, 6, 7, 8]);
    assert_eq!(first, second);
    assert!(first.is_err());
    for addr in 0..6 {
        assert_eq!(a.load8(addr), b.load8(addr));
    }
    let mut c = VecMemory::new(0, 6);
    c.load_thumb_halfwords(0, &[0x0201, 0x0403, 0x0605]).unwrap();
    assert_eq!(c.load32(2).unwrap(), 0x0605_0403);
}

#[test]
fn permutations_check_their_registers() {
    let mut cpu = Cpu::new();
    assert_eq!(
        cpu.exec_arm_neon_2reg_permute(7, 8, 0, 0, false, 32, 0).unwrap_err(),
        Trap::Unpredictable("VFP double register out of range")
    );
    assert_eq!(
        cpu.exec_arm_neon_2reg_permute(7, 8, 0, 0, true, 1, 2).unwrap_err(),
        Trap::UndefinedArm { pc: 8, instr: 7 }
    );
    assert!(cpu.exec_arm_neon_2reg_permute(7, 8, 2, 3, false, 0, 1).is_err());
    cpu.set_dreg(0, 5);
    assert_eq!(cpu.exec_arm_neon_2reg_permute(7, 8, 0, 0, false, 0, 1), Ok(true));
    assert_eq!((cpu.dreg(0), cpu.dreg(1)), (0, 5));
}

use aemu::armv6::{Cpsr, Cpu, Isa, Memory, Trap, VecMemory};
use aemu::dynarmic_backend::{
    cpu_isa_from_dynarmic_cpsr, dynarmic_cpsr_for_cpu, executable_pages_for_ranges,
    executable_write_intersects, run_ticks, DynarmicA32, DynarmicCpuState, DynarmicMemoryContext,
    DynarmicStepResult,
};
use aemu::guest_memory::MappedMemory;

fn result(memory_abort: bool) -> DynarmicStepResult {
    DynarmicStepResult {
        halt_reason: 1,
        exception_pc: 2,
        memory_abort_addr: 3,
        exception_kind: -1,
        svc: 0,
        ticks_used: 5,
        svc_valid: false,
        memory_abort,
        interpreter_fallback: false,
    }
}

#[test]
fn writes_are_seen_on_code_pages_only() {
    let pages = executable_pages_for_ranges(&[(0x1800, 0x1000), (0x9000, 0), (0xffff_fff0, 0x100)]);
    assert_eq!(pages.len(), 0x4000);
    assert!(!executable_write_intersects(&pages, 0xffc, 4));
    assert!(executable_write_intersects(&pages, 0xffd, 4));
    assert!(executable_write_intersects(&pages, 0x1000, 1));
    assert!(executable_write_intersects(&pages, 0x2fff, 8));
    assert!(!executable_write_intersects(&pages, 0x3000, 8));
    assert!(!executable_write_intersects(&pages, 0x1000, 0));
    assert!(!executable_write_intersects(&pages, 0x9000, 4));
    assert!(executable_write_intersects(&pages, 0xffff_ffff, 8));
    assert!(!executable_write_intersects(&[], 0x1000, 4));
}

#[test]
fn code_pages_are_never_reached_directly() {
    let mut engine = DynarmicA32::new_with_host_page_table(Some(vec![true; 8]), &[(0x2000, 1)]);
    assert!(engine.reaches_directly(1));
    assert!(!engine.reaches_directly(2));
    assert!(!engine.reaches_directly(8));
    engine.set_executable_ranges(&[(0x1000, 0x10)]);
    assert!(!engine.reaches_directly(1));
    assert!(!engine.reaches_directly(2));
    assert!(engine.reaches_directly(3));
    assert!(executable_write_intersects(engine.executable_pages(), 0x1ffc, 4));
    assert!(!executable_write_intersects(engine.executable_pages(), 0x2000, 4));
    let mapped = MappedMemory::new();
    let direct = DynarmicA32::new_for_mapped_memory(&mapped, Some(vec![true; 3]), &[(0x1000, 4)]);
    assert!(direct.reaches_directly(0));
    assert!(!direct.reaches_directly(1));
    assert!(direct.reaches_directly(2));
    let plain = DynarmicA32::new_for_mapped_memory(&mapped, None, &[(0x1000, 4)]);
    assert!(!plain.reaches_directly(3));
    assert!(executable_write_intersects(plain.executable_pages(), 0x1000, 4));
    assert!(DynarmicA32::new().executable_pages().is_empty());
}

#[test]
fn accesses_reach_memory_and_leave_their_traces() {
    let mut mem = VecMemory::new(0x1000, 0x2000);
    let mut engine = DynarmicA32::new();
    engine.set_executable_ranges(&[(0x2000, 4)]);
    let mut context = DynarmicMemoryContext::new();
    assert!(context.write64(&engine, &mut mem, 0x1008, 0x1122_3344_5566_7788));
    assert_eq!(context.read64(&mut mem, 0x1008), Some(0x1122_3344_5566_7788));
    assert_eq!(context.read32(&mut mem, 0x100c), Some(0x1122_3344));
    assert_eq!(context.read16(&mut mem, 0x1008), Some(0x7788));
    assert_eq!(context.read8(&mut mem, 0x100f), Some(0x11));
    assert!(context.dirty_executable_writes.is_empty());
    assert!(context.write8(&engine, &mut mem, 0x2fff, 1));
    assert!(context.write16(&engine, &mut mem, 0x1ffe, 1));
    assert!(context.write32(&engine, &mut mem, 0x1ffe, 1));
    assert!(context.write64(&engine, &mut mem, 0x2000, 1));
    assert_eq!(
        context.dirty_executable_writes,
        vec![(0x2fff, 1), (0x1ffe, 4), (0x2000, 8)]
    );
    assert_eq!(context.finish(result(false)).unwrap(), result(false));
}

#[test]
fn refused_accesses_reach_the_caller() {
    let mut mem = VecMemory::new(0x1000, 8);
    let engine = DynarmicA32::new();
    let mut context = DynarmicMemoryContext::new();
    assert_eq!(context.read32(&mut mem, 0), None);
    assert!(!context.write64(&engine, &mut mem, 0x1004, u64::MAX));
    assert_eq!(mem.load32(0x1004).unwrap(), u32::MAX);
    assert_eq!(context.read64(&mut mem, 0x1000), Some(0xffff_ffff_0000_0000));
    let trap =
        Trap::Memory("address 0x00001008 outside memory range 0x00001000..0x00001008".to_string());
    let again = context.clone();
    assert_eq!(context.finish(result(false)).unwrap_err(), trap);
    assert_eq!(again.finish(result(true)).unwrap(), result(true));
}

#[test]
fn handing_a_processor_over_and_back_changes_nothing() {
    let mut cpu = Cpu::new();
    for i in 0..16 {
        cpu.set_reg(i, 3 * i as u32);
    }
    for i in 0..64 {
        cpu.set_sreg(i, 7 * i as u32);
    }
    cpu.cpsr = Cpsr::from_u32(0xf805_0020);
    cpu.fpscr = 0x0300_0000;
    cpu.cp15_tpidrurw = 11;
    cpu.cp15_tpidruro = 12;
    cpu.set_cp15_virtual_counter(13);
    let state = DynarmicCpuState::of_cpu(&cpu);
    assert_eq!(state.cpsr, 0xf805_0030);
    assert_eq!(state.cpsr, dynarmic_cpsr_for_cpu(&cpu));
    assert_eq!(cpu_isa_from_dynarmic_cpsr(state.cpsr), Isa::Thumb);
    assert_eq!(cpu_isa_from_dynarmic_cpsr(0xffff_ffdf), Isa::Arm);
    let mut other = Cpu::new();
    state.to_cpu(&mut other);
    for i in 0..16 {
        assert_eq!(other.reg(i), cpu.reg(i));
    }
    for i in 0..64 {
        assert_eq!(other.sreg(i), cpu.sreg(i));
    }
    assert_eq!(other.cpsr, cpu.cpsr);
    assert_eq!(other.fpscr, cpu.fpscr);
    assert_eq!(other.cp15_tpidrurw, 11);
    assert_eq!(other.cp15_tpidruro, 12);
    assert_eq!(other.cp15_virtual_counter(), 13);
}

#[test]
fn a_run_asks_for_at_least_one_tick() {
    assert_eq!(run_ticks(0), 1);
    assert_eq!(run_ticks(1), 1);
    assert_eq!(run_ticks(9), 9);
}

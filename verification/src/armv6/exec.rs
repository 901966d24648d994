//! Instruction dispatch, single steps and runs.

use super::alu::{condition_passed, holds, thumb_is_32bit_prefix, wide_prefix};
use super::arm_data::{
    arm_blx, arm_branch, arm_coprocessor, arm_data_processing, arm_unconditional,
};
use super::arm_misc::arm_misc;
use super::arm_multiply::arm_multiply;
use super::arm_transfer::{arm_block_transfer, arm_halfword_transfer, arm_single_transfer};
use super::bits::{bit, f4, field4, group_masks};
use super::cpu::{beside, passed, undefined, Cpu, CpuState, Seen};
use super::memory::{MemState, Memory};
use super::neon::neon;
use super::thumb::{fin, thumb};
use super::thumb32::{t32_core, t32_exclusive, t32_hint, without_value};
use super::trap::{seen, Result, Trap, TrapView};
use super::vfp::vfp;
use vstd::prelude::*;

verus! {

broadcast use group_masks;

/// An outcome without its value.
pub open spec fn settled(out: (CpuState, MemState, Seen<bool>)) -> (CpuState, MemState, Seen<()>) {
    (out.0, out.1, without_value(out.2))
}

/// Whether an outcome leaves the word to the decoders that follow.
pub open spec fn declined(out: (CpuState, MemState, Seen<bool>)) -> bool {
    out.2 == Ok::<bool, TrapView>(false)
}

/// The branches, breakpoints and calls that are decoded before everything
/// else.
pub open spec fn arm_early(s: CpuState, instr: u32, pc: u32) -> Option<(CpuState, Seen<()>)> {
    let target = s.ra(f4(instr, 0), pc);
    let key = instr & 0x0fff_fff0;
    if key == 0x012f_ff10 || key == 0x012f_ff20 {
        Some(fin(s.jump(target)))
    } else if key == 0x012f_ff30 {
        let s1 = s.with_r(14, pc.wrapping_add(4));
        Some(fin(s1.jump(s1.ra(f4(instr, 0), pc))))
    } else if instr & 0x0ff0_00f0 == 0x0120_0070 {
        Some(
            (s, Err(TrapView::Breakpoint { pc, comment: ((instr >> 4) & 0xfff0) | (instr & 0xf) })),
        )
    } else if instr & 0xfff0_00f0 == 0xe7f0_00f0 {
        Some(undefined(s, pc, instr))
    } else if instr & 0x0f00_0000 == 0x0f00_0000 {
        Some((s, Err(TrapView::SoftwareInterrupt { pc, comment: instr & 0x00ff_ffff })))
    } else if instr & 0x0fff_f000 == 0x0320_f000 {
        Some(fin(s))
    } else {
        None
    }
}

/// The instruction classes that remain when no earlier decoder took the word.
pub open spec fn arm_class(s: CpuState, m: MemState, instr: u32, pc: u32) -> (
    CpuState,
    MemState,
    Seen<()>,
) {
    let class = (instr >> 25) & 7;
    if class == 5 {
        (arm_branch(s, instr, pc), m, Ok(()))
    } else if class == 4 {
        arm_block_transfer(s, m, instr, pc)
    } else if class == 2 || class == 3 {
        arm_single_transfer(s, m, instr, pc)
    } else if (instr >> 26) & 3 == 0 {
        beside(arm_data_processing(s, instr, pc), m)
    } else {
        beside(undefined(s, pc, instr), m)
    }
}

/// A conditional A32 word whose condition holds: the first decoder that takes
/// it decides.
pub open spec fn arm_conditional(s: CpuState, m: MemState, instr: u32, pc: u32) -> (
    CpuState,
    MemState,
    Seen<()>,
) {
    if let Some(out) = arm_early(s, instr, pc) {
        beside(out, m)
    } else if !declined(vfp(s, m, instr, pc)) {
        settled(vfp(s, m, instr, pc))
    } else if !declined(beside(arm_coprocessor(s, instr, pc), m)) {
        settled(beside(arm_coprocessor(s, instr, pc), m))
    } else if !declined(arm_misc(s, m, instr, pc)) {
        settled(arm_misc(s, m, instr, pc))
    } else if !declined(beside(arm_multiply(s, instr, pc), m)) {
        settled(beside(arm_multiply(s, instr, pc), m))
    } else if !declined(arm_halfword_transfer(s, m, instr, pc)) {
        settled(arm_halfword_transfer(s, m, instr, pc))
    } else {
        arm_class(s, m, instr, pc)
    }
}

/// What an A32 word does.
pub open spec fn arm(s: CpuState, m: MemState, instr: u32, pc: u32) -> (
    CpuState,
    MemState,
    Seen<()>,
) {
    let cond = (instr >> 28) & 0xf;
    if instr & 0xfe00_0000 == 0xfa00_0000 {
        (arm_blx(s, instr, pc), m, Ok(()))
    } else if instr == 0xf57f_f01f {
        (s.with_reservation(None), m, Ok(()))
    } else if cond == 0xf {
        if !declined(neon(s, m, instr, pc)) {
            settled(neon(s, m, instr, pc))
        } else if !declined(beside(arm_unconditional(s, instr, pc), m)) {
            settled(beside(arm_unconditional(s, instr, pc), m))
        } else {
            beside(undefined(s, pc, instr), m)
        }
    } else if !holds(cond, s.cpsr) {
        (s, m, Ok(()))
    } else {
        arm_conditional(s, m, instr, pc)
    }
}

/// The A32 vector word that a 32-bit Thumb instruction corresponds to, if it
/// lies in the data-processing part of the vector space.
pub open spec fn t32_neon_data(word: u32) -> Option<u32> {
    if word & 0xef00_0000 == 0xef00_0000 {
        Some((word & 0xe2ff_ffff) | ((word & (1u32 << 28)) >> 4) | (1u32 << 28))
    } else {
        None
    }
}

/// The same for the load and store part.
pub open spec fn t32_neon_memory(word: u32) -> Option<u32> {
    if word & 0xff10_0000 == 0xf900_0000 {
        Some((word & 0x00ff_ffff) | 0xf400_0000)
    } else {
        None
    }
}

/// A vector word tried, if there is one.
pub open spec fn try_neon(s: CpuState, m: MemState, word: Option<u32>, pc: u32) -> (
    CpuState,
    MemState,
    Seen<bool>,
) {
    match word {
        Some(w) => neon(s, m, w, pc),
        None => beside(passed(s), m),
    }
}

/// What a 32-bit Thumb instruction does.
pub open spec fn thumb32(s: CpuState, m: MemState, first: u16, second: u16, pc: u32) -> (
    CpuState,
    MemState,
    Seen<()>,
) {
    let word = ((first as u32) << 16) | (second as u32);
    if !declined(try_neon(s, m, t32_neon_data(word), pc)) {
        settled(try_neon(s, m, t32_neon_data(word), pc))
    } else if !declined(try_neon(s, m, t32_neon_memory(word), pc)) {
        settled(try_neon(s, m, t32_neon_memory(word), pc))
    } else if !declined(vfp(s, m, word, pc)) {
        settled(vfp(s, m, word, pc))
    } else if !declined(beside(t32_hint(s, first, second), m)) {
        settled(beside(t32_hint(s, first, second), m))
    } else if !declined(t32_exclusive(s, m, first, second)) {
        settled(t32_exclusive(s, m, first, second))
    } else {
        t32_core(s, m, first, second, pc)
    }
}

/// Whether the next instruction of an IT block is to be carried out, and the
/// state with its condition taken.
pub open spec fn it_step(s: CpuState) -> (CpuState, bool) {
    if s.it.len() == 0 {
        (s, true)
    } else {
        let s1 = s.with_it(s.it.drop_first());
        (s1, holds(s.it[0], s1.cpsr))
    }
}

/// One instruction fetched and carried out.
pub open spec fn step(s: CpuState, m: MemState) -> (CpuState, MemState, Seen<()>) {
    let pc = s.r(15);
    if !s.cpsr.t {
        match m.load32(pc) {
            Err(t) => (s, m, Err(t)),
            Ok(instr) => arm(s.with_r(15, pc.wrapping_add(4)), m, instr, pc),
        }
    } else {
        match m.load16(pc) {
            Err(t) => (s, m, Err(t)),
            Ok(first) => if wide_prefix(first) {
                match m.load16(pc.wrapping_add(2)) {
                    Err(t) => (s, m, Err(t)),
                    Ok(second) => {
                        let (s1, go) = it_step(s.with_r(15, pc.wrapping_add(4)));
                        if go {
                            thumb32(s1, m, first, second, pc)
                        } else {
                            (s1, m, Ok(()))
                        }
                    },
                }
            } else {
                let s0 = s.with_r(15, pc.wrapping_add(2));
                if first & 0xff00 == 0xbf00 {
                    thumb(s0, m, first, pc)
                } else {
                    let (s1, go) = it_step(s0);
                    if go {
                        thumb(s1, m, first, pc)
                    } else {
                        (s1, m, Ok(()))
                    }
                }
            },
        }
    }
}

/// Up to `n` steps: the first trap ends the run, and so does the budget.
pub open spec fn run(s: CpuState, m: MemState, n: nat) -> (CpuState, MemState, Seen<()>)
    decreases n,
{
    if n == 0 {
        (s, m, Err(TrapView::StepLimit))
    } else {
        match step(s, m) {
            (s1, m1, Ok(_)) => run(s1, m1, (n - 1) as nat),
            (s1, m1, Err(t)) => (s1, m1, Err(t)),
        }
    }
}

impl Cpu {
    fn exec_arm_early(&mut self, instr: u32, pc: u32) -> (r: Option<Result<()>>)
        ensures
            match arm_early(old(self)@, instr, pc) {
                Some(out) => r is Some && (final(self)@, seen(r->0)) == out,
                None => r is None && final(self)@ == old(self)@,
            },
    {
        let key = instr & 0x0fff_fff0;
        let rm = field4(instr, 0);
        if key == 0x012f_ff10 || key == 0x012f_ff20 {
            let target = self.arm_read_reg(rm, pc);
            self.branch_exchange(target);
            return Some(Ok(()));
        }
        if key == 0x012f_ff30 {
            self.set_reg(14, pc.wrapping_add(4));
            let target = self.arm_read_reg(rm, pc);
            self.branch_exchange(target);
            return Some(Ok(()));
        }
        if instr & 0x0ff0_00f0 == 0x0120_0070 {
            return Some(
                Err(Trap::Breakpoint { pc, comment: ((instr >> 4) & 0xfff0) | (instr & 0xf) }),
            );
        }
        if instr & 0xfff0_00f0 == 0xe7f0_00f0 {
            return Some(Err(Trap::UndefinedArm { pc, instr }));
        }
        if instr & 0x0f00_0000 == 0x0f00_0000 {
            return Some(Err(Trap::SoftwareInterrupt { pc, comment: instr & 0x00ff_ffff }));
        }
        if instr & 0x0fff_f000 == 0x0320_f000 {
            return Some(Ok(()));
        }
        None
    }

    fn exec_arm_class<M: Memory>(&mut self, instr: u32, pc: u32, mem: &mut M) -> (r: Result<()>)
        ensures
            (final(self)@, final(mem).state(), seen(r)) == arm_class(
                old(self)@,
                old(mem).state(),
                instr,
                pc,
            ),
    {
        match (instr >> 25) & 7 {
            5 => self.exec_arm_branch(instr, pc),
            4 => self.exec_arm_block_transfer(instr, pc, mem),
            2 | 3 => self.exec_arm_single_transfer(instr, pc, mem),
            _ => {
                if (instr >> 26) & 3 == 0 {
                    self.exec_arm_data_processing(instr, pc)
                } else {
                    Err(Trap::UndefinedArm { pc, instr })
                }
            },
        }
    }

    /// Executes an A32 word that was fetched from `pc`.
    pub fn execute_arm<M: Memory>(&mut self, instr: u32, pc: u32, mem: &mut M) -> (r: Result<()>)
        ensures
            (final(self)@, final(mem).state(), seen(r)) == arm(
                old(self)@,
                old(mem).state(),
                instr,
                pc,
            ),
    {
        if instr & 0xfe00_0000 == 0xfa00_0000 {
            return self.exec_arm_blx_immediate(instr, pc);
        }
        if instr == 0xf57f_f01f {
            self.set_reservation(None);
            return Ok(());
        }
        let cond = (instr >> 28) & 0xf;
        if cond == 0xf {
            proof {
                neon_declines(self@, mem.state(), instr, pc);
            }
            if self.exec_arm_neon(instr, pc, mem)? {
                return Ok(());
            }
            if self.exec_arm_unconditional(instr, pc)? {
                return Ok(());
            }
            return Err(Trap::UndefinedArm { pc, instr });
        }
        if !condition_passed(cond, self.flags()) {
            return Ok(());
        }
        if let Some(r) = self.exec_arm_early(instr, pc) {
            return r;
        }
        proof {
            vfp_declines(self@, mem.state(), instr, pc);
            misc_declines(self@, mem.state(), instr, pc);
            others_decline(self@, mem.state(), instr, pc);
        }
        if self.exec_arm_vfp(instr, pc, mem)? {
            return Ok(());
        }
        if self.exec_arm_coprocessor(instr, pc)? {
            return Ok(());
        }
        if self.exec_arm_misc(instr, pc, mem)? {
            return Ok(());
        }
        if self.exec_arm_multiply(instr, pc)? {
            return Ok(());
        }
        if self.exec_arm_halfword_transfer(instr, pc, mem)? {
            return Ok(());
        }
        self.exec_arm_class(instr, pc, mem)
    }

    /// Executes a 32-bit Thumb instruction that was fetched from `pc`.
    pub fn execute_thumb32<M: Memory>(&mut self, first: u16, second: u16, pc: u32, mem: &mut M) -> (r:
        Result<()>)
        ensures
            (final(self)@, final(mem).state(), seen(r)) == thumb32(
                old(self)@,
                old(mem).state(),
                first,
                second,
                pc,
            ),
    {
        let arm_like = ((first as u32) << 16) | (second as u32);
        if arm_like & 0xef00_0000 == 0xef00_0000 {
            let a32_neon = (arm_like & 0xe2ff_ffff) | ((arm_like & (1u32 << 28)) >> 4) | (1u32
                << 28);
            proof {
                neon_declines(self@, mem.state(), a32_neon, pc);
            }
            if self.exec_arm_neon(a32_neon, pc, mem)? {
                return Ok(());
            }
        }
        if arm_like & 0xff10_0000 == 0xf900_0000 {
            let a32_neon = (arm_like & 0x00ff_ffff) | 0xf400_0000;
            proof {
                neon_declines(self@, mem.state(), a32_neon, pc);
            }
            if self.exec_arm_neon(a32_neon, pc, mem)? {
                return Ok(());
            }
        }
        proof {
            vfp_declines(self@, mem.state(), arm_like, pc);
        }
        if self.exec_arm_vfp(arm_like, pc, mem)? {
            return Ok(());
        }
        if self.exec_thumb32_hint(first, second)? {
            return Ok(());
        }
        if self.exec_thumb32_exclusive(first, second, mem)? {
            return Ok(());
        }
        self.exec_thumb32_core(first, second, pc, mem)
    }

    /// Whether the next instruction of an IT block is to be carried out.
    fn take_it_condition(&mut self) -> (r: bool)
        ensures
            (final(self)@, r) == it_step(old(self)@),
    {
        match self.consume_thumb_it_condition() {
            Some(cond) => condition_passed(cond, self.flags()),
            None => true,
        }
    }

    /// Fetches and executes one instruction.
    pub fn step<M: Memory>(&mut self, mem: &mut M) -> (r: Result<()>)
        ensures
            (final(self)@, final(mem).state(), seen(r)) == step(old(self)@, old(mem).state()),
    {
        let pc = self.pc();
        if self.flags().t {
            let instr = mem.load16(pc)?;
            if thumb_is_32bit_prefix(instr) {
                let second = mem.load16(pc.wrapping_add(2))?;
                self.set_pc(pc.wrapping_add(4));
                if !self.take_it_condition() {
                    return Ok(());
                }
                self.execute_thumb32(instr, second, pc, mem)
            } else {
                self.set_pc(pc.wrapping_add(2));
                if instr & 0xff00 != 0xbf00 {
                    if !self.take_it_condition() {
                        return Ok(());
                    }
                }
                self.execute_thumb(instr, pc, mem)
            }
        } else {
            let instr = mem.load32(pc)?;
            self.set_pc(pc.wrapping_add(4));
            self.execute_arm(instr, pc, mem)
        }
    }

    /// Executes until something traps, or `max_steps` instructions are done.
    pub fn run<M: Memory>(&mut self, mem: &mut M, max_steps: usize) -> (r: Result<()>)
        ensures
            (final(self)@, final(mem).state(), seen(r)) == run(
                old(self)@,
                old(mem).state(),
                max_steps as nat,
            ),
            r is Err,
    {
        let mut left: usize = max_steps;
        while left > 0
            invariant
                left <= max_steps,
                run(old(self)@, old(mem).state(), max_steps as nat) == run(
                    self@,
                    mem.state(),
                    left as nat,
                ),
            decreases left,
        {
            self.step(mem)?;
            left -= 1;
        }
        Err(Trap::StepLimit)
    }
}

/// A word that is no vector instruction changes nothing.
pub proof fn neon_declines(s: CpuState, m: MemState, instr: u32, pc: u32)
    ensures
        declined(neon(s, m, instr, pc)) ==> neon(s, m, instr, pc).0 == s && neon(
            s,
            m,
            instr,
            pc,
        ).1 == m,
{
    reveal(neon);
}

/// A word that is no floating-point instruction changes nothing.
pub proof fn vfp_declines(s: CpuState, m: MemState, instr: u32, pc: u32)
    ensures
        declined(vfp(s, m, instr, pc)) ==> vfp(s, m, instr, pc).0 == s && vfp(s, m, instr, pc).1
            == m,
{
    reveal(vfp);
}

/// A word that is no miscellaneous instruction changes nothing.
pub proof fn misc_declines(s: CpuState, m: MemState, instr: u32, pc: u32)
    ensures
        declined(arm_misc(s, m, instr, pc)) ==> arm_misc(s, m, instr, pc).0 == s && arm_misc(
            s,
            m,
            instr,
            pc,
        ).1 == m,
{
    reveal(arm_misc);
}

/// A word that is no coprocessor transfer, multiplication or halfword transfer
/// changes nothing.
pub proof fn others_decline(s: CpuState, m: MemState, instr: u32, pc: u32)
    ensures
        arm_coprocessor(s, instr, pc).1 == Ok::<bool, TrapView>(false) ==> arm_coprocessor(
            s,
            instr,
            pc,
        ).0 == s,
        arm_multiply(s, instr, pc).1 == Ok::<bool, TrapView>(false) ==> arm_multiply(
            s,
            instr,
            pc,
        ).0 == s,
        declined(arm_halfword_transfer(s, m, instr, pc)) ==> arm_halfword_transfer(
            s,
            m,
            instr,
            pc,
        ).0 == s && arm_halfword_transfer(s, m, instr, pc).1 == m,
{
    reveal(arm_coprocessor);
    reveal(arm_multiply);
    reveal(arm_halfword_transfer);
}

/// A run of `a + b` steps is a run of `a` steps, and where that one used up
/// its budget, a run of `b` more.
pub proof fn run_in_two_parts(s: CpuState, m: MemState, a: nat, b: nat)
    ensures
        ({
            let (s1, m1, r1) = run(s, m, a);
            run(s, m, a + b) == if r1 == Err::<(), TrapView>(TrapView::StepLimit) && ends_on_budget(
                s,
                m,
                a,
            ) {
                run(s1, m1, b)
            } else {
                (s1, m1, r1)
            }
        }),
    decreases a,
{
    if a > 0 {
        match step(s, m) {
            (s1, m1, Ok(_)) => run_in_two_parts(s1, m1, (a - 1) as nat, b),
            _ => {},
        }
    }
}

/// Whether `n` steps go through without a trap.
pub open spec fn ends_on_budget(s: CpuState, m: MemState, n: nat) -> bool
    decreases n,
{
    n == 0 || (step(s, m).2 is Ok && ends_on_budget(step(s, m).0, step(s, m).1, (n - 1) as nat))
}

/// A conditional word whose condition fails changes nothing.
pub proof fn failed_condition_does_nothing(s: CpuState, m: MemState, instr: u32, pc: u32)
    requires
        (instr >> 28) & 0xf != 0xf,
        !holds((instr >> 28) & 0xf, s.cpsr),
    ensures
        arm(s, m, instr, pc) == (s, m, Ok::<(), TrapView>(())),
{
    assert((instr >> 28) & 0xf != 0xf ==> instr & 0xfe00_0000 != 0xfa00_0000 && instr
        != 0xf57f_f01f) by (bit_vector);
}

} // verus!

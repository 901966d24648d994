//! Why an instruction did not complete.

use crate::text::{hex, hex16, hex16_text, hex32, hex32_text, hex_text, join, join4};
use vstd::prelude::*;
use vstd::string::StringExecFns;

verus! {

/// What a machine operation gives back.
pub type Result<T> = core::result::Result<T, Trap>;

/// An event that stops execution.
#[allow(inconsistent_fields)]
#[derive(Debug, Clone, PartialEq, Eq)]
pub enum Trap {
    /// A memory access was refused.
    Memory(String),
    /// An A32 word has no meaning here.
    UndefinedArm { pc: u32, instr: u32 },
    /// A Thumb halfword has no meaning here.
    UndefinedThumb { pc: u32, instr: u16 },
    /// The architecture leaves the operation unpredictable.
    Unpredictable(&'static str),
    /// The operation needs a privileged mode.
    Privileged { pc: u32, instr: u32, operation: &'static str },
    /// A supervisor call.
    SoftwareInterrupt { pc: u32, comment: u32 },
    /// A breakpoint instruction.
    Breakpoint { pc: u32, comment: u32 },
    /// The step budget was used up.
    StepLimit,
}

/// A [`Trap`] as a mathematical value: its texts are sequences of characters.
#[allow(inconsistent_fields)]
pub enum TrapView {
    Memory(Seq<char>),
    UndefinedArm { pc: u32, instr: u32 },
    UndefinedThumb { pc: u32, instr: u16 },
    Unpredictable(Seq<char>),
    Privileged { pc: u32, instr: u32, operation: Seq<char> },
    SoftwareInterrupt { pc: u32, comment: u32 },
    Breakpoint { pc: u32, comment: u32 },
    StepLimit,
}

impl View for Trap {
    type V = TrapView;

    open spec fn view(&self) -> TrapView {
        match self {
            Trap::Memory(err) => TrapView::Memory(err@),
            Trap::UndefinedArm { pc, instr } => TrapView::UndefinedArm { pc: *pc, instr: *instr },
            Trap::UndefinedThumb { pc, instr } => TrapView::UndefinedThumb {
                pc: *pc,
                instr: *instr,
            },
            Trap::Unpredictable(what) => TrapView::Unpredictable(what@),
            Trap::Privileged { pc, instr, operation } => TrapView::Privileged {
                pc: *pc,
                instr: *instr,
                operation: operation@,
            },
            Trap::SoftwareInterrupt { pc, comment } => TrapView::SoftwareInterrupt {
                pc: *pc,
                comment: *comment,
            },
            Trap::Breakpoint { pc, comment } => TrapView::Breakpoint { pc: *pc, comment: *comment },
            Trap::StepLimit => TrapView::StepLimit,
        }
    }
}

/// A machine result with its trap taken by view.
pub open spec fn seen<T>(r: Result<T>) -> core::result::Result<T, TrapView> {
    match r {
        Ok(v) => Ok(v),
        Err(t) => Err(t@),
    }
}

impl TrapView {
    /// The message for this trap.
    pub open spec fn text(self) -> Seq<char> {
        match self {
            TrapView::Memory(err) => "memory error: "@ + err,
            TrapView::UndefinedArm { pc, instr } => "undefined ARM instruction "@ + hex32_text(
                instr,
            ) + " at "@ + hex32_text(pc),
            TrapView::UndefinedThumb { pc, instr } => "undefined Thumb instruction "@
                + hex16_text(instr) + " at "@ + hex32_text(pc),
            TrapView::Unpredictable(what) => "unpredictable instruction behavior: "@ + what,
            TrapView::Privileged { pc, instr, operation } => "privileged "@ + operation
                + " instruction "@ + hex32_text(instr) + (" at "@ + hex32_text(pc)),
            TrapView::SoftwareInterrupt { pc, comment } => "software interrupt "@ + hex_text(
                comment as nat,
            ) + " at "@ + hex32_text(pc),
            TrapView::Breakpoint { pc, comment } => "breakpoint "@ + hex_text(comment as nat)
                + " at "@ + hex32_text(pc),
            TrapView::StepLimit => "step limit reached"@,
        }
    }
}

impl Trap {
    /// The message for this trap.
    pub fn to_string(&self) -> (r: String)
        ensures
            r@ == self@.text(),
    {
        match self {
            Trap::Memory(err) => join("memory error: ", err.as_str()),
            Trap::UndefinedArm { pc, instr } => join4(
                "undefined ARM instruction ",
                hex32(*instr).as_str(),
                " at ",
                hex32(*pc).as_str(),
            ),
            Trap::UndefinedThumb { pc, instr } => join4(
                "undefined Thumb instruction ",
                hex16(*instr).as_str(),
                " at ",
                hex32(*pc).as_str(),
            ),
            Trap::Unpredictable(what) => join("unpredictable instruction behavior: ", what),
            Trap::Privileged { pc, instr, operation } => {
                let head = join4(
                    "privileged ",
                    operation,
                    " instruction ",
                    hex32(*instr).as_str(),
                );
                join(head.as_str(), join(" at ", hex32(*pc).as_str()).as_str())
            },
            Trap::SoftwareInterrupt { pc, comment } => join4(
                "software interrupt ",
                hex(*comment as u64).as_str(),
                " at ",
                hex32(*pc).as_str(),
            ),
            Trap::Breakpoint { pc, comment } => join4(
                "breakpoint ",
                hex(*comment as u64).as_str(),
                " at ",
                hex32(*pc).as_str(),
            ),
            Trap::StepLimit => String::from_str("step limit reached"),
        }
    }
}

} // verus!

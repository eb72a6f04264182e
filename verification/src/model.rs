//! The mathematical model of the machine and its small-step semantics.
//!
//! `MachineModel` is the ghost image of the executable machine state.
//! `spec_step` gives the meaning of one fetch-decode-execute cycle, and
//! `run_for` iterates it for a given number of cycles.  The executable
//! interpreter is specified against these functions.

use vstd::prelude::*;

use crate::opcode::op_c;
use crate::opcode::op_d;
use crate::opcode::op_nnn;
use crate::opcode::op_x;
use crate::opcode::op_y;
use crate::opcode::word_at;

verus! {

/// Number of general registers.
pub const REGISTER_COUNT: usize = 16;

/// Number of memory cells.
pub const MEMORY_SIZE: usize = 4096;

/// Capacity of the call stack.
pub const STACK_DEPTH: usize = 16;

/// Index of the carry/overflow flag register.
pub const FLAG_REGISTER: usize = 15;

/// An unrecoverable interpreter fault.  Every fault ends the run; none is
/// recoverable from inside the machine.
#[derive(Clone, Copy, Debug, PartialEq, Eq, Structural)]
pub enum Fault {
    /// A call was attempted with the call stack already full.
    StackOverflow,
    /// A return was attempted with the call stack empty.
    StackUnderflow,
    /// The fetched word matches no recognized instruction pattern; carries
    /// the raw opcode.
    UnimplementedOpcode(u16),
    /// The instruction pointer does not leave room for a two-byte fetch
    /// inside memory.
    FetchOutOfBounds,
}

/// The ghost state of the machine: register file, memory, instruction
/// pointer, call stack, and stack pointer.
#[verifier::ext_equal]
pub struct MachineModel {
    /// The 16 general registers.
    pub registers: Seq<u8>,
    /// The 4096 memory cells.
    pub memory: Seq<u8>,
    /// Address of the next word to fetch.
    pub ip: int,
    /// Saved return addresses; only the first `sp` are live.
    pub stack: Seq<u16>,
    /// Number of live return addresses.
    pub sp: int,
}

/// Well-formedness of a machine model: the arrays have their fixed sizes,
/// the stack pointer is within capacity, and the instruction pointer fits
/// in an address word.
pub open spec fn model_wf(m: MachineModel) -> bool {
    &&& m.registers.len() == 16
    &&& m.memory.len() == 4096
    &&& m.stack.len() == 16
    &&& 0 <= m.sp <= 16
    &&& 0 <= m.ip <= 0xFFFF
}

/// The register file after the add instruction on registers `x` and `y`:
/// register `x` receives the 8-bit wrapped sum of the two operands, and the
/// flag register is then overwritten with the carry (1 if the true sum
/// overflowed 8 bits, else 0).
pub open spec fn regs_after_add(regs: Seq<u8>, x: int, y: int) -> Seq<u8> {
    let sum = regs[x] + regs[y];
    let wrapped: u8 = if sum >= 256 {
        (sum - 256) as u8
    } else {
        sum as u8
    };
    let flag: u8 = if sum >= 256 {
        1u8
    } else {
        0u8
    };
    regs.update(x, wrapped).update(15, flag)
}

/// The outcome of one interpreter cycle.
#[verifier::ext_equal]
pub enum StepOutcome {
    /// The cycle executed an instruction; the machine keeps running.
    Progress { m: MachineModel },
    /// The cycle fetched the halt instruction; the run ends normally.
    Halted { m: MachineModel },
    /// The cycle hit a fatal fault; the run ends abnormally.
    Faulted { m: MachineModel, f: Fault },
}

/// One fetch-decode-execute cycle.
///
/// The fetch requires two bytes of headroom; the instruction pointer is then
/// advanced past the fetched word *before* dispatch, so call and return
/// change control flow by overwriting the pre-advanced pointer.  Dispatch
/// tests the nibble patterns in order: halt `(0,0,0,0)`, add `(8,_,_,4)`,
/// return `(0,0,E,E)`, call `(2,_,_,_)`; anything else is a fault.
pub open spec fn spec_step(m: MachineModel) -> StepOutcome {
    if m.ip + 1 >= 4096 {
        StepOutcome::Faulted { m, f: Fault::FetchOutOfBounds }
    } else {
        let op = word_at(m.memory, m.ip);
        let fetched = MachineModel { ip: m.ip + 2, ..m };
        if op_c(op) == 0 && op_x(op) == 0 && op_y(op) == 0 && op_d(op) == 0 {
            StepOutcome::Halted { m: fetched }
        } else if op_c(op) == 0x8 && op_d(op) == 0x4 {
            StepOutcome::Progress {
                m: MachineModel {
                    registers: regs_after_add(
                        fetched.registers,
                        op_x(op) as int,
                        op_y(op) as int,
                    ),
                    ..fetched
                },
            }
        } else if op_c(op) == 0 && op_x(op) == 0 && op_y(op) == 0xE && op_d(op) == 0xE {
            if fetched.sp == 0 {
                StepOutcome::Faulted { m: fetched, f: Fault::StackUnderflow }
            } else {
                StepOutcome::Progress {
                    m: MachineModel {
                        ip: fetched.stack[fetched.sp - 1] as int,
                        sp: fetched.sp - 1,
                        ..fetched
                    },
                }
            }
        } else if op_c(op) == 0x2 {
            if fetched.sp >= 16 {
                StepOutcome::Faulted { m: fetched, f: Fault::StackOverflow }
            } else {
                StepOutcome::Progress {
                    m: MachineModel {
                        ip: op_nnn(op) as int,
                        stack: fetched.stack.update(fetched.sp, fetched.ip as u16),
                        sp: fetched.sp + 1,
                        ..fetched
                    },
                }
            }
        } else {
            StepOutcome::Faulted { m: fetched, f: Fault::UnimplementedOpcode(op) }
        }
    }
}

/// The machine after at most `n` cycles: `Progress` if it is still running,
/// otherwise the halt or fault it reached within `n` cycles.
pub open spec fn run_for(m: MachineModel, n: nat) -> StepOutcome
    decreases n,
{
    if n == 0 {
        StepOutcome::Progress { m }
    } else {
        match spec_step(m) {
            StepOutcome::Progress { m: next } => run_for(next, (n - 1) as nat),
            ended => ended,
        }
    }
}

/// If the machine is still running after `n` cycles, cycle `n + 1` behaves
/// as one step from the state reached.
pub proof fn lemma_run_for_extend(m0: MachineModel, mid: MachineModel, n: nat)
    requires
        run_for(m0, n) == (StepOutcome::Progress { m: mid }),
    ensures
        run_for(m0, n + 1) == spec_step(mid),
    decreases n,
{
    if n == 0 {
        match spec_step(m0) {
            StepOutcome::Progress { m: next } => {
                assert(run_for(next, 0) == (StepOutcome::Progress { m: next }));
            },
            _ => {},
        }
        assert(run_for(m0, 1) == spec_step(m0));
    } else {
        match spec_step(m0) {
            StepOutcome::Progress { m: next } => {
                lemma_run_for_extend(next, mid, (n - 1) as nat);
            },
            _ => {},
        }
    }
}

/// Termination measure for the interpreter loop, read lexicographically
/// from call-stack level 0 up to level 16.
///
/// Below the live stack top, a level is measured by the return address
/// frozen in its slot; at the live top, by the current instruction pointer;
/// above it, by a constant upper bound.  Sequential execution shrinks the
/// measure at the current level; a call freezes a value strictly below the
/// level's current measure; a return pops back to a measure strictly below
/// the frozen one.
pub open spec fn level_measure(m: MachineModel, level: int) -> int {
    if level < m.sp {
        65539 - m.stack[level]
    } else if level == m.sp {
        65538 - m.ip
    } else {
        65539
    }
}

/// Each interpreter cycle that makes progress strictly decreases the
/// lexicographic level measure.
pub proof fn lemma_step_measure(m1: MachineModel, m2: MachineModel)
    requires
        model_wf(m1),
        spec_step(m1) == (StepOutcome::Progress { m: m2 }),
    ensures
        exists|j: int|
            0 <= j <= 16 && level_measure(m2, j) < level_measure(m1, j) && (forall|i: int|
                0 <= i < j ==> level_measure(m2, i) == level_measure(m1, i)),
{
    let op = word_at(m1.memory, m1.ip);
    if op_c(op) == 0x8 && op_d(op) == 0x4 {
        let j = m1.sp;
        assert(level_measure(m2, j) < level_measure(m1, j));
        assert(forall|i: int| 0 <= i < j ==> level_measure(m2, i) == level_measure(m1, i));
        assert(0 <= j <= 16);
    } else if op_c(op) == 0 && op_x(op) == 0 && op_y(op) == 0xE && op_d(op) == 0xE {
        let j = m1.sp - 1;
        assert(level_measure(m2, j) < level_measure(m1, j));
        assert(forall|i: int| 0 <= i < j ==> level_measure(m2, i) == level_measure(m1, i));
        assert(0 <= j <= 16);
    } else {
        let j = m1.sp;
        assert(level_measure(m2, j) < level_measure(m1, j));
        assert(forall|i: int| 0 <= i < j ==> level_measure(m2, i) == level_measure(m1, i));
        assert(0 <= j <= 16);
    }
}

} // verus!

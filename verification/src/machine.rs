//! The executable machine: state, loader, decoder, and interpreter loop.

use vstd::prelude::*;

use crate::model::Fault;
use crate::model::MachineModel;
use crate::model::StepOutcome;
use crate::model::FLAG_REGISTER;
use crate::model::MEMORY_SIZE;
use crate::model::REGISTER_COUNT;
use crate::model::STACK_DEPTH;
use crate::model::lemma_run_for_extend;
use crate::model::lemma_step_measure;
use crate::model::level_measure;
use crate::model::model_wf;
use crate::model::regs_after_add;
use crate::model::run_for;
use crate::model::spec_step;
use crate::opcode::lemma_nibble_range;
use crate::opcode::op_x;
use crate::opcode::op_y;
use crate::opcode::stored_word;
use crate::opcode::word_at;

verus! {

/// How one interpreter cycle ended.
#[derive(Clone, Copy, Debug, PartialEq, Eq, Structural)]
pub enum StepResult {
    /// An instruction executed; the machine can keep running.
    Stepped,
    /// The halt instruction was fetched.
    Halted,
    /// A fatal fault was hit.
    Faulted(Fault),
}

/// The machine state: registers, memory, instruction pointer, call stack,
/// and stack pointer.  The fields are public so a driver can seed inputs
/// before a run and inspect outputs afterwards; every method requires the
/// state to be well formed (`wf`) and preserves that.
pub struct CPU {
    /// The 16 general registers; register 15 doubles as the carry flag.
    pub registers: Vec<u8>,
    /// Address of the next instruction word to fetch.
    pub position_in_memory: usize,
    /// The 4096 memory cells.
    pub memory: Vec<u8>,
    /// The 16 call-stack slots; only the first `stack_pointer` are live.
    pub stack: Vec<u16>,
    /// Number of live return addresses on the call stack.
    pub stack_pointer: usize,
}

impl View for CPU {
    type V = MachineModel;

    open spec fn view(&self) -> MachineModel {
        MachineModel {
            registers: self.registers@,
            memory: self.memory@,
            ip: self.position_in_memory as int,
            stack: self.stack@,
            sp: self.stack_pointer as int,
        }
    }
}

/// A vector of `n` copies of `value`.
fn filled<T: Copy>(n: usize, value: T) -> (v: Vec<T>)
    ensures
        v@.len() == n,
        forall|i: int| 0 <= i < n ==> v@[i] == value,
{
    let mut v: Vec<T> = Vec::new();
    while v.len() < n
        invariant
            v@.len() <= n,
            forall|i: int| 0 <= i < v@.len() ==> v@[i] == value,
        decreases n - v@.len(),
    {
        v.push(value);
    }
    v
}

impl CPU {
    /// Well-formedness: the arrays have their fixed sizes, the stack
    /// pointer is within capacity, and the instruction pointer fits in an
    /// address word.
    pub open spec fn wf(&self) -> bool {
        model_wf(self@)
    }

    /// A freshly zeroed machine.
    pub fn new() -> (cpu: CPU)
        ensures
            cpu.wf(),
            cpu@.ip == 0,
            cpu@.sp == 0,
            forall|i: int| 0 <= i < 16 ==> cpu@.registers[i] == 0,
            forall|i: int| 0 <= i < 4096 ==> cpu@.memory[i] == 0,
            forall|i: int| 0 <= i < 16 ==> cpu@.stack[i] == 0,
    {
        CPU {
            registers: filled(REGISTER_COUNT, 0u8),
            position_in_memory: 0,
            memory: filled(MEMORY_SIZE, 0u8),
            stack: filled(STACK_DEPTH, 0u16),
            stack_pointer: 0,
        }
    }

    /// Writes the 16-bit word `opcode` into memory at `address` and
    /// `address + 1`, most-significant byte first.  The caller must pick an
    /// address with room for both bytes; nothing else changes.
    pub fn program(&mut self, address: usize, opcode: u16)
        requires
            old(self).wf(),
            address + 1 < 4096,
        ensures
            final(self).wf(),
            final(self)@ == (MachineModel {
                memory: stored_word(old(self)@.memory, address as int, opcode),
                ..old(self)@
            }),
    {
        self.memory.set(address, (opcode >> 8) as u8);
        self.memory.set(address + 1, opcode as u8);
    }

    /// The 16-bit word at the instruction pointer, first byte as the
    /// high-order bits.
    pub fn read_opcode(&self) -> (op: u16)
        requires
            self.wf(),
            self@.ip + 1 < 4096,
        ensures
            op == word_at(self@.memory, self@.ip),
    {
        let op_byte1 = self.memory[self.position_in_memory] as u16;
        let op_byte2 = self.memory[self.position_in_memory + 1] as u16;
        (op_byte1 << 8) | op_byte2
    }

    /// Adds register `y` into register `x` with 8-bit wraparound, then
    /// overwrites the flag register with 1 if the sum overflowed 8 bits,
    /// else 0.
    pub fn add_xy(&mut self, x: u8, y: u8)
        requires
            old(self).wf(),
            x < 16,
            y < 16,
        ensures
            final(self).wf(),
            final(self)@ == (MachineModel {
                registers: regs_after_add(old(self)@.registers, x as int, y as int),
                ..old(self)@
            }),
    {
        let arg1 = self.registers[x as usize];
        let arg2 = self.registers[y as usize];
        let total: u16 = arg1 as u16 + arg2 as u16;
        let val: u8 = if total >= 256 {
            (total - 256) as u8
        } else {
            total as u8
        };
        let flag: u8 = if total >= 256 {
            1
        } else {
            0
        };
        self.registers.set(x as usize, val);
        self.registers.set(FLAG_REGISTER, flag);
    }

    /// Pushes the current instruction pointer and jumps to `addr`.  Fails
    /// with `Fault::StackOverflow`, changing nothing, exactly when the call
    /// stack is already full.
    pub fn call(&mut self, addr: u16) -> (r: Result<(), Fault>)
        requires
            old(self).wf(),
        ensures
            final(self).wf(),
            (match r {
                Ok(()) => old(self)@.sp < 16 && final(self)@ == (MachineModel {
                    ip: addr as int,
                    stack: old(self)@.stack.update(old(self)@.sp, old(self)@.ip as u16),
                    sp: old(self)@.sp + 1,
                    ..old(self)@
                }),
                Err(f) => f == Fault::StackOverflow && old(self)@.sp >= 16 && final(self)@
                    == old(self)@,
            }),
    {
        if self.stack_pointer >= self.stack.len() {
            return Err(Fault::StackOverflow);
        }
        self.stack.set(self.stack_pointer, self.position_in_memory as u16);
        self.stack_pointer = self.stack_pointer + 1;
        self.position_in_memory = addr as usize;
        Ok(())
    }

    /// Pops the most recently saved return address into the instruction
    /// pointer.  Fails with `Fault::StackUnderflow`, changing nothing,
    /// exactly when the call stack is empty.
    pub fn ret(&mut self) -> (r: Result<(), Fault>)
        requires
            old(self).wf(),
        ensures
            final(self).wf(),
            (match r {
                Ok(()) => old(self)@.sp > 0 && final(self)@ == (MachineModel {
                    ip: old(self)@.stack[old(self)@.sp - 1] as int,
                    sp: old(self)@.sp - 1,
                    ..old(self)@
                }),
                Err(f) => f == Fault::StackUnderflow && old(self)@.sp == 0 && final(self)@
                    == old(self)@,
            }),
    {
        if self.stack_pointer == 0 {
            return Err(Fault::StackUnderflow);
        }
        self.stack_pointer = self.stack_pointer - 1;
        self.position_in_memory = self.stack[self.stack_pointer] as usize;
        Ok(())
    }

    /// One fetch-decode-execute cycle, exactly as `spec_step` describes it.
    pub fn step(&mut self) -> (r: StepResult)
        requires
            old(self).wf(),
        ensures
            final(self).wf(),
            (match r {
                StepResult::Stepped => spec_step(old(self)@) == (StepOutcome::Progress {
                    m: final(self)@,
                }),
                StepResult::Halted => spec_step(old(self)@) == (StepOutcome::Halted {
                    m: final(self)@,
                }),
                StepResult::Faulted(f) => spec_step(old(self)@) == (StepOutcome::Faulted {
                    m: final(self)@,
                    f,
                }),
            }),
    {
        let ghost m0 = self@;
        if self.position_in_memory + 1 >= MEMORY_SIZE {
            return StepResult::Faulted(Fault::FetchOutOfBounds);
        }
        let opcode = self.read_opcode();
        self.position_in_memory = self.position_in_memory + 2;
        let ghost fetched = self@;
        proof {
            lemma_nibble_range(opcode);
            assert(fetched == (MachineModel { ip: m0.ip + 2, ..m0 }));
        }
        let c: u8 = ((opcode & 0xF000) >> 12) as u8;
        let x: u8 = ((opcode & 0x0F00) >> 8) as u8;
        let y: u8 = ((opcode & 0x00F0) >> 4) as u8;
        let d: u8 = (opcode & 0x000F) as u8;
        let nnn: u16 = opcode & 0x0FFF;
        match (c, x, y, d) {
            (0, 0, 0, 0) => StepResult::Halted,
            (0x8, _, _, 0x4) => {
                self.add_xy(x, y);
                proof {
                    assert(self@ == (MachineModel {
                        registers: regs_after_add(
                            fetched.registers,
                            op_x(opcode) as int,
                            op_y(opcode) as int,
                        ),
                        ..fetched
                    }));
                }
                StepResult::Stepped
            },
            (0, 0, 0xE, 0xE) => {
                match self.ret() {
                    Ok(()) => StepResult::Stepped,
                    Err(f) => StepResult::Faulted(f),
                }
            },
            (0x2, _, _, _) => {
                match self.call(nnn) {
                    Ok(()) => StepResult::Stepped,
                    Err(f) => StepResult::Faulted(f),
                }
            },
            _ => StepResult::Faulted(Fault::UnimplementedOpcode(opcode)),
        }
    }

    /// The fetch-decode-execute loop: repeats `step` until the machine
    /// halts or faults.  The result and the final state are exactly those
    /// that iterating `spec_step` from the starting state reaches.
    #[verifier::loop_isolation(false)]
    pub fn run(&mut self) -> (r: Result<(), Fault>)
        requires
            old(self).wf(),
        ensures
            final(self).wf(),
            (match r {
                Ok(()) => exists|n: nat|
                    run_for(old(self)@, n) == (StepOutcome::Halted { m: final(self)@ }),
                Err(f) => exists|n: nat|
                    run_for(old(self)@, n) == (StepOutcome::Faulted { m: final(self)@, f }),
            }),
    {
        let ghost m0 = self@;
        let ghost mut steps: nat = 0;
        loop
            invariant
                self.wf(),
                run_for(m0, steps) == (StepOutcome::Progress { m: self@ }),
            decreases
                level_measure(self@, 0),
                level_measure(self@, 1),
                level_measure(self@, 2),
                level_measure(self@, 3),
                level_measure(self@, 4),
                level_measure(self@, 5),
                level_measure(self@, 6),
                level_measure(self@, 7),
                level_measure(self@, 8),
                level_measure(self@, 9),
                level_measure(self@, 10),
                level_measure(self@, 11),
                level_measure(self@, 12),
                level_measure(self@, 13),
                level_measure(self@, 14),
                level_measure(self@, 15),
                level_measure(self@, 16),
        {
            let ghost mcur = self@;
            let res = self.step();
            proof {
                lemma_run_for_extend(m0, mcur, steps);
                steps = steps + 1;
            }
            match res {
                StepResult::Stepped => {
                    proof {
                        lemma_step_measure(mcur, self@);
                    }
                },
                StepResult::Halted => {
                    proof {
                        assert(run_for(m0, steps) == (StepOutcome::Halted { m: self@ }));
                    }
                    return Ok(());
                },
                StepResult::Faulted(f) => {
                    proof {
                        assert(run_for(m0, steps) == (StepOutcome::Faulted { m: self@, f }));
                    }
                    return Err(f);
                },
            }
        }
    }
}

} // verus!

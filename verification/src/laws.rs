//! Machine-wide properties proved once and for all.

use vstd::prelude::*;

use crate::model::MachineModel;
use crate::model::StepOutcome;
use crate::model::model_wf;
use crate::model::regs_after_add;
use crate::model::run_for;
use crate::model::spec_step;
use crate::opcode::hi_byte;
use crate::opcode::lo_byte;
use crate::opcode::op_c;
use crate::opcode::op_d;
use crate::opcode::op_nnn;
use crate::opcode::op_x;
use crate::opcode::op_y;
use crate::opcode::stored_word;
use crate::opcode::word_at;
use crate::opcode::word_from_bytes;

verus! {

/// Storing a 16-bit word and fetching at the same address round-trips: for
/// every in-range address `a` and every word `v`, the word read back from
/// `stored_word(mem, a, v)` at `a` is exactly `v`.
pub proof fn lemma_opcode_round_trip(mem: Seq<u8>, a: int, v: u16)
    requires
        0 <= a,
        a + 1 < mem.len(),
    ensures
        word_at(stored_word(mem, a, v), a) == v,
{
    let written = stored_word(mem, a, v);
    assert(written[a] == hi_byte(v));
    assert(written[a + 1] == lo_byte(v));
    assert(word_from_bytes(hi_byte(v), lo_byte(v)) == v) by {
        assert((((v >> 8) as u8 as u16) << 8) | (v as u8 as u16) == v) by (bit_vector);
    }
}

/// Correctness of the add instruction's result and carry flag: for every
/// pair of register indices, register `x` afterwards holds the sum of the
/// two operands modulo 256 (unless `x` is the flag register itself, which
/// the flag overwrites), and the flag register holds 1 exactly when the sum
/// reached 256.
pub proof fn lemma_overflow_flag(regs: Seq<u8>, x: int, y: int)
    requires
        regs.len() == 16,
        0 <= x < 16,
        0 <= y < 16,
    ensures
        regs_after_add(regs, x, y).len() == 16,
        regs_after_add(regs, x, y)[15] == 1 <==> regs[x] + regs[y] >= 256,
        regs_after_add(regs, x, y)[15] == 0 <==> regs[x] + regs[y] < 256,
        x != 15 ==> regs_after_add(regs, x, y)[x] == (regs[x] + regs[y]) % 256,
{
    let sum = regs[x] + regs[y];
    assert(0 <= sum < 512);
    if sum >= 256 {
        assert(sum % 256 == sum - 256);
    } else {
        assert(sum % 256 == sum);
    }
}

/// Call/return symmetry: from a state whose next instruction is a call to
/// `target`, and where the word at `target` is the return instruction, two
/// cycles later the machine is back at the address just past the call, with
/// the stack pointer, the registers, and memory restored.
pub proof fn lemma_call_ret_symmetry(m: MachineModel, target: u16)
    requires
        model_wf(m),
        m.sp < 16,
        m.ip + 1 < 4096,
        op_c(word_at(m.memory, m.ip)) == 2,
        op_nnn(word_at(m.memory, m.ip)) == target,
        target + 1 < 4096,
        word_at(m.memory, target as int) == 0x00EE,
    ensures
        (match run_for(m, 2) {
            StepOutcome::Progress { m: after } => {
                &&& after.ip == m.ip + 2
                &&& after.sp == m.sp
                &&& after.registers == m.registers
                &&& after.memory == m.memory
            },
            _ => false,
        }),
{
    let pushed: u16 = (m.ip + 2) as u16;
    let called = MachineModel {
        ip: target as int,
        stack: m.stack.update(m.sp, pushed),
        sp: m.sp + 1,
        ..m
    };
    assert(spec_step(m) == (StepOutcome::Progress { m: called }));
    assert(op_c(0x00EEu16) == 0) by (bit_vector);
    assert(op_x(0x00EEu16) == 0) by (bit_vector);
    assert(op_y(0x00EEu16) == 0xE) by (bit_vector);
    assert(op_d(0x00EEu16) == 0xE) by (bit_vector);
    let returned = MachineModel { ip: pushed as int, sp: m.sp, ..called };
    assert(spec_step(called) == (StepOutcome::Progress { m: returned }));
    assert(run_for(returned, 0) == (StepOutcome::Progress { m: returned }));
    assert(run_for(called, 1) == (StepOutcome::Progress { m: returned }));
    assert(run_for(m, 2) == (StepOutcome::Progress { m: returned }));
}

/// Halt termination: when the word at the instruction pointer is the
/// all-zero opcode, the very next cycle halts the machine, and no further
/// cycle runs: every cycle count from one on yields that same halt, with
/// the only change the pointer's advance past the halt word.
pub proof fn lemma_halt_terminates(m: MachineModel)
    requires
        model_wf(m),
        m.ip + 1 < 4096,
        word_at(m.memory, m.ip) == 0,
    ensures
        forall|n: nat|
            n >= 1 ==> run_for(m, n) == (StepOutcome::Halted {
                m: (MachineModel { ip: m.ip + 2, ..m }),
            }),
{
    assert(op_c(0u16) == 0) by (bit_vector);
    assert(op_x(0u16) == 0) by (bit_vector);
    assert(op_y(0u16) == 0) by (bit_vector);
    assert(op_d(0u16) == 0) by (bit_vector);
    let halted = MachineModel { ip: m.ip + 2, ..m };
    assert(spec_step(m) == (StepOutcome::Halted { m: halted }));
    assert forall|n: nat| n >= 1 implies run_for(m, n) == (StepOutcome::Halted { m: halted }) by {
        assert(run_for(m, n) == spec_step(m));
    }
}

} // verus!

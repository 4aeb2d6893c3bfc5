//! Properties of the machine that span several instructions or hold of every
//! state.

use vstd::prelude::*;
use crate::display::{blank_frame, toggled};
use crate::machine::{
    any_key, apply, decode, draw_collides, loaded, permitted, reg, word_at, Instruction, Machine,
};

verus! {

/// XOR-ing the same value into a pixel twice restores the frame.
pub proof fn lemma_toggle_twice(frame: Seq<bool>, i: int, value: bool)
    requires
        0 <= i < frame.len(),
    ensures
        toggled(toggled(frame, i, value), i, value) == frame,
{
    assert(toggled(toggled(frame, i, value), i, value) =~= frame);
}

/// Every instruction that an opcode decodes to has its operands in range.
pub proof fn lemma_decode_in_range(op: u16)
    ensures
        decode(op) matches Some(ins) ==> ins.operands_in_range(),
{
}

/// Every instruction but the random-byte one is deterministic: the byte the
/// random number generator produced does not affect it.
pub proof fn lemma_only_random_uses_randomness(m: Machine, ins: Instruction, r1: u8, r2: u8)
    requires
        !(ins is Random),
    ensures
        apply(m, ins, r1) == apply(m, ins, r2),
{
}

/// Executing an instruction that is permitted keeps every component of the
/// machine at its hardware size.
pub proof fn lemma_apply_keeps_valid(m: Machine, ins: Instruction, random: u8)
    requires
        m.valid(),
        ins.operands_in_range(),
        permitted(m, ins),
    ensures
        apply(m, ins, random).valid(),
{
}

/// Drawing the same sprite at the same place twice restores the screen, as
/// long as neither coordinate is held in VF (which the first draw may set).
pub proof fn lemma_draw_twice_restores(m: Machine, x: u8, y: u8, rows: u8, r1: u8, r2: u8)
    requires
        m.valid(),
        (Instruction::Draw { x, y, rows }).operands_in_range(),
        permitted(m, Instruction::Draw { x, y, rows }),
        x != 15,
        y != 15,
    ensures
        permitted(apply(m, Instruction::Draw { x, y, rows }, r1), Instruction::Draw { x, y, rows }),
        apply(apply(m, Instruction::Draw { x, y, rows }, r1), Instruction::Draw { x, y, rows }, r2).frame
            == m.frame,
{
    let ins = Instruction::Draw { x, y, rows };
    let m1 = apply(m, ins, r1);
    assert(reg(m1, x) == reg(m, x));
    assert(reg(m1, y) == reg(m, y));
    assert(apply(m1, ins, r2).frame =~= m.frame);
}

/// Drawing on a blank screen never reports a collision: the registers stay
/// as they were.
pub proof fn lemma_draw_on_blank(m: Machine, x: u8, y: u8, rows: u8, r: u8)
    requires
        m.valid(),
        m.frame == blank_frame(),
    ensures
        apply(m, Instruction::Draw { x, y, rows }, r).registers == m.registers,
{
    let px = reg(m, x) as int;
    let py = reg(m, y) as int;
    assert(!draw_collides(m.frame, m.memory, m.index as int, rows as int, px, py));
}

/// A call followed by a return comes back to the instruction after the call
/// with the stack depth restored; the only trace left is the return address
/// in the freed stack slot.
pub proof fn lemma_call_then_return(m: Machine, addr: u16, r1: u8, r2: u8)
    requires
        m.valid(),
        permitted(m, Instruction::Call { addr }),
    ensures
        permitted(apply(m, Instruction::Call { addr }, r1), Instruction::Return),
        apply(apply(m, Instruction::Call { addr }, r1), Instruction::Return, r2) == (Machine {
            stack: m.stack.update(m.sp as int, m.pc),
            ..m
        }),
{
}

/// Storing registers V0..=Vx to memory and loading them back gives the same
/// registers.
pub proof fn lemma_store_then_load_registers(m: Machine, x: u8, r1: u8, r2: u8)
    requires
        m.valid(),
        x < 16,
        permitted(m, Instruction::StoreRegs { x }),
    ensures
        permitted(apply(m, Instruction::StoreRegs { x }, r1), Instruction::LoadRegs { x }),
        apply(apply(m, Instruction::StoreRegs { x }, r1), Instruction::LoadRegs { x }, r2).registers
            == m.registers,
{
    let m1 = apply(m, Instruction::StoreRegs { x }, r1);
    assert(apply(m1, Instruction::LoadRegs { x }, r2).registers =~= m.registers);
}

/// The three bytes stored by the decimal-conversion instruction are the
/// hundreds, tens and units digits of the register.
pub proof fn lemma_bcd_digits(m: Machine, x: u8, r: u8)
    requires
        m.valid(),
        x < 16,
        permitted(m, Instruction::StoreBcd { x }),
    ensures
        ({
            let mem = apply(m, Instruction::StoreBcd { x }, r).memory;
            let i = m.index as int;
            &&& mem[i] <= 2
            &&& mem[i + 1] <= 9
            &&& mem[i + 2] <= 9
            &&& mem[i] * 100 + mem[i + 1] * 10 + mem[i + 2] == reg(m, x)
        }),
{
}

/// Adding registers: the result and the carry in VF together make the true
/// sum (unless the destination is VF itself).
pub proof fn lemma_add_carry(m: Machine, x: u8, y: u8, r: u8)
    requires
        m.valid(),
        x < 15,
        y < 16,
    ensures
        ({
            let m2 = apply(m, Instruction::AddReg { x, y }, r);
            &&& m2.registers[15] <= 1
            &&& reg(m2, x) + 256 * m2.registers[15] == reg(m, x) + reg(m, y)
        }),
{
}

/// Subtracting registers: VF is 1 exactly when no borrow occurred, and the
/// result with the borrow makes the true difference (unless the destination
/// is VF itself).
pub proof fn lemma_sub_borrow(m: Machine, x: u8, y: u8, r: u8)
    requires
        m.valid(),
        x < 15,
        y < 16,
    ensures
        ({
            let m2 = apply(m, Instruction::Sub { x, y }, r);
            &&& m2.registers[15] <= 1
            &&& reg(m2, x) - 256 * (1 - m2.registers[15]) == reg(m, x) - reg(m, y)
        }),
{
}

/// The random-byte instruction never sets a bit outside its mask.
pub proof fn lemma_random_masked(m: Machine, x: u8, byte: u8, r: u8)
    requires
        m.valid(),
        x < 16,
    ensures
        reg(apply(m, Instruction::Random { x, byte }, r), x) & !byte == 0,
{
    assert((byte & r) & !byte == 0) by (bit_vector);
}

/// With no key down, fetching the key-wait instruction and executing it
/// leaves the machine exactly as it was before the fetch, so the same
/// instruction is fetched again.
pub proof fn lemma_wait_key_repeats(m: Machine, x: u8, r: u8)
    requires
        m.valid(),
        x < 16,
        m.pc + 2 <= 0xFFFF,
        !any_key(m.keys),
    ensures
        ({
            let fetched = Machine { pc: (m.pc + 2) as u16, ..m };
            &&& permitted(fetched, Instruction::WaitKey { x })
            &&& apply(fetched, Instruction::WaitKey { x }, r) == m
        }),
{
}

/// After a program image is loaded at the program counter, the first opcode
/// fetched is its first two bytes.
pub proof fn lemma_load_then_fetch(memory: Seq<u8>, pc: u16, rom: Seq<u8>)
    requires
        memory.len() == 4096,
        rom.len() >= 2,
        pc + rom.len() < 4096,
    ensures
        word_at(loaded(memory, pc as int, rom), pc as int) == rom[0] * 256 + rom[1],
{
}

} // verus!

//! What each instruction means, stated as relations between the state before
//! and after it and proved from the model.

use vstd::prelude::*;
use crate::display::pixel_index;
use crate::draw::lemma_sprite_position;
use crate::keypad::{pressed_keys, slot_of, Key};
use crate::machine::{
    decode, loaded, permitted, op_addr, op_byte, op_nibble, op_x, op_y, ticked, word_at,
    any_key, apply, draw_collides, font_sprites, initial_machine, reg, sprite_col,
    sprite_pixel, sprite_row, Instruction, Machine,
};

verus! {

/// `after` differs from `before` at most in the registers, and of those at
/// most in registers `i` and `j`.
pub open spec fn only_registers_changed(before: Machine, after: Machine, i: int, j: int) -> bool {
    &&& after == (Machine { registers: after.registers, ..before })
    &&& after.registers.len() == before.registers.len()
    &&& forall|k: int|
        0 <= k < before.registers.len() && k != i && k != j ==> after.registers[k]
            == before.registers[k]
}

/// Shift right (8xy6): the old value of Vx is twice the new value plus the
/// bit shifted out, which lands in VF; nothing else changes. When Vx is VF
/// itself, VF ends up 0.
pub proof fn lemma_shift_right_meaning(m: Machine, x: u8, r: u8)
    requires
        m.valid(),
        x < 16,
    ensures
        ({
            let after = apply(m, Instruction::ShiftRight { x }, r);
            &&& only_registers_changed(m, after, x as int, 15)
            &&& x != 15 ==> after.registers[15] <= 1 && 2 * reg(after, x) + after.registers[15]
                == reg(m, x)
            &&& x == 15 ==> after.registers[15] == 0
        }),
{
}

/// Shift left (8xyE): twice the old value of Vx is the new value plus 256
/// times the bit shifted out, which lands in VF; nothing else changes.
pub proof fn lemma_shift_left_meaning(m: Machine, x: u8, r: u8)
    requires
        m.valid(),
        x < 15,
    ensures
        ({
            let after = apply(m, Instruction::ShiftLeft { x }, r);
            &&& only_registers_changed(m, after, x as int, 15)
            &&& after.registers[15] <= 1
            &&& reg(after, x) + 256 * after.registers[15] == 2 * reg(m, x)
        }),
{
}

/// Jump with offset (Bnnn): the new program counter is the integer sum of
/// the address and V0; nothing else changes.
pub proof fn lemma_jump_offset_meaning(m: Machine, addr: u16, r: u8)
    requires
        addr < 4096,
    ensures
        ({
            let after = apply(m, Instruction::JumpOffset { addr }, r);
            &&& after.pc == addr + reg(m, 0)
            &&& after == (Machine { pc: after.pc, ..m })
        }),
{
}

/// Skip if key down (Ex9E): the instruction after it is skipped exactly when
/// the key numbered Vx is down; nothing but the program counter changes.
pub proof fn lemma_skip_key_meaning(m: Machine, x: u8, r: u8)
    requires
        m.valid(),
        x < 16,
        reg(m, x) < 16,
        m.pc + 2 <= 0xFFFF,
    ensures
        ({
            let after = apply(m, Instruction::SkipKey { x }, r);
            &&& after == (Machine { pc: after.pc, ..m })
            &&& m.keys[reg(m, x) as int] ==> after.pc == m.pc + 2
            &&& !m.keys[reg(m, x) as int] ==> after.pc == m.pc
        }),
{
}

/// Skip if key up (ExA1): the instruction after it is skipped exactly when
/// the key numbered Vx is up; nothing but the program counter changes.
pub proof fn lemma_skip_no_key_meaning(m: Machine, x: u8, r: u8)
    requires
        m.valid(),
        x < 16,
        reg(m, x) < 16,
        m.pc + 2 <= 0xFFFF,
    ensures
        ({
            let after = apply(m, Instruction::SkipNoKey { x }, r);
            &&& after == (Machine { pc: after.pc, ..m })
            &&& !m.keys[reg(m, x) as int] ==> after.pc == m.pc + 2
            &&& m.keys[reg(m, x) as int] ==> after.pc == m.pc
        }),
{
}

/// The key instructions look at no key but the one numbered Vx: two states
/// that differ only in the other keys end in the same state, keys aside.
pub proof fn lemma_key_skips_look_at_one_key(m1: Machine, m2: Machine, x: u8, r: u8)
    requires
        m1.valid(),
        m2.valid(),
        x < 16,
        reg(m1, x) < 16,
        m2 == (Machine { keys: m2.keys, ..m1 }),
        m1.keys[reg(m1, x) as int] == m2.keys[reg(m1, x) as int],
    ensures
        apply(m1, Instruction::SkipKey { x }, r).pc == apply(m2, Instruction::SkipKey { x }, r).pc,
        apply(m1, Instruction::SkipNoKey { x }, r).pc == apply(
            m2,
            Instruction::SkipNoKey { x },
            r,
        ).pc,
{
}

/// Reading the delay timer (Fx07) puts its value in Vx and changes nothing
/// else; the sound timer plays no part.
pub proof fn lemma_load_delay_meaning(m: Machine, x: u8, r: u8)
    requires
        m.valid(),
        x < 16,
    ensures
        ({
            let after = apply(m, Instruction::LoadDelay { x }, r);
            &&& reg(after, x) == m.delay_timer
            &&& only_registers_changed(m, after, x as int, x as int)
        }),
{
}

/// Setting the delay timer from Vx and reading it back into Vy copies Vx
/// to Vy.
pub proof fn lemma_set_then_read_delay(m: Machine, x: u8, y: u8, r1: u8, r2: u8)
    requires
        m.valid(),
        x < 16,
        y < 16,
    ensures
        reg(
            apply(apply(m, Instruction::SetDelay { x }, r1), Instruction::LoadDelay { x: y }, r2),
            y,
        ) == reg(m, x),
{
}

/// Setting a timer (Fx15, Fx18) gives it the value of Vx and leaves the other
/// timer and everything else unchanged.
pub proof fn lemma_set_timers_meaning(m: Machine, x: u8, r: u8)
    requires
        m.valid(),
        x < 16,
    ensures
        apply(m, Instruction::SetDelay { x }, r) == (Machine { delay_timer: reg(m, x), ..m }),
        apply(m, Instruction::SetSound { x }, r) == (Machine { sound_timer: reg(m, x), ..m }),
{
}

/// The font lies at the bottom of memory in the power-on state.
pub proof fn lemma_font_at_start()
    ensures
        initial_machine().memory.subrange(0, 80) == font_sprites(),
{
    assert(initial_machine().memory.subrange(0, 80) =~= font_sprites());
}

/// Pointing at a font sprite (Fx29): while the font lies at the bottom of
/// memory, the five bytes at the new index are the sprite of digit Vx, for
/// every digit 0 to F; nothing but the index changes.
pub proof fn lemma_load_font_meaning(m: Machine, x: u8, r: u8)
    requires
        m.valid(),
        x < 16,
        reg(m, x) < 16,
        m.memory.subrange(0, 80) == font_sprites(),
    ensures
        ({
            let after = apply(m, Instruction::LoadFont { x }, r);
            &&& after == (Machine { index: after.index, ..m })
            &&& forall|k: int|
                0 <= k < 5 ==> m.memory[after.index + k] == #[trigger] font_sprites()[5 * reg(
                    m,
                    x,
                ) + k]
        }),
{
    let after = apply(m, Instruction::LoadFont { x }, r);
    assert forall|k: int| 0 <= k < 5 implies m.memory[after.index + k] == #[trigger] font_sprites()[5
        * reg(m, x) + k] by {
        assert(m.memory.subrange(0, 80)[after.index + k] == m.memory[after.index + k]);
    }
}

/// Bit `i` (counted from the least significant) of `v`.
pub open spec fn bit(v: u8, i: u8) -> bool {
    (v >> i) & 1u8 == 1u8
}

/// Bits of OR, AND and XOR.
proof fn lemma_bitwise(a: u8, b: u8)
    by (bit_vector)
    ensures
        forall|i: u8| i < 8 ==> bit(a | b, i) == (bit(a, i) || bit(b, i)),
        forall|i: u8| i < 8 ==> bit(a & b, i) == (bit(a, i) && bit(b, i)),
        forall|i: u8| i < 8 ==> bit(a ^ b, i) == (bit(a, i) != bit(b, i)),
{
}

/// The register instructions write register Vx, and some also VF, and
/// change nothing else.
pub proof fn lemma_register_instructions_touch_x_and_flag(m: Machine, ins: Instruction, r: u8)
    requires
        m.valid(),
        ins.operands_in_range(),
        ins is LoadByte || ins is AddByte || ins is LoadReg || ins is Or || ins is And || ins is Xor
            || ins is AddReg || ins is Sub || ins is ShiftRight || ins is SubReverse
            || ins is ShiftLeft || ins is Random || ins is LoadDelay,
    ensures
        ({
            let x = match ins {
                Instruction::LoadByte { x, .. } | Instruction::AddByte { x, .. }
                | Instruction::LoadReg { x, .. } | Instruction::Or { x, .. } | Instruction::And {
                    x,
                    ..
                } | Instruction::Xor { x, .. } | Instruction::AddReg { x, .. } | Instruction::Sub {
                    x,
                    ..
                } | Instruction::ShiftRight { x } | Instruction::SubReverse { x, .. }
                | Instruction::ShiftLeft { x } | Instruction::Random { x, .. }
                | Instruction::LoadDelay { x } => x,
                _ => 0,
            };
            only_registers_changed(m, apply(m, ins, r), x as int, 15)
        }),
{
}

/// Loading a byte (6xkk) and a register (8xy0) copy the value into Vx.
pub proof fn lemma_loads_meaning(m: Machine, x: u8, y: u8, byte: u8, r: u8)
    requires
        m.valid(),
        x < 16,
        y < 16,
    ensures
        reg(apply(m, Instruction::LoadByte { x, byte }, r), x) == byte,
        reg(apply(m, Instruction::LoadReg { x, y }, r), x) == reg(m, y),
        only_registers_changed(m, apply(m, Instruction::LoadByte { x, byte }, r), x as int, x as int),
        only_registers_changed(m, apply(m, Instruction::LoadReg { x, y }, r), x as int, x as int),
{
}

/// Adding a byte (7xkk): the new Vx and the old Vx plus the byte agree up to
/// a multiple of 256; VF is not touched (unless it is Vx).
pub proof fn lemma_add_byte_meaning(m: Machine, x: u8, byte: u8, r: u8)
    requires
        m.valid(),
        x < 16,
    ensures
        ({
            let after = apply(m, Instruction::AddByte { x, byte }, r);
            &&& reg(after, x) == reg(m, x) + byte || reg(after, x) == reg(m, x) + byte - 256
            &&& only_registers_changed(m, after, x as int, x as int)
        }),
{
}

/// OR, AND and XOR of registers (8xy1, 8xy2, 8xy3) act bit by bit.
pub proof fn lemma_bitwise_meaning(m: Machine, x: u8, y: u8, r: u8)
    requires
        m.valid(),
        x < 16,
        y < 16,
    ensures
        forall|i: u8|
            i < 8 ==> bit(reg(apply(m, Instruction::Or { x, y }, r), x), i) == (bit(reg(m, x), i)
                || bit(reg(m, y), i)),
        forall|i: u8|
            i < 8 ==> bit(reg(apply(m, Instruction::And { x, y }, r), x), i) == (bit(reg(m, x), i)
                && bit(reg(m, y), i)),
        forall|i: u8|
            i < 8 ==> bit(reg(apply(m, Instruction::Xor { x, y }, r), x), i) == (bit(reg(m, x), i)
                != bit(reg(m, y), i)),
{
    lemma_bitwise(reg(m, x), reg(m, y));
}

/// XOR-ing a different register into Vx twice restores Vx.
pub proof fn lemma_xor_twice_restores(m: Machine, x: u8, y: u8, r1: u8, r2: u8)
    requires
        m.valid(),
        x < 16,
        y < 16,
        x != y,
    ensures
        apply(apply(m, Instruction::Xor { x, y }, r1), Instruction::Xor { x, y }, r2).registers
            == m.registers,
{
    let a = reg(m, x);
    let b = reg(m, y);
    assert((a ^ b) ^ b == a) by (bit_vector);
    assert(apply(apply(m, Instruction::Xor { x, y }, r1), Instruction::Xor { x, y }, r2).registers
        =~= m.registers);
}

/// Reverse subtraction (8xy7): VF is 1 exactly when Vy >= Vx, and the
/// result with the borrow makes the true difference Vy - Vx.
pub proof fn lemma_sub_reverse_meaning(m: Machine, x: u8, y: u8, r: u8)
    requires
        m.valid(),
        x < 15,
        y < 16,
    ensures
        ({
            let after = apply(m, Instruction::SubReverse { x, y }, r);
            &&& (after.registers[15] == 1) == (reg(m, y) >= reg(m, x))
            &&& after.registers[15] <= 1
            &&& reg(after, x) - 256 * (1 - after.registers[15]) == reg(m, y) - reg(m, x)
        }),
{
}

/// Clearing the screen (00E0) darkens every pixel and changes nothing else.
pub proof fn lemma_clear_meaning(m: Machine, r: u8)
    requires
        m.valid(),
    ensures
        ({
            let after = apply(m, Instruction::Clear, r);
            &&& after.frame.len() == 2048
            &&& forall|p: int| 0 <= p < 2048 ==> !after.frame[p]
            &&& after == (Machine { frame: after.frame, ..m })
        }),
{
}

/// Jumps and the index load (1nnn, Annn) set the program counter or the
/// index to the address and change nothing else.
pub proof fn lemma_jump_and_index_meaning(m: Machine, addr: u16, r: u8)
    ensures
        apply(m, Instruction::Jump { addr }, r) == (Machine { pc: addr, ..m }),
        apply(m, Instruction::LoadIndex { addr }, r) == (Machine { index: addr, ..m }),
{
}

/// A call (2nnn) pushes the address of the next instruction and jumps; a
/// return (00EE) pops the top address into the program counter.
pub proof fn lemma_call_and_return_meaning(m: Machine, addr: u16, r: u8)
    requires
        m.valid(),
        m.sp < 16,
    ensures
        ({
            let called = apply(m, Instruction::Call { addr }, r);
            &&& called.pc == addr
            &&& called.sp == m.sp + 1
            &&& called.stack[m.sp as int] == m.pc
            &&& forall|i: int| 0 <= i < 16 && i != m.sp ==> called.stack[i] == m.stack[i]
            &&& called == (Machine { pc: called.pc, sp: called.sp, stack: called.stack, ..m })
        }),
        m.sp > 0 ==> ({
            let returned = apply(m, Instruction::Return, r);
            &&& returned.sp + 1 == m.sp
            &&& returned.pc == m.stack[m.sp - 1]
            &&& returned == (Machine { pc: returned.pc, sp: returned.sp, ..m })
        }),
{
}

/// The conditional skips (3xkk, 4xkk, 5xy0, 9xy0) advance the program
/// counter by one instruction exactly when their condition holds, and change
/// nothing else.
pub proof fn lemma_skips_meaning(m: Machine, x: u8, y: u8, byte: u8, r: u8)
    requires
        m.valid(),
        x < 16,
        y < 16,
        m.pc + 2 <= 0xFFFF,
    ensures
        ({
            let eq_byte = apply(m, Instruction::SkipEqByte { x, byte }, r);
            let ne_byte = apply(m, Instruction::SkipNeByte { x, byte }, r);
            let eq_reg = apply(m, Instruction::SkipEqReg { x, y }, r);
            let ne_reg = apply(m, Instruction::SkipNeReg { x, y }, r);
            &&& eq_byte == (Machine { pc: eq_byte.pc, ..m })
            &&& ne_byte == (Machine { pc: ne_byte.pc, ..m })
            &&& eq_reg == (Machine { pc: eq_reg.pc, ..m })
            &&& ne_reg == (Machine { pc: ne_reg.pc, ..m })
            &&& eq_byte.pc == if reg(m, x) == byte { m.pc + 2 } else { m.pc as int }
            &&& ne_byte.pc == if reg(m, x) != byte { m.pc + 2 } else { m.pc as int }
            &&& eq_reg.pc == if reg(m, x) == reg(m, y) { m.pc + 2 } else { m.pc as int }
            &&& ne_reg.pc == if reg(m, x) != reg(m, y) { m.pc + 2 } else { m.pc as int }
        }),
{
}

/// Waiting for a key (Fx0A): with some key down, Vx gets a key that is down
/// and below which no key is down, and the program counter stays; with none
/// down, the program counter steps back one instruction.
pub proof fn lemma_wait_key_meaning(m: Machine, x: u8, r: u8)
    requires
        m.valid(),
        x < 16,
        m.pc >= 2,
    ensures
        ({
            let after = apply(m, Instruction::WaitKey { x }, r);
            &&& (exists|k: int| 0 <= k < 16 && m.keys[k]) ==> {
                &&& reg(after, x) < 16
                &&& m.keys[reg(after, x) as int]
                &&& forall|k: int| 0 <= k < reg(after, x) ==> !m.keys[k]
                &&& only_registers_changed(m, after, x as int, x as int)
            }
            &&& (forall|k: int| 0 <= k < 16 ==> !m.keys[k]) ==> after == (Machine {
                pc: (m.pc - 2) as u16,
                ..m
            })
        }),
{
    if exists|k: int| 0 <= k < 16 && m.keys[k] {
        let k0 = choose|k: int| 0 <= k < 16 && m.keys[k];
        assert(any_key(m.keys));
        lemma_lowest_key_exists(m.keys, k0);
    } else {
        assert(!any_key(m.keys));
    }
}

/// If key `k` is down, some lowest key is down.
proof fn lemma_lowest_key_exists(keys: Seq<bool>, k: int)
    requires
        0 <= k < 16,
        keys[k],
    ensures
        exists|i: int| crate::machine::is_first_key(keys, i),
    decreases k,
{
    if exists|j: int| 0 <= j < k && keys[j] {
        let j = choose|j: int| 0 <= j < k && keys[j];
        lemma_lowest_key_exists(keys, j);
    } else {
        assert(crate::machine::is_first_key(keys, k));
    }
}

/// Adding to the index (Fx1E): the new index and the old index plus Vx agree
/// up to a multiple of 65536; nothing else changes.
pub proof fn lemma_add_index_meaning(m: Machine, x: u8, r: u8)
    requires
        m.valid(),
        x < 16,
    ensures
        ({
            let after = apply(m, Instruction::AddIndex { x }, r);
            &&& after.index == m.index + reg(m, x) || after.index == m.index + reg(m, x) - 65536
            &&& after == (Machine { index: after.index, ..m })
        }),
{
}

/// Storing registers (Fx55) writes V0..=Vx to the bytes from I on and leaves
/// every other byte and everything else unchanged.
pub proof fn lemma_store_registers_meaning(m: Machine, x: u8, r: u8)
    requires
        m.valid(),
        x < 16,
        m.index + x < 4096,
    ensures
        ({
            let after = apply(m, Instruction::StoreRegs { x }, r);
            &&& after.memory.len() == 4096
            &&& forall|i: int| 0 <= i <= x ==> after.memory[m.index + i] == m.registers[i]
            &&& forall|a: int|
                0 <= a < 4096 && !(m.index <= a <= m.index + x) ==> after.memory[a] == m.memory[a]
            &&& after == (Machine { memory: after.memory, ..m })
        }),
{
}

/// Loading registers (Fx65) reads V0..=Vx from the bytes from I on and leaves
/// the other registers and everything else unchanged.
pub proof fn lemma_load_registers_meaning(m: Machine, x: u8, r: u8)
    requires
        m.valid(),
        x < 16,
        m.index + x < 4096,
    ensures
        ({
            let after = apply(m, Instruction::LoadRegs { x }, r);
            &&& forall|i: int| 0 <= i <= x ==> after.registers[i] == m.memory[m.index + i]
            &&& forall|i: int| x < i < 16 ==> after.registers[i] == m.registers[i]
            &&& after == (Machine { registers: after.registers, ..m })
        }),
{
}

/// Storing decimal digits (Fx33) writes three bytes from I on and leaves
/// every other byte and everything else unchanged.
pub proof fn lemma_store_bcd_frame(m: Machine, x: u8, r: u8)
    requires
        m.valid(),
        x < 16,
        m.index + 2 < 4096,
    ensures
        ({
            let after = apply(m, Instruction::StoreBcd { x }, r);
            &&& after.memory.len() == 4096
            &&& forall|a: int|
                0 <= a < 4096 && !(m.index <= a <= m.index + 2) ==> after.memory[a] == m.memory[a]
            &&& after == (Machine { memory: after.memory, ..m })
        }),
{
}

/// Drawing a sprite (Dxyn): bit `7 - c` of sprite row `r` (its `c`-th pixel
/// from the left) is XOR-ed onto screen pixel `((Vx + c) % 64, (Vy + r) % 32)`,
/// every screen pixel that no sprite pixel lands on keeps its value, and
/// nothing but the screen and the registers changes.
pub proof fn lemma_draw_meaning(m: Machine, x: u8, y: u8, rows: u8, r: u8)
    requires
        m.valid(),
        x < 16,
        y < 16,
        rows < 16,
    ensures
        ({
            let after = apply(m, Instruction::Draw { x, y, rows }, r);
            let px = reg(m, x) as int;
            let py = reg(m, y) as int;
            &&& after.frame.len() == 2048
            &&& forall|row: int, c: int|
                0 <= row < rows && 0 <= c < 8 ==> #[trigger] after.frame[pixel_index(
                    (px + c) % 64,
                    (py + row) % 32,
                )] == (m.frame[pixel_index((px + c) % 64, (py + row) % 32)] != bit(
                    m.memory[m.index + row],
                    (7 - c) as u8,
                ))
            &&& forall|p: int|
                0 <= p < 2048 && (forall|row: int, c: int|
                    0 <= row < rows && 0 <= c < 8 ==> p != #[trigger] pixel_index(
                        (px + c) % 64,
                        (py + row) % 32,
                    )) ==> after.frame[p] == m.frame[p]
            &&& after == (Machine { frame: after.frame, registers: after.registers, ..m })
        }),
{
    let px = reg(m, x) as int;
    let py = reg(m, y) as int;
    let start = m.index as int;
    let after = apply(m, Instruction::Draw { x, y, rows }, r);
    assert forall|row: int, c: int| 0 <= row < rows && 0 <= c < 8 implies #[trigger] after.frame[pixel_index(
        (px + c) % 64,
        (py + row) % 32,
    )] == (m.frame[pixel_index((px + c) % 64, (py + row) % 32)] != bit(
        m.memory[m.index + row],
        (7 - c) as u8,
    )) by {
        lemma_sprite_position(px, py, row, c);
        let p = pixel_index((px + c) % 64, (py + row) % 32);
        assert(sprite_pixel(m.memory, start, rows as int, px, py, p) == bit(
            m.memory[m.index + row],
            (7 - c) as u8,
        ));
    }
    assert forall|p: int|
        0 <= p < 2048 && (forall|row: int, c: int|
            0 <= row < rows && 0 <= c < 8 ==> p != #[trigger] pixel_index(
                (px + c) % 64,
                (py + row) % 32,
            )) implies after.frame[p] == m.frame[p] by {
        if sprite_pixel(m.memory, start, rows as int, px, py, p) {
            let row = sprite_row(p, py);
            let c = sprite_col(p, px);
            lemma_sprite_position(px, py, row, c);
            assert(p != pixel_index((px + c) % 64, (py + row) % 32));
        }
    }
}

/// The collision flag of a draw: if some lit pixel was turned off, VF is
/// 1; otherwise the registers are untouched.
pub proof fn lemma_draw_collision_meaning(m: Machine, x: u8, y: u8, rows: u8, r: u8)
    requires
        m.valid(),
        x < 16,
        y < 16,
        rows < 16,
    ensures
        ({
            let after = apply(m, Instruction::Draw { x, y, rows }, r);
            &&& (exists|p: int| 0 <= p < 2048 && m.frame[p] && !#[trigger] after.frame[p]) ==> {
                &&& after.registers[15] == 1
                &&& after.registers == m.registers.update(15, 1)
            }
            &&& !(exists|p: int| 0 <= p < 2048 && m.frame[p] && !#[trigger] after.frame[p])
                ==> after.registers == m.registers
        }),
{
    let px = reg(m, x) as int;
    let py = reg(m, y) as int;
    let start = m.index as int;
    let after = apply(m, Instruction::Draw { x, y, rows }, r);
    if exists|p: int| 0 <= p < 2048 && m.frame[p] && !#[trigger] after.frame[p] {
        let p = choose|p: int| 0 <= p < 2048 && m.frame[p] && !#[trigger] after.frame[p];
        assert(sprite_pixel(m.memory, start, rows as int, px, py, p));
    } else {
        if draw_collides(m.frame, m.memory, start, rows as int, px, py) {
            let p = choose|p: int|
                0 <= p < m.frame.len() && #[trigger] sprite_pixel(
                    m.memory,
                    start,
                    rows as int,
                    px,
                    py,
                    p,
                ) && m.frame[p];
            assert(!after.frame[p]);
        }
    }
}

/// A timer tick lowers each non-zero timer by exactly one, leaves a zero
/// timer at zero, and changes nothing else.
pub proof fn lemma_tick_meaning(m: Machine)
    ensures
        ({
            let after = ticked(m);
            &&& m.delay_timer > 0 ==> after.delay_timer + 1 == m.delay_timer
            &&& m.delay_timer == 0 ==> after.delay_timer == 0
            &&& m.sound_timer > 0 ==> after.sound_timer + 1 == m.sound_timer
            &&& m.sound_timer == 0 ==> after.sound_timer == 0
            &&& after == (Machine {
                delay_timer: after.delay_timer,
                sound_timer: after.sound_timer,
                ..m
            })
        }),
{
}

/// The fetched word holds the byte at the address in its high half and the
/// next byte in its low half.
pub proof fn lemma_word_halves(memory: Seq<u8>, a: int)
    ensures
        word_at(memory, a) / 256 == memory[a],
        word_at(memory, a) % 256 == memory[a + 1],
{
}

/// Loading an image puts its bytes at `start` onwards and leaves every other
/// byte as it was.
pub proof fn lemma_loaded_meaning(memory: Seq<u8>, start: int, rom: Seq<u8>)
    requires
        0 <= start,
        start + rom.len() <= memory.len(),
    ensures
        loaded(memory, start, rom).len() == memory.len(),
        loaded(memory, start, rom).subrange(start, start + rom.len()) == rom,
        forall|a: int|
            0 <= a < memory.len() && !(start <= a < start + rom.len()) ==> loaded(
                memory,
                start,
                rom,
            )[a] == memory[a],
{
    assert(loaded(memory, start, rom).subrange(start, start + rom.len()) =~= rom);
}

/// The host key at row `row`, column `col` of the left-hand 4 x 4 block
/// of a QWERTY keyboard.
pub open spec fn host_key_at(row: int, col: int) -> Key {
    let keys = seq![
        Key::Key1, Key::Key2, Key::Key3, Key::Key4,
        Key::Q, Key::W, Key::E, Key::R,
        Key::A, Key::S, Key::D, Key::F,
        Key::Z, Key::X, Key::C, Key::V,
    ];
    keys[row * 4 + col]
}

/// The key at row `row`, column `col` of the CHIP-8 hexadecimal keypad.
pub open spec fn keypad_key_at(row: int, col: int) -> u8 {
    let keys = seq![
        0x1u8, 0x2, 0x3, 0xC,
        0x4, 0x5, 0x6, 0xD,
        0x7, 0x8, 0x9, 0xE,
        0xA, 0x0, 0xB, 0xF,
    ];
    keys[row * 4 + col]
}

/// The host block stands for the keypad position by position, and no other
/// key stands for a keypad key.
pub proof fn lemma_keypad_layout(row: int, col: int)
    requires
        0 <= row < 4,
        0 <= col < 4,
    ensures
        slot_of(host_key_at(row, col)) == Some(keypad_key_at(row, col)),
        slot_of(Key::Other) is None,
{
}

/// Two host keys that stand for the same keypad key are the same key.
pub proof fn lemma_keypad_one_to_one(a: Key, b: Key)
    requires
        slot_of(a) is Some,
        slot_of(a) == slot_of(b),
    ensures
        a == b,
{
}

/// After a key update, the keypad key of every listed host key is down, and
/// a keypad key is down only if some listed host key stands for it.
pub proof fn lemma_pressed_keys_meaning(keys: Seq<Key>)
    ensures
        pressed_keys(keys).len() == 16,
        forall|j: int|
            0 <= j < keys.len() && (#[trigger] slot_of(keys[j])) is Some ==> pressed_keys(
                keys,
            )[slot_of(keys[j])->0 as int],
        forall|s: int|
            0 <= s < 16 && (forall|j: int| 0 <= j < keys.len() ==> slot_of(keys[j]) != Some(s as u8))
                ==> !#[trigger] pressed_keys(keys)[s],
{
    assert forall|j: int|
        0 <= j < keys.len() && (#[trigger] slot_of(keys[j])) is Some implies pressed_keys(
            keys,
        )[slot_of(keys[j])->0 as int] by {
        let s = slot_of(keys[j])->0;
        assert(s < 16);
        assert(slot_of(keys[j]) == Some((s as int) as u8));
    }
}

/// Opcode fields from nibbles.
proof fn lemma_fields(g: int, x: int, y: int, n: int)
    requires
        0 <= g < 16,
        0 <= x < 16,
        0 <= y < 16,
        0 <= n < 16,
    ensures
        ({
            let op = g * 4096 + x * 256 + y * 16 + n;
            &&& op / 256 % 16 == x
            &&& op / 16 % 16 == y
            &&& op % 16 == n
            &&& op % 256 == y * 16 + n
            &&& op % 4096 == x * 256 + y * 16 + n
            &&& op < 4096 <==> g == 0
            &&& op / 4096 == g
        }),
{
    let op = g * 4096 + x * 256 + y * 16 + n;
    vstd::arithmetic::div_mod::lemma_fundamental_div_mod_converse(op, 256, g * 16 + x, y * 16 + n);
    vstd::arithmetic::div_mod::lemma_fundamental_div_mod_converse(g * 16 + x, 16, g, x);
    vstd::arithmetic::div_mod::lemma_fundamental_div_mod_converse(op, 16, g * 256 + x * 16 + y, n);
    vstd::arithmetic::div_mod::lemma_fundamental_div_mod_converse(
        g * 256 + x * 16 + y,
        16,
        g * 16 + x,
        y,
    );
    vstd::arithmetic::div_mod::lemma_fundamental_div_mod_converse(
        op,
        4096,
        g,
        x * 256 + y * 16 + n,
    );
}

/// The opcode `g x y n`, from its four hexadecimal digits.
pub open spec fn opcode(g: int, x: int, y: int, n: int) -> u16 {
    (g * 4096 + x * 256 + y * 16 + n) as u16
}

/// The field extractors read the digits of an opcode.
pub proof fn lemma_opcode_digits(g: int, x: int, y: int, n: int)
    requires
        0 <= g < 16,
        0 <= x < 16,
        0 <= y < 16,
        0 <= n < 16,
    ensures
        op_x(opcode(g, x, y, n)) == x,
        op_y(opcode(g, x, y, n)) == y,
        op_nibble(opcode(g, x, y, n)) == n,
        op_byte(opcode(g, x, y, n)) == y * 16 + n,
        op_addr(opcode(g, x, y, n)) == x * 256 + y * 16 + n,
{
    lemma_fields(g, x, y, n);
}

/// The CHIP-8 instruction encoding: each opcode pattern decodes to its
/// instruction, with `x`, `y`, `n` the second, third and fourth hexadecimal
/// digits, `kk` the last two and `nnn` the last three.
pub proof fn lemma_decode_table(x: int, y: int, n: int)
    requires
        0 <= x < 16,
        0 <= y < 16,
        0 <= n < 16,
    ensures
        ({
            let xr = x as u8;
            let yr = y as u8;
            let kk = (y * 16 + n) as u8;
            let nnn = (x * 256 + y * 16 + n) as u16;
            &&& decode(0x00E0) == Some(Instruction::Clear)
            &&& decode(0x00EE) == Some(Instruction::Return)
            &&& opcode(0, x, y, n) != 0x00E0 && opcode(0, x, y, n) != 0x00EE ==> decode(
                opcode(0, x, y, n),
            ) is None
            &&& decode(opcode(1, x, y, n)) == Some(Instruction::Jump { addr: nnn })
            &&& decode(opcode(2, x, y, n)) == Some(Instruction::Call { addr: nnn })
            &&& decode(opcode(3, x, y, n)) == Some(Instruction::SkipEqByte { x: xr, byte: kk })
            &&& decode(opcode(4, x, y, n)) == Some(Instruction::SkipNeByte { x: xr, byte: kk })
            &&& decode(opcode(5, x, y, n)) == Some(Instruction::SkipEqReg { x: xr, y: yr })
            &&& decode(opcode(6, x, y, n)) == Some(Instruction::LoadByte { x: xr, byte: kk })
            &&& decode(opcode(7, x, y, n)) == Some(Instruction::AddByte { x: xr, byte: kk })
            &&& decode(opcode(8, x, y, 0x0)) == Some(Instruction::LoadReg { x: xr, y: yr })
            &&& decode(opcode(8, x, y, 0x1)) == Some(Instruction::Or { x: xr, y: yr })
            &&& decode(opcode(8, x, y, 0x2)) == Some(Instruction::And { x: xr, y: yr })
            &&& decode(opcode(8, x, y, 0x3)) == Some(Instruction::Xor { x: xr, y: yr })
            &&& decode(opcode(8, x, y, 0x4)) == Some(Instruction::AddReg { x: xr, y: yr })
            &&& decode(opcode(8, x, y, 0x5)) == Some(Instruction::Sub { x: xr, y: yr })
            &&& decode(opcode(8, x, y, 0x6)) == Some(Instruction::ShiftRight { x: xr })
            &&& decode(opcode(8, x, y, 0x7)) == Some(Instruction::SubReverse { x: xr, y: yr })
            &&& decode(opcode(8, x, y, 0xE)) == Some(Instruction::ShiftLeft { x: xr })
            &&& (8 <= n < 0xE || n == 0xF) ==> decode(opcode(8, x, y, n)) is None
            &&& decode(opcode(9, x, y, n)) == Some(Instruction::SkipNeReg { x: xr, y: yr })
            &&& decode(opcode(0xA, x, y, n)) == Some(Instruction::LoadIndex { addr: nnn })
            &&& decode(opcode(0xB, x, y, n)) == Some(Instruction::JumpOffset { addr: nnn })
            &&& decode(opcode(0xC, x, y, n)) == Some(Instruction::Random { x: xr, byte: kk })
            &&& decode(opcode(0xD, x, y, n)) == Some(
                Instruction::Draw { x: xr, y: yr, rows: n as u8 },
            )
            &&& decode(opcode(0xE, x, 0x9, 0xE)) == Some(Instruction::SkipKey { x: xr })
            &&& decode(opcode(0xE, x, 0xA, 0x1)) == Some(Instruction::SkipNoKey { x: xr })
            &&& decode(opcode(0xF, x, 0x0, 0x7)) == Some(Instruction::LoadDelay { x: xr })
            &&& decode(opcode(0xF, x, 0x0, 0xA)) == Some(Instruction::WaitKey { x: xr })
            &&& decode(opcode(0xF, x, 0x1, 0x5)) == Some(Instruction::SetDelay { x: xr })
            &&& decode(opcode(0xF, x, 0x1, 0x8)) == Some(Instruction::SetSound { x: xr })
            &&& decode(opcode(0xF, x, 0x1, 0xE)) == Some(Instruction::AddIndex { x: xr })
            &&& decode(opcode(0xF, x, 0x2, 0x9)) == Some(Instruction::LoadFont { x: xr })
            &&& decode(opcode(0xF, x, 0x3, 0x3)) == Some(Instruction::StoreBcd { x: xr })
            &&& decode(opcode(0xF, x, 0x5, 0x5)) == Some(Instruction::StoreRegs { x: xr })
            &&& decode(opcode(0xF, x, 0x6, 0x5)) == Some(Instruction::LoadRegs { x: xr })
        }),
{
    lemma_fields(0, x, y, n);
    lemma_fields(1, x, y, n);
    lemma_fields(2, x, y, n);
    lemma_fields(3, x, y, n);
    lemma_fields(4, x, y, n);
    lemma_fields(5, x, y, n);
    lemma_fields(6, x, y, n);
    lemma_fields(7, x, y, n);
    lemma_fields(8, x, y, n);
    lemma_fields(9, x, y, n);
    lemma_fields(10, x, y, n);
    lemma_fields(11, x, y, n);
    lemma_fields(12, x, y, n);
    lemma_fields(13, x, y, n);
    lemma_fields(8, x, y, 0);
    lemma_fields(8, x, y, 1);
    lemma_fields(8, x, y, 2);
    lemma_fields(8, x, y, 3);
    lemma_fields(8, x, y, 4);
    lemma_fields(8, x, y, 5);
    lemma_fields(8, x, y, 6);
    lemma_fields(8, x, y, 7);
    lemma_fields(8, x, y, 14);
    lemma_fields(14, x, 9, 14);
    lemma_fields(14, x, 10, 1);
    lemma_fields(15, x, 0, 7);
    lemma_fields(15, x, 0, 10);
    lemma_fields(15, x, 1, 5);
    lemma_fields(15, x, 1, 8);
    lemma_fields(15, x, 1, 14);
    lemma_fields(15, x, 2, 9);
    lemma_fields(15, x, 3, 3);
    lemma_fields(15, x, 5, 5);
    lemma_fields(15, x, 6, 5);
}

/// The power-on state: program counter at 0x200, index, stack pointer,
/// timers and every register zero, stack and memory above the font zeroed,
/// screen dark and every key up.
pub proof fn lemma_power_on_state()
    ensures
        ({
            let m = initial_machine();
            &&& m.valid()
            &&& m.pc == 0x200
            &&& m.index == 0
            &&& m.sp == 0
            &&& m.delay_timer == 0
            &&& m.sound_timer == 0
            &&& forall|i: int| 0 <= i < 16 ==> m.registers[i] == 0 && m.stack[i] == 0 && !m.keys[i]
            &&& forall|a: int| 80 <= a < 4096 ==> m.memory[a] == 0
            &&& forall|p: int| 0 <= p < 2048 ==> !m.frame[p]
        }),
{
}

/// Every instruction can run in an ordinary state: a non-empty, non-full
/// stack, a program counter away from both ends of the address space, an
/// index with room for the longest sprite or register block after it, and
/// every register naming a valid key.
pub proof fn lemma_permitted_in_ordinary_states(m: Machine, ins: Instruction)
    requires
        m.valid(),
        ins.operands_in_range(),
        0 < m.sp < 16,
        2 <= m.pc <= 0xFFFD,
        m.index + 16 <= 4096,
        forall|i: int| 0 <= i < 16 ==> m.registers[i] < 16,
    ensures
        permitted(m, ins),
{
}

} // verus!

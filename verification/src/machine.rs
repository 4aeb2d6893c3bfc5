//! The mathematical model of the machine: its state, the decoding of an
//! opcode into an instruction, and what each instruction does to the state.

use vstd::prelude::*;
use crate::display::blank_frame;

verus! {

/// Number of general purpose registers (V0 to VF).
pub const REGISTER_COUNT: usize = 16;

/// Bytes of addressable memory.
pub const MEMORY_SIZE: usize = 4096;

/// Number of return addresses the call stack holds.
pub const STACK_DEPTH: usize = 16;

/// Number of keys on the hexadecimal keypad.
pub const KEY_COUNT: usize = 16;

/// Address at which programs are loaded and execution starts.
pub const PROGRAM_START: u16 = 0x200;

/// Number of bytes of the built-in hexadecimal font.
pub const FONT_SIZE: usize = 80;

/// The flag register VF.
pub const FLAG: usize = 15;

/// The abstract state of the machine.
#[verifier::ext_equal]
pub struct Machine {
    pub registers: Seq<u8>,
    pub index: u16,
    pub pc: u16,
    pub memory: Seq<u8>,
    pub stack: Seq<u16>,
    pub sp: u8,
    pub delay_timer: u8,
    pub sound_timer: u8,
    pub frame: Seq<bool>,
    pub keys: Seq<bool>,
}

impl Machine {
    /// Every component has the size of the hardware it models.
    pub open spec fn valid(self) -> bool {
        &&& self.registers.len() == REGISTER_COUNT
        &&& self.memory.len() == MEMORY_SIZE
        &&& self.stack.len() == STACK_DEPTH
        &&& self.frame.len() == 2048
        &&& self.keys.len() == KEY_COUNT
    }
}

/// The sprites of the hexadecimal digits 0 to F, five bytes each.
pub open spec fn font_sprites() -> Seq<u8> {
    seq![
        0xF0u8, 0x90, 0x90, 0x90, 0xF0,
        0x20, 0x60, 0x20, 0x20, 0x70,
        0xF0, 0x10, 0xF0, 0x80, 0xF0,
        0xF0, 0x10, 0xF0, 0x10, 0xF0,
        0x90, 0x90, 0xF0, 0x10, 0x10,
        0xF0, 0x80, 0xF0, 0x10, 0xF0,
        0xF0, 0x80, 0xF0, 0x90, 0xF0,
        0xF0, 0x10, 0x20, 0x40, 0x40,
        0xF0, 0x90, 0xF0, 0x90, 0xF0,
        0xF0, 0x90, 0xF0, 0x10, 0xF0,
        0xF0, 0x90, 0xF0, 0x90, 0x90,
        0xE0, 0x90, 0xE0, 0x90, 0xE0,
        0xF0, 0x80, 0x80, 0x80, 0xF0,
        0xE0, 0x90, 0x90, 0x90, 0xE0,
        0xF0, 0x80, 0xF0, 0x80, 0xF0,
        0xF0, 0x80, 0xF0, 0x80, 0x80,
    ]
}

/// The state of a freshly created machine: the font at address 0, the rest of
/// memory, the registers, the stack, the timers and the keypad cleared, a
/// blank screen and the program counter at `PROGRAM_START`.
pub open spec fn initial_machine() -> Machine {
    Machine {
        registers: Seq::new(16, |i: int| 0u8),
        index: 0,
        pc: PROGRAM_START,
        memory: Seq::new(4096, |a: int| if a < 80 { font_sprites()[a] } else { 0u8 }),
        stack: Seq::new(16, |i: int| 0u16),
        sp: 0,
        delay_timer: 0,
        sound_timer: 0,
        frame: blank_frame(),
        keys: Seq::new(16, |i: int| false),
    }
}

/// The big-endian 16-bit word stored at addresses `a` and `a + 1`.
pub open spec fn word_at(memory: Seq<u8>, a: int) -> u16 {
    (memory[a] as int * 256 + memory[a + 1] as int) as u16
}

/// Memory after the bytes of `rom` have been written from address `start` on.
pub open spec fn loaded(memory: Seq<u8>, start: int, rom: Seq<u8>) -> Seq<u8> {
    Seq::new(
        memory.len(),
        |a: int| if start <= a < start + rom.len() { rom[a - start] } else { memory[a] },
    )
}

/// The state after one tick of the 60 Hz timers: each counts down to zero.
pub open spec fn ticked(m: Machine) -> Machine {
    Machine {
        delay_timer: if m.delay_timer > 0 { (m.delay_timer - 1) as u8 } else { 0 },
        sound_timer: if m.sound_timer > 0 { (m.sound_timer - 1) as u8 } else { 0 },
        ..m
    }
}

/// Register field `x` of an opcode (bits 8 to 11).
pub open spec fn op_x(op: u16) -> u8 {
    (op / 256 % 16) as u8
}

/// Register field `y` of an opcode (bits 4 to 7).
pub open spec fn op_y(op: u16) -> u8 {
    (op / 16 % 16) as u8
}

/// Lowest four bits of an opcode.
pub open spec fn op_nibble(op: u16) -> u8 {
    (op % 16) as u8
}

/// Lowest eight bits of an opcode.
pub open spec fn op_byte(op: u16) -> u8 {
    (op % 256) as u8
}

/// Lowest twelve bits of an opcode.
pub open spec fn op_addr(op: u16) -> u16 {
    op % 4096
}

/// A decoded instruction. `x` and `y` name registers, `byte` is an
/// immediate value, `addr` a twelve-bit address.
pub enum Instruction {
    /// 00E0: clear the screen.
    Clear,
    /// 00EE: return from a subroutine.
    Return,
    /// 1nnn: jump to `addr`.
    Jump { addr: u16 },
    /// 2nnn: call the subroutine at `addr`.
    Call { addr: u16 },
    /// 3xkk: skip the next instruction if Vx == byte.
    SkipEqByte { x: u8, byte: u8 },
    /// 4xkk: skip the next instruction if Vx != byte.
    SkipNeByte { x: u8, byte: u8 },
    /// 5xy_: skip the next instruction if Vx == Vy.
    SkipEqReg { x: u8, y: u8 },
    /// 6xkk: Vx = byte.
    LoadByte { x: u8, byte: u8 },
    /// 7xkk: Vx = Vx + byte, wrapping, VF untouched.
    AddByte { x: u8, byte: u8 },
    /// 8xy0: Vx = Vy.
    LoadReg { x: u8, y: u8 },
    /// 8xy1: Vx = Vx | Vy.
    Or { x: u8, y: u8 },
    /// 8xy2: Vx = Vx & Vy.
    And { x: u8, y: u8 },
    /// 8xy3: Vx = Vx ^ Vy.
    Xor { x: u8, y: u8 },
    /// 8xy4: Vx = Vx + Vy, VF = carry.
    AddReg { x: u8, y: u8 },
    /// 8xy5: Vx = Vx - Vy, VF = no borrow.
    Sub { x: u8, y: u8 },
    /// 8xy6: VF = lowest bit of Vx, then Vx = Vx >> 1.
    ShiftRight { x: u8 },
    /// 8xy7: Vx = Vy - Vx, VF = no borrow.
    SubReverse { x: u8, y: u8 },
    /// 8xyE: VF = highest bit of Vx, then Vx = Vx << 1.
    ShiftLeft { x: u8 },
    /// 9xy_: skip the next instruction if Vx != Vy.
    SkipNeReg { x: u8, y: u8 },
    /// Annn: I = addr.
    LoadIndex { addr: u16 },
    /// Bnnn: jump to addr + V0.
    JumpOffset { addr: u16 },
    /// Cxkk: Vx = random byte & byte.
    Random { x: u8, byte: u8 },
    /// Dxyn: draw the `rows`-byte sprite at I at (Vx, Vy); VF = 1 on collision.
    Draw { x: u8, y: u8, rows: u8 },
    /// Ex9E: skip the next instruction if the key Vx is down.
    SkipKey { x: u8 },
    /// ExA1: skip the next instruction if the key Vx is up.
    SkipNoKey { x: u8 },
    /// Fx07: Vx = delay timer.
    LoadDelay { x: u8 },
    /// Fx0A: Vx = the lowest key that is down; with none down, repeat.
    WaitKey { x: u8 },
    /// Fx15: delay timer = Vx.
    SetDelay { x: u8 },
    /// Fx18: sound timer = Vx.
    SetSound { x: u8 },
    /// Fx1E: I = I + Vx, wrapping at 16 bits.
    AddIndex { x: u8 },
    /// Fx29: I = address of the font sprite of digit Vx.
    LoadFont { x: u8 },
    /// Fx33: store the three decimal digits of Vx at I, I+1, I+2.
    StoreBcd { x: u8 },
    /// Fx55: store V0..=Vx at I onwards.
    StoreRegs { x: u8 },
    /// Fx65: load V0..=Vx from I onwards.
    LoadRegs { x: u8 },
}

/// Why an opcode could not be executed.
#[derive(Clone, Copy, Debug, PartialEq, Eq, Structural)]
pub enum DecodeError {
    /// A 0nnn opcode other than 00E0 and 00EE (a native machine routine).
    MachineRoutine(u16),
    /// An opcode of group 8, E or F whose low bits name no instruction.
    UnknownOpcode(u16),
}

/// The instruction an opcode encodes, if any.
pub open spec fn decode(op: u16) -> Option<Instruction> {
    let x = op_x(op);
    let y = op_y(op);
    let n = op_nibble(op);
    let byte = op_byte(op);
    let addr = op_addr(op);
    if op == 0x00E0 {
        Some(Instruction::Clear)
    } else if op == 0x00EE {
        Some(Instruction::Return)
    } else if op < 0x1000 {
        None
    } else if op < 0x2000 {
        Some(Instruction::Jump { addr })
    } else if op < 0x3000 {
        Some(Instruction::Call { addr })
    } else if op < 0x4000 {
        Some(Instruction::SkipEqByte { x, byte })
    } else if op < 0x5000 {
        Some(Instruction::SkipNeByte { x, byte })
    } else if op < 0x6000 {
        Some(Instruction::SkipEqReg { x, y })
    } else if op < 0x7000 {
        Some(Instruction::LoadByte { x, byte })
    } else if op < 0x8000 {
        Some(Instruction::AddByte { x, byte })
    } else if op < 0x9000 {
        if n == 0x0 {
            Some(Instruction::LoadReg { x, y })
        } else if n == 0x1 {
            Some(Instruction::Or { x, y })
        } else if n == 0x2 {
            Some(Instruction::And { x, y })
        } else if n == 0x3 {
            Some(Instruction::Xor { x, y })
        } else if n == 0x4 {
            Some(Instruction::AddReg { x, y })
        } else if n == 0x5 {
            Some(Instruction::Sub { x, y })
        } else if n == 0x6 {
            Some(Instruction::ShiftRight { x })
        } else if n == 0x7 {
            Some(Instruction::SubReverse { x, y })
        } else if n == 0xE {
            Some(Instruction::ShiftLeft { x })
        } else {
            None
        }
    } else if op < 0xA000 {
        Some(Instruction::SkipNeReg { x, y })
    } else if op < 0xB000 {
        Some(Instruction::LoadIndex { addr })
    } else if op < 0xC000 {
        Some(Instruction::JumpOffset { addr })
    } else if op < 0xD000 {
        Some(Instruction::Random { x, byte })
    } else if op < 0xE000 {
        Some(Instruction::Draw { x, y, rows: n })
    } else if op < 0xF000 {
        if byte == 0x9E {
            Some(Instruction::SkipKey { x })
        } else if byte == 0xA1 {
            Some(Instruction::SkipNoKey { x })
        } else {
            None
        }
    } else {
        if byte == 0x07 {
            Some(Instruction::LoadDelay { x })
        } else if byte == 0x0A {
            Some(Instruction::WaitKey { x })
        } else if byte == 0x15 {
            Some(Instruction::SetDelay { x })
        } else if byte == 0x18 {
            Some(Instruction::SetSound { x })
        } else if byte == 0x1E {
            Some(Instruction::AddIndex { x })
        } else if byte == 0x29 {
            Some(Instruction::LoadFont { x })
        } else if byte == 0x33 {
            Some(Instruction::StoreBcd { x })
        } else if byte == 0x55 {
            Some(Instruction::StoreRegs { x })
        } else if byte == 0x65 {
            Some(Instruction::LoadRegs { x })
        } else {
            None
        }
    }
}

/// The error reported for an opcode that decodes to no instruction.
pub open spec fn decode_error(op: u16) -> DecodeError {
    if op < 0x1000 {
        DecodeError::MachineRoutine(op)
    } else {
        DecodeError::UnknownOpcode(op)
    }
}

impl Instruction {
    /// The operands lie in the ranges an opcode can encode.
    pub open spec fn operands_in_range(self) -> bool {
        match self {
            Instruction::Jump { addr } | Instruction::Call { addr } | Instruction::LoadIndex {
                addr,
            } | Instruction::JumpOffset { addr } => addr < 4096,
            Instruction::SkipEqReg { x, y } | Instruction::LoadReg { x, y } | Instruction::Or {
                x,
                y,
            } | Instruction::And { x, y } | Instruction::Xor { x, y } | Instruction::AddReg {
                x,
                y,
            } | Instruction::Sub { x, y } | Instruction::SubReverse { x, y }
            | Instruction::SkipNeReg { x, y } => x < 16 && y < 16,
            Instruction::Draw { x, y, rows } => x < 16 && y < 16 && rows < 16,
            Instruction::SkipEqByte { x, .. } | Instruction::SkipNeByte { x, .. }
            | Instruction::LoadByte { x, .. } | Instruction::AddByte { x, .. }
            | Instruction::Random { x, .. } | Instruction::ShiftRight { x }
            | Instruction::ShiftLeft { x } | Instruction::SkipKey { x } | Instruction::SkipNoKey {
                x,
            } | Instruction::LoadDelay { x } | Instruction::WaitKey { x } | Instruction::SetDelay {
                x,
            } | Instruction::SetSound { x } | Instruction::AddIndex { x } | Instruction::LoadFont {
                x,
            } | Instruction::StoreBcd { x } | Instruction::StoreRegs { x }
            | Instruction::LoadRegs { x } => x < 16,
            Instruction::Clear | Instruction::Return => true,
        }
    }
}

/// Value of register `i`.
pub open spec fn reg(m: Machine, i: u8) -> u8 {
    m.registers[i as int]
}

/// The state with register `i` set to `v`.
pub open spec fn with_register(m: Machine, i: int, v: u8) -> Machine {
    Machine { registers: m.registers.update(i, v), ..m }
}

/// The state with the next instruction skipped when `cond` holds.
pub open spec fn skip_if(m: Machine, cond: bool) -> Machine {
    if cond {
        Machine { pc: (m.pc + 2) as u16, ..m }
    } else {
        m
    }
}

/// Bit `col` of a sprite row, counted from the most significant bit.
pub open spec fn sprite_bit(byte: u8, col: int) -> bool {
    (byte >> ((7 - col) as u8)) & 1u8 == 1u8
}

/// Row of the sprite that screen pixel `p` shows when the sprite's top-left
/// corner is at row `y` (rows wrap around the screen).
pub open spec fn sprite_row(p: int, y: int) -> int {
    (p / 64 - y) % 32
}

/// Column of the sprite that screen pixel `p` shows when the sprite's
/// top-left corner is at column `x` (columns wrap around the screen).
pub open spec fn sprite_col(p: int, x: int) -> int {
    (p % 64 - x) % 64
}

/// Whether drawing the `rows`-byte sprite stored at `start` with its top-left
/// corner at `(x, y)` flips screen pixel `p`.
pub open spec fn sprite_pixel(memory: Seq<u8>, start: int, rows: int, x: int, y: int, p: int) -> bool {
    let r = sprite_row(p, y);
    let c = sprite_col(p, x);
    r < rows && c < 8 && sprite_bit(memory[start + r], c)
}

/// The frame after the sprite has been XOR-ed onto it.
pub open spec fn drawn_frame(
    frame: Seq<bool>,
    memory: Seq<u8>,
    start: int,
    rows: int,
    x: int,
    y: int,
) -> Seq<bool> {
    Seq::new(frame.len(), |p: int| frame[p] != sprite_pixel(memory, start, rows, x, y, p))
}

/// Whether drawing the sprite turns some lit pixel off.
pub open spec fn draw_collides(
    frame: Seq<bool>,
    memory: Seq<u8>,
    start: int,
    rows: int,
    x: int,
    y: int,
) -> bool {
    exists|p: int|
        0 <= p < frame.len() && #[trigger] sprite_pixel(memory, start, rows, x, y, p) && frame[p]
}

/// Whether some key is down.
pub open spec fn any_key(keys: Seq<bool>) -> bool {
    exists|i: int| 0 <= i < 16 && #[trigger] keys[i]
}

/// `i` is the lowest key that is down.
pub open spec fn is_first_key(keys: Seq<bool>, i: int) -> bool {
    &&& 0 <= i < 16
    &&& keys[i]
    &&& forall|j: int| 0 <= j < i ==> !#[trigger] keys[j]
}

/// The lowest key that is down (meaningful when `any_key(keys)`).
pub open spec fn first_key(keys: Seq<bool>) -> int {
    choose|i: int| is_first_key(keys, i)
}

/// The decimal digits of `v`, most significant first, at `start`.
pub open spec fn with_bcd(memory: Seq<u8>, start: int, v: u8) -> Seq<u8> {
    memory.update(start, v / 100).update(start + 1, (v / 10) % 10).update(start + 2, v % 10)
}

/// The state after executing `ins`, where `random` is the byte the random
/// number generator produced (used by `Random` only).
pub open spec fn apply(m: Machine, ins: Instruction, random: u8) -> Machine {
    match ins {
        Instruction::Clear => Machine { frame: blank_frame(), ..m },
        Instruction::Return => {
            let sp = (m.sp - 1) as u8;
            Machine { sp, pc: m.stack[sp as int], ..m }
        },
        Instruction::Jump { addr } => Machine { pc: addr, ..m },
        Instruction::Call { addr } => Machine {
            stack: m.stack.update(m.sp as int, m.pc),
            sp: (m.sp + 1) as u8,
            pc: addr,
            ..m
        },
        Instruction::SkipEqByte { x, byte } => skip_if(m, reg(m, x) == byte),
        Instruction::SkipNeByte { x, byte } => skip_if(m, reg(m, x) != byte),
        Instruction::SkipEqReg { x, y } => skip_if(m, reg(m, x) == reg(m, y)),
        Instruction::LoadByte { x, byte } => with_register(m, x as int, byte),
        Instruction::AddByte { x, byte } => with_register(
            m,
            x as int,
            ((reg(m, x) + byte) % 256) as u8,
        ),
        Instruction::LoadReg { x, y } => with_register(m, x as int, reg(m, y)),
        Instruction::Or { x, y } => with_register(m, x as int, reg(m, x) | reg(m, y)),
        Instruction::And { x, y } => with_register(m, x as int, reg(m, x) & reg(m, y)),
        Instruction::Xor { x, y } => with_register(m, x as int, reg(m, x) ^ reg(m, y)),
        Instruction::AddReg { x, y } => {
            let sum = reg(m, x) + reg(m, y);
            with_register(
                with_register(m, x as int, (sum % 256) as u8),
                15,
                if sum > 255 { 1 } else { 0 },
            )
        },
        Instruction::Sub { x, y } => with_register(
            with_register(m, x as int, ((reg(m, x) - reg(m, y)) % 256) as u8),
            15,
            if reg(m, x) >= reg(m, y) { 1 } else { 0 },
        ),
        Instruction::ShiftRight { x } => {
            let m1 = with_register(m, 15, reg(m, x) % 2);
            with_register(m1, x as int, reg(m1, x) / 2)
        },
        Instruction::SubReverse { x, y } => with_register(
            with_register(m, x as int, ((reg(m, y) - reg(m, x)) % 256) as u8),
            15,
            if reg(m, y) >= reg(m, x) { 1 } else { 0 },
        ),
        Instruction::ShiftLeft { x } => {
            let m1 = with_register(m, 15, reg(m, x) / 128);
            with_register(m1, x as int, ((reg(m1, x) * 2) % 256) as u8)
        },
        Instruction::SkipNeReg { x, y } => skip_if(m, reg(m, x) != reg(m, y)),
        Instruction::LoadIndex { addr } => Machine { index: addr, ..m },
        Instruction::JumpOffset { addr } => Machine { pc: (addr + reg(m, 0)) as u16, ..m },
        Instruction::Random { x, byte } => with_register(m, x as int, byte & random),
        Instruction::Draw { x, y, rows } => {
            let px = reg(m, x) as int;
            let py = reg(m, y) as int;
            let start = m.index as int;
            let drawn = Machine {
                frame: drawn_frame(m.frame, m.memory, start, rows as int, px, py),
                ..m
            };
            if draw_collides(m.frame, m.memory, start, rows as int, px, py) {
                with_register(drawn, 15, 1)
            } else {
                drawn
            }
        },
        Instruction::SkipKey { x } => skip_if(m, m.keys[reg(m, x) as int]),
        Instruction::SkipNoKey { x } => skip_if(m, !m.keys[reg(m, x) as int]),
        Instruction::LoadDelay { x } => with_register(m, x as int, m.delay_timer),
        Instruction::WaitKey { x } => if any_key(m.keys) {
            with_register(m, x as int, first_key(m.keys) as u8)
        } else {
            Machine { pc: (m.pc - 2) as u16, ..m }
        },
        Instruction::SetDelay { x } => Machine { delay_timer: reg(m, x), ..m },
        Instruction::SetSound { x } => Machine { sound_timer: reg(m, x), ..m },
        Instruction::AddIndex { x } => Machine {
            index: ((m.index + reg(m, x)) % 65536) as u16,
            ..m
        },
        Instruction::LoadFont { x } => Machine { index: (reg(m, x) * 5) as u16, ..m },
        Instruction::StoreBcd { x } => Machine {
            memory: with_bcd(m.memory, m.index as int, reg(m, x)),
            ..m
        },
        Instruction::StoreRegs { x } => Machine {
            memory: Seq::new(
                m.memory.len(),
                |a: int|
                    if m.index <= a <= m.index + x {
                        m.registers[a - m.index]
                    } else {
                        m.memory[a]
                    },
            ),
            ..m
        },
        Instruction::LoadRegs { x } => Machine {
            registers: Seq::new(
                m.registers.len(),
                |r: int| if r <= x { m.memory[m.index + r] } else { m.registers[r] },
            ),
            ..m
        },
    }
}

/// The instruction can run in state `m` without a fault: no stack underflow
/// or overflow, no program counter overflow, and every memory and keypad
/// access in range.
pub open spec fn permitted(m: Machine, ins: Instruction) -> bool {
    match ins {
        Instruction::Return => 0 < m.sp <= 16,
        Instruction::Call { .. } => m.sp < 16,
        Instruction::SkipEqByte { x, byte } => reg(m, x) == byte ==> m.pc + 2 <= 0xFFFF,
        Instruction::SkipNeByte { x, byte } => reg(m, x) != byte ==> m.pc + 2 <= 0xFFFF,
        Instruction::SkipEqReg { x, y } => reg(m, x) == reg(m, y) ==> m.pc + 2 <= 0xFFFF,
        Instruction::SkipNeReg { x, y } => reg(m, x) != reg(m, y) ==> m.pc + 2 <= 0xFFFF,
        Instruction::Draw { rows, .. } => rows == 0 || m.index + rows <= 4096,
        Instruction::SkipKey { x } => reg(m, x) < 16 && (m.keys[reg(m, x) as int] ==> m.pc + 2
            <= 0xFFFF),
        Instruction::SkipNoKey { x } => reg(m, x) < 16 && (!m.keys[reg(m, x) as int] ==> m.pc
            + 2 <= 0xFFFF),
        Instruction::WaitKey { .. } => !any_key(m.keys) ==> m.pc >= 2,
        Instruction::StoreBcd { .. } => m.index + 2 < 4096,
        Instruction::StoreRegs { x } => m.index + x < 4096,
        Instruction::LoadRegs { x } => m.index + x < 4096,
        _ => true,
    }
}

/// The opcode either decodes to no instruction or to one that can run in `m`.
pub open spec fn executable(m: Machine, op: u16) -> bool {
    match decode(op) {
        Some(ins) => permitted(m, ins),
        None => true,
    }
}

} // verus!

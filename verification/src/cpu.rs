//! The executable machine: registers, memory, call stack, timers, keypad and
//! screen, and the fetch / execute cycle.

use vstd::prelude::*;
use crate::display::Display;
use crate::draw::{
    lemma_draw_end, lemma_draw_next_row, lemma_draw_start, lemma_draw_step, partial_collides,
    partial_frame,
};
use crate::keypad::{pressed_keys, slot_of, Key};
use crate::rng::random_in;
use crate::machine::{
    any_key, apply, decode, decode_error, executable, first_key, font_sprites, initial_machine,
    is_first_key, loaded, op_addr, op_byte, op_nibble, op_x, op_y, permitted, sprite_bit, ticked,
    word_at, DecodeError, Instruction, Machine, FLAG, FONT_SIZE, KEY_COUNT, MEMORY_SIZE,
    PROGRAM_START, REGISTER_COUNT, STACK_DEPTH,
};

verus! {

/// Why a program image could not be loaded.
#[derive(Clone, Copy, Debug, PartialEq, Eq, Structural)]
pub enum RomError {
    /// The image does not fit between the program counter and the end of
    /// memory.
    OutOfMemory,
}

/// A CHIP-8 processor with its memory, keypad and screen.
pub struct Cpu {
    pub registers: [u8; REGISTER_COUNT],
    pub index_register: u16,
    pub program_counter: u16,
    pub memory: [u8; MEMORY_SIZE],
    pub level_stack: [u16; STACK_DEPTH],
    pub stack_pointer: u8,
    pub delay_timer: u8,
    pub sound_timer: u8,
    pub display: Display,
    pub keys: [bool; KEY_COUNT],
}

impl View for Cpu {
    type V = Machine;

    open spec fn view(&self) -> Machine {
        Machine {
            registers: self.registers@,
            index: self.index_register,
            pc: self.program_counter,
            memory: self.memory@,
            stack: self.level_stack@,
            sp: self.stack_pointer,
            delay_timer: self.delay_timer,
            sound_timer: self.sound_timer,
            frame: self.display@,
            keys: self.keys@,
        }
    }
}

/// Register, byte and address fields of an opcode, as the masks and shifts
/// of the executable code compute them.
proof fn lemma_opcode_fields(op: u16)
    by (bit_vector)
    ensures
        (op >> 8u16) & 0x0Fu16 == op / 256 % 16,
        (op >> 4u16) & 0x0Fu16 == op / 16 % 16,
        op & 0x0Fu16 == op % 16,
        op & 0xFFu16 == op % 256,
        op & 0x0FFFu16 == op % 4096,
{
}

/// Bit manipulations of a register, as arithmetic.
proof fn lemma_byte_bits(v: u8)
    by (bit_vector)
    ensures
        v & 1u8 == v % 2,
        v >> 1u8 == v / 2,
        (v >> 7u8) & 1u8 == v / 128,
        v << 1u8 == ((v * 2) % 256) as u8,
{
}

/// A big-endian word from two bytes.
proof fn lemma_word(hi: u8, lo: u8)
    by (bit_vector)
    ensures
        ((hi as u16) << 8u16) | (lo as u16) == hi * 256 + lo,
{
}

impl Cpu {
    /// Every component of the processor has the size of the hardware.
    pub proof fn lemma_valid(&self)
        ensures
            self@.valid(),
    {
        self.display.lemma_frame_len();
    }

    /// A processor in its power-on state: the font at address 0, the program
    /// counter at `PROGRAM_START`, everything else cleared.
    pub fn new() -> (cpu: Self)
        ensures
            cpu@ == initial_machine(),
    {
        let font: [u8; FONT_SIZE] = [
            0xF0, 0x90, 0x90, 0x90, 0xF0,
            0x20, 0x60, 0x20, 0x20, 0x70,
            0xF0, 0x10, 0xF0, 0x80, 0xF0,
            0xF0, 0x10, 0xF0, 0x10, 0xF0,
            0x90, 0x90, 0xF0, 0x10, 0x10,
            0xF0, 0x80, 0xF0, 0x10, 0xF0,
            0xF0, 0x80, 0xF0, 0x90, 0xF0,
            0xF0, 0x10, 0x20, 0x40, 0x40,
            0xF0, 0x90, 0xF0, 0x90, 0xF0,
            0xF0, 0x90, 0xF0, 0x10, 0xF0,
            0xF0, 0x90, 0xF0, 0x90, 0x90,
            0xE0, 0x90, 0xE0, 0x90, 0xE0,
            0xF0, 0x80, 0x80, 0x80, 0xF0,
            0xE0, 0x90, 0x90, 0x90, 0xE0,
            0xF0, 0x80, 0xF0, 0x80, 0xF0,
            0xF0, 0x80, 0xF0, 0x80, 0x80,
        ];
        assert(font@ =~= font_sprites());
        let mut memory = [0u8; MEMORY_SIZE];
        let mut i: usize = 0;
        while i < FONT_SIZE
            invariant
                i <= FONT_SIZE,
                font@ == font_sprites(),
                forall|a: int|
                    0 <= a < MEMORY_SIZE ==> memory@[a] == if a < i {
                        font_sprites()[a]
                    } else {
                        0u8
                    },
            decreases FONT_SIZE - i,
        {
            memory[i] = font[i];
            i = i + 1;
        }
        let cpu = Cpu {
            registers: [0; REGISTER_COUNT],
            index_register: 0,
            program_counter: PROGRAM_START,
            memory,
            level_stack: [0; STACK_DEPTH],
            stack_pointer: 0,
            delay_timer: 0,
            sound_timer: 0,
            display: Display::new(),
            keys: [false; KEY_COUNT],
        };
        assert(cpu@.registers =~= initial_machine().registers);
        assert(cpu@.memory =~= initial_machine().memory);
        assert(cpu@.stack =~= initial_machine().stack);
        assert(cpu@.keys =~= initial_machine().keys);
        cpu
    }

    /// Copies a program image into memory from the program counter on.
    /// Fails, leaving the processor unchanged, when the image would reach the
    /// last byte of memory.
    pub fn load_rom(&mut self, rom: &[u8]) -> (res: Result<(), RomError>)
        ensures
            match res {
                Ok(()) => {
                    &&& old(self).program_counter + rom@.len() < MEMORY_SIZE
                    &&& final(self)@ == (Machine {
                        memory: loaded(old(self)@.memory, old(self).program_counter as int, rom@),
                        ..old(self)@
                    })
                },
                Err(e) => {
                    &&& old(self).program_counter + rom@.len() >= MEMORY_SIZE
                    &&& e == RomError::OutOfMemory
                    &&& final(self)@ == old(self)@
                },
            },
    {
        let start = self.program_counter as usize;
        if start >= MEMORY_SIZE || rom.len() >= MEMORY_SIZE - start {
            return Err(RomError::OutOfMemory);
        }
        let ghost before = self@;
        let mut j: usize = 0;
        while j < rom.len()
            invariant
                start == before.pc,
                start + rom@.len() < MEMORY_SIZE,
                j <= rom@.len(),
                self@ == (Machine { memory: self@.memory, ..before }),
                forall|a: int|
                    0 <= a < MEMORY_SIZE ==> self@.memory[a] == if start <= a < start + j {
                        rom@[a - start]
                    } else {
                        before.memory[a]
                    },
            decreases rom@.len() - j,
        {
            self.memory[j + start] = rom[j];
            j = j + 1;
        }
        assert(self@.memory =~= loaded(before.memory, start as int, rom@));
        Ok(())
    }

    /// Reads the big-endian opcode at the program counter and advances the
    /// program counter past it.
    pub fn fetch(&mut self) -> (opcode: u16)
        requires
            old(self).program_counter + 1 < MEMORY_SIZE,
        ensures
            opcode == word_at(old(self)@.memory, old(self).program_counter as int),
            final(self)@ == (Machine { pc: (old(self).program_counter + 2) as u16, ..old(self)@ }),
    {
        let pc = self.program_counter as usize;
        let hi = self.memory[pc];
        let lo = self.memory[pc + 1];
        proof {
            lemma_word(hi, lo);
        }
        let opcode = ((hi as u16) << 8) | lo as u16;
        self.program_counter = self.program_counter + 2;
        opcode
    }

    /// One tick of the 60 Hz timers: each non-zero timer counts down by one.
    pub fn tick_timers(&mut self)
        ensures
            final(self)@ == ticked(old(self)@),
    {
        if self.delay_timer > 0 {
            self.delay_timer = self.delay_timer - 1;
        }
        if self.sound_timer > 0 {
            self.sound_timer = self.sound_timer - 1;
        }
    }

    fn op_cls(&mut self)
        ensures
            final(self)@ == apply(old(self)@, Instruction::Clear, 0),
    {
        self.display.clear();
    }

    fn op_call(&mut self, opcode: u16)
        requires
            permitted(old(self)@, Instruction::Call { addr: op_addr(opcode) }),
        ensures
            final(self)@ == apply(old(self)@, Instruction::Call { addr: op_addr(opcode) }, 0),
    {
        proof {
            lemma_opcode_fields(opcode);
        }
        self.level_stack[self.stack_pointer as usize] = self.program_counter;
        self.stack_pointer = self.stack_pointer + 1;
        self.program_counter = opcode & 0x0FFF;
    }

    fn op_ret(&mut self)
        requires
            permitted(old(self)@, Instruction::Return),
        ensures
            final(self)@ == apply(old(self)@, Instruction::Return, 0),
    {
        self.stack_pointer = self.stack_pointer - 1;
        self.program_counter = self.level_stack[self.stack_pointer as usize];
    }

    fn op_jp(&mut self, opcode: u16)
        ensures
            final(self)@ == apply(old(self)@, Instruction::Jump { addr: op_addr(opcode) }, 0),
    {
        proof {
            lemma_opcode_fields(opcode);
        }
        self.program_counter = opcode & 0x0FFF;
    }

    fn op_se(&mut self, opcode: u16)
        requires
            permitted(
                old(self)@,
                Instruction::SkipEqByte { x: op_x(opcode), byte: op_byte(opcode) },
            ),
        ensures
            final(self)@ == apply(
                old(self)@,
                Instruction::SkipEqByte { x: op_x(opcode), byte: op_byte(opcode) },
                0,
            ),
    {
        proof {
            lemma_opcode_fields(opcode);
        }
        let x = (opcode >> 8) & 0x0F;
        let kk = opcode & 0xFF;
        if self.registers[x as usize] == kk as u8 {
            self.program_counter = self.program_counter + 2;
        }
    }

    fn op_add_regs(&mut self, opcode: u16)
        ensures
            final(self)@ == apply(
                old(self)@,
                Instruction::AddReg { x: op_x(opcode), y: op_y(opcode) },
                0,
            ),
    {
        proof {
            lemma_opcode_fields(opcode);
        }
        let x = (opcode >> 8) & 0x0F;
        let y = (opcode >> 4) & 0x0F;
        let vx = self.registers[x as usize];
        let vy = self.registers[y as usize];
        let result = vx.wrapping_add(vy);
        let overflow = vy > 255 - vx;
        self.registers[x as usize] = result;
        self.registers[FLAG] = if overflow {
            1
        } else {
            0
        };
    }

    fn op_shl(&mut self, opcode: u16)
        ensures
            final(self)@ == apply(old(self)@, Instruction::ShiftLeft { x: op_x(opcode) }, 0),
    {
        proof {
            lemma_opcode_fields(opcode);
            lemma_byte_bits(self.registers[((opcode >> 8) & 0x0F) as int]);
        }
        let x = (opcode >> 8) & 0x0F;
        self.registers[FLAG] = (self.registers[x as usize] >> 7) & 0x1;
        proof {
            lemma_byte_bits(self.registers[x as int]);
        }
        self.registers[x as usize] = self.registers[x as usize] << 1;
    }

    fn op_sne(&mut self, opcode: u16)
        requires
            permitted(
                old(self)@,
                Instruction::SkipNeByte { x: op_x(opcode), byte: op_byte(opcode) },
            ),
        ensures
            final(self)@ == apply(
                old(self)@,
                Instruction::SkipNeByte { x: op_x(opcode), byte: op_byte(opcode) },
                0,
            ),
    {
        proof {
            lemma_opcode_fields(opcode);
        }
        let x = (opcode >> 8) & 0x0F;
        let kk = opcode & 0xFF;
        if self.registers[x as usize] != kk as u8 {
            self.program_counter = self.program_counter + 2;
        }
    }

    fn op_se_regs(&mut self, opcode: u16)
        requires
            permitted(old(self)@, Instruction::SkipEqReg { x: op_x(opcode), y: op_y(opcode) }),
        ensures
            final(self)@ == apply(
                old(self)@,
                Instruction::SkipEqReg { x: op_x(opcode), y: op_y(opcode) },
                0,
            ),
    {
        proof {
            lemma_opcode_fields(opcode);
        }
        let x = (opcode >> 8) & 0x0F;
        let y = (opcode >> 4) & 0x0F;
        if self.registers[x as usize] == self.registers[y as usize] {
            self.program_counter = self.program_counter + 2;
        }
    }

    fn op_add(&mut self, opcode: u16)
        ensures
            final(self)@ == apply(
                old(self)@,
                Instruction::AddByte { x: op_x(opcode), byte: op_byte(opcode) },
                0,
            ),
    {
        proof {
            lemma_opcode_fields(opcode);
        }
        let x = (opcode >> 8) & 0x0F;
        let kk = opcode & 0xFF;
        self.registers[x as usize] = self.registers[x as usize].wrapping_add(kk as u8);
    }

    fn op_ld(&mut self, opcode: u16)
        ensures
            final(self)@ == apply(
                old(self)@,
                Instruction::LoadByte { x: op_x(opcode), byte: op_byte(opcode) },
                0,
            ),
    {
        proof {
            lemma_opcode_fields(opcode);
        }
        let x = (opcode >> 8) & 0x0F;
        let kk = opcode & 0xFF;
        self.registers[x as usize] = kk as u8;
    }

    fn op_ld_regs(&mut self, opcode: u16)
        ensures
            final(self)@ == apply(
                old(self)@,
                Instruction::LoadReg { x: op_x(opcode), y: op_y(opcode) },
                0,
            ),
    {
        proof {
            lemma_opcode_fields(opcode);
        }
        let x = (opcode >> 8) & 0x0F;
        let y = (opcode >> 4) & 0x0F;
        self.registers[x as usize] = self.registers[y as usize];
    }

    fn op_or(&mut self, opcode: u16)
        ensures
            final(self)@ == apply(
                old(self)@,
                Instruction::Or { x: op_x(opcode), y: op_y(opcode) },
                0,
            ),
    {
        proof {
            lemma_opcode_fields(opcode);
        }
        let x = (opcode >> 8) & 0x0F;
        let y = (opcode >> 4) & 0x0F;
        self.registers[x as usize] = self.registers[x as usize] | self.registers[y as usize];
    }

    fn op_and(&mut self, opcode: u16)
        ensures
            final(self)@ == apply(
                old(self)@,
                Instruction::And { x: op_x(opcode), y: op_y(opcode) },
                0,
            ),
    {
        proof {
            lemma_opcode_fields(opcode);
        }
        let x = (opcode >> 8) & 0x0F;
        let y = (opcode >> 4) & 0x0F;
        self.registers[x as usize] = self.registers[x as usize] & self.registers[y as usize];
    }

    fn op_xor(&mut self, opcode: u16)
        ensures
            final(self)@ == apply(
                old(self)@,
                Instruction::Xor { x: op_x(opcode), y: op_y(opcode) },
                0,
            ),
    {
        proof {
            lemma_opcode_fields(opcode);
        }
        let x = (opcode >> 8) & 0x0F;
        let y = (opcode >> 4) & 0x0F;
        self.registers[x as usize] = self.registers[x as usize] ^ self.registers[y as usize];
    }

    fn op_sub(&mut self, opcode: u16)
        ensures
            final(self)@ == apply(
                old(self)@,
                Instruction::Sub { x: op_x(opcode), y: op_y(opcode) },
                0,
            ),
    {
        proof {
            lemma_opcode_fields(opcode);
        }
        let x = (opcode >> 8) & 0x0F;
        let y = (opcode >> 4) & 0x0F;
        let vx = self.registers[x as usize];
        let vy = self.registers[y as usize];
        let result = vx.wrapping_sub(vy);
        let borrow = vx < vy;
        self.registers[x as usize] = result;
        self.registers[FLAG] = if borrow {
            0
        } else {
            1
        };
    }

    fn op_shr(&mut self, opcode: u16)
        ensures
            final(self)@ == apply(old(self)@, Instruction::ShiftRight { x: op_x(opcode) }, 0),
    {
        proof {
            lemma_opcode_fields(opcode);
            lemma_byte_bits(self.registers[((opcode >> 8) & 0x0F) as int]);
        }
        let x = (opcode >> 8) & 0x0F;
        self.registers[FLAG] = self.registers[x as usize] & 0x1;
        proof {
            lemma_byte_bits(self.registers[x as int]);
        }
        self.registers[x as usize] = self.registers[x as usize] >> 1;
    }

    fn op_subn(&mut self, opcode: u16)
        ensures
            final(self)@ == apply(
                old(self)@,
                Instruction::SubReverse { x: op_x(opcode), y: op_y(opcode) },
                0,
            ),
    {
        proof {
            lemma_opcode_fields(opcode);
        }
        let x = (opcode >> 8) & 0x0F;
        let y = (opcode >> 4) & 0x0F;
        let vx = self.registers[x as usize];
        let vy = self.registers[y as usize];
        let result = vy.wrapping_sub(vx);
        let borrow = vy < vx;
        self.registers[x as usize] = result;
        self.registers[FLAG] = if borrow {
            0
        } else {
            1
        };
    }

    fn op_sne_regs(&mut self, opcode: u16)
        requires
            permitted(old(self)@, Instruction::SkipNeReg { x: op_x(opcode), y: op_y(opcode) }),
        ensures
            final(self)@ == apply(
                old(self)@,
                Instruction::SkipNeReg { x: op_x(opcode), y: op_y(opcode) },
                0,
            ),
    {
        proof {
            lemma_opcode_fields(opcode);
        }
        let x = (opcode >> 8) & 0x0F;
        let y = (opcode >> 4) & 0x0F;
        if self.registers[x as usize] != self.registers[y as usize] {
            self.program_counter = self.program_counter + 2;
        }
    }

    fn op_ldi(&mut self, opcode: u16)
        ensures
            final(self)@ == apply(old(self)@, Instruction::LoadIndex { addr: op_addr(opcode) }, 0),
    {
        proof {
            lemma_opcode_fields(opcode);
        }
        self.index_register = opcode & 0x0FFF;
    }

    fn op_jp_v0(&mut self, opcode: u16)
        ensures
            final(self)@ == apply(
                old(self)@,
                Instruction::JumpOffset { addr: op_addr(opcode) },
                0,
            ),
    {
        proof {
            lemma_opcode_fields(opcode);
        }
        self.program_counter = (opcode & 0x0FFF) + self.registers[0] as u16;
    }

    fn op_rnd(&mut self, opcode: u16, random: u8)
        ensures
            final(self)@ == apply(
                old(self)@,
                Instruction::Random { x: op_x(opcode), byte: op_byte(opcode) },
                random,
            ),
    {
        proof {
            lemma_opcode_fields(opcode);
        }
        let kk = opcode & 0xFF;
        let x = (opcode >> 8) & 0x0F;
        self.registers[x as usize] = kk as u8 & random;
    }

    fn op_skp(&mut self, opcode: u16)
        requires
            permitted(old(self)@, Instruction::SkipKey { x: op_x(opcode) }),
        ensures
            final(self)@ == apply(old(self)@, Instruction::SkipKey { x: op_x(opcode) }, 0),
    {
        proof {
            lemma_opcode_fields(opcode);
        }
        let x = ((opcode >> 8) & 0x0F) as usize;
        if self.keys[self.registers[x] as usize] {
            self.program_counter = self.program_counter + 2;
        }
    }

    fn op_sknp(&mut self, opcode: u16)
        requires
            permitted(old(self)@, Instruction::SkipNoKey { x: op_x(opcode) }),
        ensures
            final(self)@ == apply(old(self)@, Instruction::SkipNoKey { x: op_x(opcode) }, 0),
    {
        proof {
            lemma_opcode_fields(opcode);
        }
        let x = ((opcode >> 8) & 0x0F) as usize;
        if !self.keys[self.registers[x] as usize] {
            self.program_counter = self.program_counter + 2;
        }
    }

    fn op_ldxdt(&mut self, opcode: u16)
        ensures
            final(self)@ == apply(old(self)@, Instruction::LoadDelay { x: op_x(opcode) }, 0),
    {
        proof {
            lemma_opcode_fields(opcode);
        }
        let x = ((opcode >> 8) & 0x0F) as usize;
        self.registers[x] = self.delay_timer;
    }

    fn op_ldxk(&mut self, opcode: u16)
        requires
            permitted(old(self)@, Instruction::WaitKey { x: op_x(opcode) }),
        ensures
            final(self)@ == apply(old(self)@, Instruction::WaitKey { x: op_x(opcode) }, 0),
    {
        proof {
            lemma_opcode_fields(opcode);
        }
        let x = ((opcode >> 8) & 0x0F) as usize;
        let mut i: usize = 0;
        while i < KEY_COUNT
            invariant
                i <= KEY_COUNT,
                x == op_x(opcode),
                self@ == old(self)@,
                forall|j: int| 0 <= j < i ==> !self.keys@[j],
            decreases KEY_COUNT - i,
        {
            if self.keys[i] {
                proof {
                    assert(is_first_key(self.keys@, i as int));
                    assert(any_key(self.keys@));
                    let k = first_key(self.keys@);
                    assert(is_first_key(self.keys@, k));
                    assert(k == i);
                }
                self.registers[x] = i as u8;
                return;
            }
            i = i + 1;
        }
        // No key is down: step back so that this instruction runs again.
        self.program_counter = self.program_counter - 2;
    }

    fn op_lddt(&mut self, opcode: u16)
        ensures
            final(self)@ == apply(old(self)@, Instruction::SetDelay { x: op_x(opcode) }, 0),
    {
        proof {
            lemma_opcode_fields(opcode);
        }
        let x = ((opcode >> 8) & 0x0F) as usize;
        self.delay_timer = self.registers[x];
    }

    fn op_ldst(&mut self, opcode: u16)
        ensures
            final(self)@ == apply(old(self)@, Instruction::SetSound { x: op_x(opcode) }, 0),
    {
        proof {
            lemma_opcode_fields(opcode);
        }
        let x = ((opcode >> 8) & 0x0F) as usize;
        self.sound_timer = self.registers[x];
    }

    fn op_addi(&mut self, opcode: u16)
        ensures
            final(self)@ == apply(old(self)@, Instruction::AddIndex { x: op_x(opcode) }, 0),
    {
        proof {
            lemma_opcode_fields(opcode);
        }
        let x = ((opcode >> 8) & 0x0F) as usize;
        self.index_register = self.index_register.wrapping_add(self.registers[x] as u16);
    }

    fn op_ldf(&mut self, opcode: u16)
        ensures
            final(self)@ == apply(old(self)@, Instruction::LoadFont { x: op_x(opcode) }, 0),
    {
        proof {
            lemma_opcode_fields(opcode);
        }
        let x = ((opcode >> 8) & 0x0F) as usize;
        self.index_register = (self.registers[x] as u16) * 5;
    }

    fn op_lbd(&mut self, opcode: u16)
        requires
            permitted(old(self)@, Instruction::StoreBcd { x: op_x(opcode) }),
        ensures
            final(self)@ == apply(old(self)@, Instruction::StoreBcd { x: op_x(opcode) }, 0),
    {
        proof {
            lemma_opcode_fields(opcode);
        }
        let x = ((opcode >> 8) & 0x0F) as usize;
        let value = self.registers[x];
        let i = self.index_register as usize;
        self.memory[i] = value / 100;
        self.memory[i + 1] = (value / 10) % 10;
        self.memory[i + 2] = value % 10;
    }

    fn op_ldix(&mut self, opcode: u16)
        requires
            permitted(old(self)@, Instruction::StoreRegs { x: op_x(opcode) }),
        ensures
            final(self)@ == apply(old(self)@, Instruction::StoreRegs { x: op_x(opcode) }, 0),
    {
        proof {
            lemma_opcode_fields(opcode);
        }
        let x = ((opcode >> 8) & 0x0F) as usize;
        let base = self.index_register as usize;
        let ghost before = self@;
        let mut i: usize = 0;
        while i <= x
            invariant
                x == op_x(opcode),
                base == before.index,
                base + x < MEMORY_SIZE,
                i <= x + 1,
                self@ == (Machine { memory: self@.memory, ..before }),
                forall|a: int|
                    0 <= a < MEMORY_SIZE ==> self@.memory[a] == if base <= a < base + i {
                        before.registers[a - base]
                    } else {
                        before.memory[a]
                    },
            decreases x + 1 - i,
        {
            self.memory[base + i] = self.registers[i];
            i = i + 1;
        }
        assert(self@.memory =~= apply(before, Instruction::StoreRegs { x: op_x(opcode) }, 0).memory);
    }

    fn op_ldxi(&mut self, opcode: u16)
        requires
            permitted(old(self)@, Instruction::LoadRegs { x: op_x(opcode) }),
        ensures
            final(self)@ == apply(old(self)@, Instruction::LoadRegs { x: op_x(opcode) }, 0),
    {
        proof {
            lemma_opcode_fields(opcode);
        }
        let x = ((opcode >> 8) & 0x0F) as usize;
        let base = self.index_register as usize;
        let ghost before = self@;
        let mut i: usize = 0;
        while i <= x
            invariant
                x == op_x(opcode),
                x < REGISTER_COUNT,
                base == before.index,
                base + x < MEMORY_SIZE,
                i <= x + 1,
                self@ == (Machine { registers: self@.registers, ..before }),
                forall|r: int|
                    0 <= r < REGISTER_COUNT ==> self@.registers[r] == if r < i {
                        before.memory[base + r]
                    } else {
                        before.registers[r]
                    },
            decreases x + 1 - i,
        {
            self.registers[i] = self.memory[base + i];
            i = i + 1;
        }
        assert(self@.registers =~= apply(
            before,
            Instruction::LoadRegs { x: op_x(opcode) },
            0,
        ).registers);
    }
    fn op_drw(&mut self, opcode: u16)
        requires
            permitted(
                old(self)@,
                Instruction::Draw { x: op_x(opcode), y: op_y(opcode), rows: op_nibble(opcode) },
            ),
        ensures
            final(self)@ == apply(
                old(self)@,
                Instruction::Draw { x: op_x(opcode), y: op_y(opcode), rows: op_nibble(opcode) },
                0,
            ),
    {
        proof {
            lemma_opcode_fields(opcode);
            self.lemma_valid();
        }
        let x = self.registers[((opcode >> 8) & 0x0F) as usize] as u16;
        let y = self.registers[((opcode >> 4) & 0x0F) as usize] as u16;
        let nibble = opcode & 0x0F;
        let ghost before = self@;
        let ghost start = before.index as int;
        let ghost rows = nibble as int;
        proof {
            lemma_draw_start(before.frame, before.memory, start, rows, x as int, y as int);
        }
        let mut byte_index: u16 = 0;
        while byte_index < nibble
            invariant
                before.valid(),
                nibble < 16,
                rows == nibble,
                start == before.index,
                nibble == 0 || start + nibble <= MEMORY_SIZE,
                x < 256,
                y < 256,
                byte_index <= nibble,
                self@ == (Machine { frame: self@.frame, registers: self@.registers, ..before }),
                self@.frame == partial_frame(
                    before.frame,
                    before.memory,
                    start,
                    rows,
                    x as int,
                    y as int,
                    byte_index as int,
                    0,
                ),
                self@.registers == if partial_collides(
                    before.frame,
                    before.memory,
                    start,
                    rows,
                    x as int,
                    y as int,
                    byte_index as int,
                    0,
                ) {
                    before.registers.update(15, 1)
                } else {
                    before.registers
                },
            decreases nibble - byte_index,
        {
            let byte = self.memory[self.index_register as usize + byte_index as usize];
            let mut bit_position: u16 = 0;
            while bit_position < 8
                invariant
                    before.valid(),
                    nibble < 16,
                    rows == nibble,
                    start == before.index,
                    start + nibble <= MEMORY_SIZE,
                    x < 256,
                    y < 256,
                    byte_index < nibble,
                    bit_position <= 8,
                    byte == before.memory[start + byte_index],
                    self@ == (Machine { frame: self@.frame, registers: self@.registers, ..before }),
                    self@.frame == partial_frame(
                        before.frame,
                        before.memory,
                        start,
                        rows,
                        x as int,
                        y as int,
                        byte_index as int,
                        bit_position as int,
                    ),
                    self@.registers == if partial_collides(
                        before.frame,
                        before.memory,
                        start,
                        rows,
                        x as int,
                        y as int,
                        byte_index as int,
                        bit_position as int,
                    ) {
                        before.registers.update(15, 1)
                    } else {
                        before.registers
                    },
                decreases 8 - bit_position,
            {
                let bit = (byte >> ((7 - bit_position) as u8)) & 0x1 == 1;
                proof {
                    lemma_draw_step(
                        before.frame,
                        before.memory,
                        start,
                        rows,
                        x as int,
                        y as int,
                        byte_index as int,
                        bit_position as int,
                    );
                    assert(bit == sprite_bit(byte, bit_position as int));
                }
                let collision = self.display.set_pixel(
                    ((x + bit_position) % 64) as usize,
                    ((y + byte_index) % 32) as usize,
                    bit,
                );
                if collision {
                    self.registers[FLAG] = 1;
                }
                proof {
                    assert(self@.registers =~= if partial_collides(
                        before.frame,
                        before.memory,
                        start,
                        rows,
                        x as int,
                        y as int,
                        byte_index as int,
                        bit_position + 1,
                    ) {
                        before.registers.update(15, 1)
                    } else {
                        before.registers
                    });
                }
                bit_position = bit_position + 1;
            }
            proof {
                lemma_draw_next_row(
                    before.frame,
                    before.memory,
                    start,
                    rows,
                    x as int,
                    y as int,
                    byte_index as int,
                );
            }
            byte_index = byte_index + 1;
        }
        proof {
            lemma_draw_end(before.frame, before.memory, start, rows, x as int, y as int);
        }
    }
    /// Sets the keypad from the host keys that are down: keypad key `i` is
    /// down exactly when some key of `keys` stands for it.
    pub fn update_keys(&mut self, keys: &[Key])
        ensures
            final(self)@ == (Machine { keys: pressed_keys(keys@), ..old(self)@ }),
    {
        let ghost before = self@;
        self.keys = [false; KEY_COUNT];
        let mut j: usize = 0;
        while j < keys.len()
            invariant
                j <= keys@.len(),
                self@ == (Machine { keys: self@.keys, ..before }),
                forall|i: int|
                    0 <= i < KEY_COUNT ==> self.keys@[i] == exists|k: int|
                        0 <= k < j && #[trigger] slot_of(keys@[k]) == Some(i as u8),
            decreases keys@.len() - j,
        {
            let slot = keys[j].slot();
            if let Some(i) = slot {
                self.keys[i as usize] = true;
            }
            proof {
                assert forall|i: int|
                    0 <= i < KEY_COUNT implies self.keys@[i] == exists|k: int|
                        0 <= k < j + 1 && #[trigger] slot_of(keys@[k]) == Some(i as u8) by {
                    if slot == Some(i as u8) {
                        assert(slot_of(keys@[j as int]) == Some(i as u8));
                    }
                }
            }
            j = j + 1;
        }
        assert(self.keys@ =~= pressed_keys(keys@));
    }

    /// Whether some keypad key is down.
    fn any_key_down(&self) -> (down: bool)
        ensures
            down == any_key(self.keys@),
    {
        let mut i: usize = 0;
        while i < KEY_COUNT
            invariant
                i <= KEY_COUNT,
                forall|j: int| 0 <= j < i ==> !self.keys@[j],
            decreases KEY_COUNT - i,
        {
            if self.keys[i] {
                return true;
            }
            i = i + 1;
        }
        false
    }

    /// Whether executing `opcode` now runs without a fault (see
    /// `permitted`); an opcode that names no instruction can always be
    /// executed, to be reported as unknown.
    pub fn can_execute(&self, opcode: u16) -> (ok: bool)
        ensures
            ok == executable(self@, opcode),
    {
        proof {
            lemma_opcode_fields(opcode);
            self.lemma_valid();
        }
        let x = ((opcode >> 8) & 0x0F) as usize;
        let y = ((opcode >> 4) & 0x0F) as usize;
        let kk = (opcode & 0xFF) as u8;
        let n = opcode & 0x0F;
        let index = self.index_register as usize;
        let sp = self.stack_pointer;
        let skip_fits = self.program_counter <= 0xFFFD;
        if opcode == 0x00EE {
            0 < sp && sp <= 16
        } else if 0x2000 <= opcode && opcode <= 0x2FFF {
            sp < 16
        } else if 0x3000 <= opcode && opcode <= 0x3FFF {
            self.registers[x] != kk || skip_fits
        } else if 0x4000 <= opcode && opcode <= 0x4FFF {
            self.registers[x] == kk || skip_fits
        } else if 0x5000 <= opcode && opcode <= 0x5FFF {
            self.registers[x] != self.registers[y] || skip_fits
        } else if 0x9000 <= opcode && opcode <= 0x9FFF {
            self.registers[x] == self.registers[y] || skip_fits
        } else if 0xD000 <= opcode && opcode <= 0xDFFF {
            n == 0 || index + (n as usize) <= MEMORY_SIZE
        } else if 0xE000 <= opcode && opcode <= 0xEFFF {
            let key = self.registers[x] as usize;
            if kk == 0x9E {
                key < KEY_COUNT && (!self.keys[key] || skip_fits)
            } else if kk == 0xA1 {
                key < KEY_COUNT && (self.keys[key] || skip_fits)
            } else {
                true
            }
        } else if 0xF000 <= opcode {
            if kk == 0x0A {
                self.any_key_down() || self.program_counter >= 2
            } else if kk == 0x33 {
                index + 2 < MEMORY_SIZE
            } else if kk == 0x55 || kk == 0x65 {
                index + x < MEMORY_SIZE
            } else {
                true
            }
        } else {
            true
        }
    }

    /// Executes `opcode`, with `random` as the byte the random number
    /// generator produced. An opcode that names no instruction is reported
    /// and changes nothing.
    pub fn execute_with_random(&mut self, opcode: u16, random: u8) -> (res: Result<(), DecodeError>)
        requires
            executable(old(self)@, opcode),
        ensures
            match decode(opcode) {
                Some(ins) => res is Ok && final(self)@ == apply(old(self)@, ins, random),
                None => res == Err::<(), DecodeError>(decode_error(opcode)) && final(self)@
                    == old(self)@,
            },
    {
        proof {
            lemma_opcode_fields(opcode);
        }
        match opcode {
            0x00E0 => self.op_cls(),
            0x00EE => self.op_ret(),
            0x1000..=0x1FFF => self.op_jp(opcode),
            0x2000..=0x2FFF => self.op_call(opcode),
            0x3000..=0x3FFF => self.op_se(opcode),
            0x4000..=0x4FFF => self.op_sne(opcode),
            0x5000..=0x5FFF => self.op_se_regs(opcode),
            0x6000..=0x6FFF => self.op_ld(opcode),
            0x7000..=0x7FFF => self.op_add(opcode),
            0x8000..=0x8FFF => {
                let last_nibble = opcode & 0x0F;
                match last_nibble {
                    0x0 => self.op_ld_regs(opcode),
                    0x1 => self.op_or(opcode),
                    0x2 => self.op_and(opcode),
                    0x3 => self.op_xor(opcode),
                    0x4 => self.op_add_regs(opcode),
                    0x5 => self.op_sub(opcode),
                    0x6 => self.op_shr(opcode),
                    0x7 => self.op_subn(opcode),
                    0xE => self.op_shl(opcode),
                    _ => return Err(DecodeError::UnknownOpcode(opcode)),
                }
            },
            0x9000..=0x9FFF => self.op_sne_regs(opcode),
            0xA000..=0xAFFF => self.op_ldi(opcode),
            0xB000..=0xBFFF => self.op_jp_v0(opcode),
            0xC000..=0xCFFF => self.op_rnd(opcode, random),
            0xD000..=0xDFFF => self.op_drw(opcode),
            0xE000..=0xEFFF => {
                let last_byte = opcode & 0x00FF;
                match last_byte {
                    0x9E => self.op_skp(opcode),
                    0xA1 => self.op_sknp(opcode),
                    _ => return Err(DecodeError::UnknownOpcode(opcode)),
                }
            },
            0xF000..=0xFFFF => {
                let last_byte = opcode & 0x0FF;
                match last_byte {
                    0x07 => self.op_ldxdt(opcode),
                    0x0A => self.op_ldxk(opcode),
                    0x15 => self.op_lddt(opcode),
                    0x18 => self.op_ldst(opcode),
                    0x1E => self.op_addi(opcode),
                    0x29 => self.op_ldf(opcode),
                    0x33 => self.op_lbd(opcode),
                    0x55 => self.op_ldix(opcode),
                    0x65 => self.op_ldxi(opcode),
                    _ => return Err(DecodeError::UnknownOpcode(opcode)),
                }
            },
            _ => return Err(DecodeError::MachineRoutine(opcode)),
        }
        Ok(())
    }

    /// Executes `opcode`. The random-byte instruction draws its byte from the
    /// thread's random number generator; every other instruction is
    /// deterministic. An opcode that names no instruction is reported and
    /// changes nothing.
    pub fn execute(&mut self, opcode: u16) -> (res: Result<(), DecodeError>)
        requires
            executable(old(self)@, opcode),
        ensures
            match decode(opcode) {
                Some(ins) => {
                    &&& res is Ok
                    &&& exists|r: u8| final(self)@ == #[trigger] apply(old(self)@, ins, r)
                    &&& !(ins is Random) ==> final(self)@ == apply(old(self)@, ins, 0)
                },
                None => res == Err::<(), DecodeError>(decode_error(opcode)) && final(self)@
                    == old(self)@,
            },
    {
        let random = if 0xC000 <= opcode && opcode <= 0xCFFF {
            random_in(0, 255)
        } else {
            0
        };
        let res = self.execute_with_random(opcode, random);
        proof {
            if let Some(ins) = decode(opcode) {
                assert(self@ == apply(old(self)@, ins, random));
            }
        }
        res
    }
}

} // verus!

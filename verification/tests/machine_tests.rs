use chip8::cpu::{Cpu, RomError};
use chip8::display::{Display, OFF_COLOR, ON_COLOR, RENDERED_PIXELS};
use chip8::keypad::Key;
use chip8::machine::DecodeError;

const FONT: [u8; 80] = [
    0xF0, 0x90, 0x90, 0x90, 0xF0, 0x20, 0x60, 0x20, 0x20, 0x70, 0xF0, 0x10, 0xF0, 0x80, 0xF0,
    0xF0, 0x10, 0xF0, 0x10, 0xF0, 0x90, 0x90, 0xF0, 0x10, 0x10, 0xF0, 0x80, 0xF0, 0x10, 0xF0,
    0xF0, 0x80, 0xF0, 0x90, 0xF0, 0xF0, 0x10, 0x20, 0x40, 0x40, 0xF0, 0x90, 0xF0, 0x90, 0xF0,
    0xF0, 0x90, 0xF0, 0x10, 0xF0, 0xF0, 0x90, 0xF0, 0x90, 0x90, 0xE0, 0x90, 0xE0, 0x90, 0xE0,
    0xF0, 0x80, 0x80, 0x80, 0xF0, 0xE0, 0x90, 0x90, 0x90, 0xE0, 0xF0, 0x80, 0xF0, 0x80, 0xF0,
    0xF0, 0x80, 0xF0, 0x80, 0x80,
];

fn run(cpu: &mut Cpu, opcode: u16) {
    assert!(cpu.can_execute(opcode));
    assert_eq!(cpu.execute(opcode), Ok(()));
}

#[test]
fn new_cpu_power_on_state() {
    let cpu = Cpu::new();
    assert_eq!(cpu.program_counter, 0x200);
    assert_eq!(cpu.index_register, 0);
    assert_eq!(cpu.stack_pointer, 0);
    assert_eq!(cpu.registers, [0u8; 16]);
    assert_eq!(cpu.level_stack, [0u16; 16]);
    assert_eq!(cpu.delay_timer, 0);
    assert_eq!(cpu.sound_timer, 0);
    assert_eq!(cpu.keys, [false; 16]);
    assert_eq!(&cpu.memory[..80], &FONT[..]);
    assert!(cpu.memory[80..].iter().all(|&b| b == 0));
}

#[test]
fn load_rom_copies_at_program_counter() {
    let mut cpu = Cpu::new();
    assert_eq!(cpu.load_rom(&[0xA2, 0x2A, 0x60]), Ok(()));
    assert_eq!(&cpu.memory[0x200..0x203], &[0xA2, 0x2A, 0x60]);
    assert_eq!(cpu.memory[0x203], 0);
    assert_eq!(cpu.memory[0x1FF], 0);
    assert_eq!(cpu.program_counter, 0x200);
}

#[test]
fn load_rom_largest_image_fits() {
    let mut cpu = Cpu::new();
    let rom = vec![7u8; 4096 - 0x200 - 1];
    assert_eq!(cpu.load_rom(&rom), Ok(()));
    assert_eq!(cpu.memory[4094], 7);
    assert_eq!(cpu.memory[4095], 0);
}

#[test]
fn load_rom_out_of_memory_leaves_memory() {
    let mut cpu = Cpu::new();
    let rom = vec![7u8; 4096 - 0x200];
    assert_eq!(cpu.load_rom(&rom), Err(RomError::OutOfMemory));
    assert!(cpu.memory[0x200..].iter().all(|&b| b == 0));
}

#[test]
fn load_rom_with_counter_past_memory() {
    let mut cpu = Cpu::new();
    cpu.program_counter = 0x1000;
    assert_eq!(cpu.load_rom(&[]), Err(RomError::OutOfMemory));
}

#[test]
fn fetch_reads_big_endian_and_advances() {
    let mut cpu = Cpu::new();
    cpu.load_rom(&[0x12, 0x34, 0xAB, 0xCD]).unwrap();
    assert_eq!(cpu.fetch(), 0x1234);
    assert_eq!(cpu.program_counter, 0x202);
    assert_eq!(cpu.fetch(), 0xABCD);
    assert_eq!(cpu.program_counter, 0x204);
}

#[test]
fn load_then_fetch_gives_first_word() {
    let mut cpu = Cpu::new();
    cpu.program_counter = 0x300;
    cpu.load_rom(&[0x6A, 0x05]).unwrap();
    assert_eq!(cpu.fetch(), 0x6A05);
}

#[test]
fn unknown_opcodes_are_reported() {
    let mut cpu = Cpu::new();
    assert_eq!(cpu.execute(0x0123), Err(DecodeError::MachineRoutine(0x0123)));
    assert_eq!(cpu.execute(0x0000), Err(DecodeError::MachineRoutine(0x0000)));
    assert_eq!(cpu.execute(0x8AB8), Err(DecodeError::UnknownOpcode(0x8AB8)));
    assert_eq!(cpu.execute(0xE19F), Err(DecodeError::UnknownOpcode(0xE19F)));
    assert_eq!(cpu.execute(0xF199), Err(DecodeError::UnknownOpcode(0xF199)));
    assert_eq!(cpu.program_counter, 0x200);
    assert_eq!(cpu.registers, [0u8; 16]);
}

#[test]
fn jump_and_jump_with_offset() {
    let mut cpu = Cpu::new();
    run(&mut cpu, 0x1ABC);
    assert_eq!(cpu.program_counter, 0xABC);
    cpu.registers[0] = 0x10;
    run(&mut cpu, 0xB300);
    assert_eq!(cpu.program_counter, 0x310);
}

#[test]
fn call_then_return() {
    let mut cpu = Cpu::new();
    cpu.program_counter = 0x234;
    run(&mut cpu, 0x2456);
    assert_eq!(cpu.program_counter, 0x456);
    assert_eq!(cpu.stack_pointer, 1);
    assert_eq!(cpu.level_stack[0], 0x234);
    run(&mut cpu, 0x00EE);
    assert_eq!(cpu.program_counter, 0x234);
    assert_eq!(cpu.stack_pointer, 0);
}

#[test]
fn return_on_empty_stack_cannot_execute() {
    let cpu = Cpu::new();
    assert!(!cpu.can_execute(0x00EE));
}

#[test]
fn call_on_full_stack_cannot_execute() {
    let mut cpu = Cpu::new();
    cpu.stack_pointer = 16;
    assert!(!cpu.can_execute(0x2300));
    cpu.stack_pointer = 15;
    assert!(cpu.can_execute(0x2300));
}

#[test]
fn skip_on_byte() {
    let mut cpu = Cpu::new();
    cpu.registers[3] = 0x42;
    run(&mut cpu, 0x3342);
    assert_eq!(cpu.program_counter, 0x202);
    run(&mut cpu, 0x3341);
    assert_eq!(cpu.program_counter, 0x202);
    run(&mut cpu, 0x4341);
    assert_eq!(cpu.program_counter, 0x204);
    run(&mut cpu, 0x4342);
    assert_eq!(cpu.program_counter, 0x204);
}

#[test]
fn skip_on_registers() {
    let mut cpu = Cpu::new();
    cpu.registers[1] = 5;
    cpu.registers[2] = 5;
    cpu.registers[3] = 6;
    run(&mut cpu, 0x5120);
    assert_eq!(cpu.program_counter, 0x202);
    run(&mut cpu, 0x5130);
    assert_eq!(cpu.program_counter, 0x202);
    run(&mut cpu, 0x9130);
    assert_eq!(cpu.program_counter, 0x204);
    run(&mut cpu, 0x9120);
    assert_eq!(cpu.program_counter, 0x204);
}

#[test]
fn skip_at_top_of_address_space_cannot_execute() {
    let mut cpu = Cpu::new();
    cpu.program_counter = 0xFFFE;
    assert!(!cpu.can_execute(0x3000));
    assert!(cpu.can_execute(0x3001));
}

#[test]
fn load_and_add_byte_wraps() {
    let mut cpu = Cpu::new();
    run(&mut cpu, 0x6AF0);
    assert_eq!(cpu.registers[0xA], 0xF0);
    run(&mut cpu, 0x7A20);
    assert_eq!(cpu.registers[0xA], 0x10);
    assert_eq!(cpu.registers[0xF], 0);
}

#[test]
fn register_logic() {
    let mut cpu = Cpu::new();
    cpu.registers[1] = 0b1100;
    cpu.registers[2] = 0b1010;
    run(&mut cpu, 0x8121);
    assert_eq!(cpu.registers[1], 0b1110);
    cpu.registers[1] = 0b1100;
    run(&mut cpu, 0x8122);
    assert_eq!(cpu.registers[1], 0b1000);
    cpu.registers[1] = 0b1100;
    run(&mut cpu, 0x8123);
    assert_eq!(cpu.registers[1], 0b0110);
    run(&mut cpu, 0x8120);
    assert_eq!(cpu.registers[1], 0b1010);
}

#[test]
fn add_registers_sets_carry() {
    let mut cpu = Cpu::new();
    cpu.registers[1] = 200;
    cpu.registers[2] = 100;
    run(&mut cpu, 0x8124);
    assert_eq!(cpu.registers[1], 44);
    assert_eq!(cpu.registers[0xF], 1);
    cpu.registers[1] = 1;
    cpu.registers[2] = 2;
    run(&mut cpu, 0x8124);
    assert_eq!(cpu.registers[1], 3);
    assert_eq!(cpu.registers[0xF], 0);
}

#[test]
fn add_registers_into_flag_keeps_carry() {
    let mut cpu = Cpu::new();
    cpu.registers[0xF] = 250;
    cpu.registers[1] = 10;
    run(&mut cpu, 0x8F14);
    assert_eq!(cpu.registers[0xF], 1);
}

#[test]
fn subtract_sets_no_borrow_flag() {
    let mut cpu = Cpu::new();
    cpu.registers[1] = 10;
    cpu.registers[2] = 3;
    run(&mut cpu, 0x8125);
    assert_eq!(cpu.registers[1], 7);
    assert_eq!(cpu.registers[0xF], 1);
    cpu.registers[1] = 3;
    cpu.registers[2] = 10;
    run(&mut cpu, 0x8125);
    assert_eq!(cpu.registers[1], 249);
    assert_eq!(cpu.registers[0xF], 0);
    cpu.registers[1] = 4;
    cpu.registers[2] = 4;
    run(&mut cpu, 0x8125);
    assert_eq!(cpu.registers[1], 0);
    assert_eq!(cpu.registers[0xF], 1);
}

#[test]
fn reverse_subtract() {
    let mut cpu = Cpu::new();
    cpu.registers[1] = 3;
    cpu.registers[2] = 10;
    run(&mut cpu, 0x8127);
    assert_eq!(cpu.registers[1], 7);
    assert_eq!(cpu.registers[0xF], 1);
    cpu.registers[1] = 10;
    cpu.registers[2] = 3;
    run(&mut cpu, 0x8127);
    assert_eq!(cpu.registers[1], 249);
    assert_eq!(cpu.registers[0xF], 0);
}

#[test]
fn shifts_keep_shifted_out_bit() {
    let mut cpu = Cpu::new();
    cpu.registers[4] = 0b1000_0011;
    run(&mut cpu, 0x8406);
    assert_eq!(cpu.registers[4], 0b0100_0001);
    assert_eq!(cpu.registers[0xF], 1);
    cpu.registers[4] = 0b1000_0011;
    run(&mut cpu, 0x840E);
    assert_eq!(cpu.registers[4], 0b0000_0110);
    assert_eq!(cpu.registers[0xF], 1);
    cpu.registers[4] = 0b0100_0010;
    run(&mut cpu, 0x840E);
    assert_eq!(cpu.registers[4], 0b1000_0100);
    assert_eq!(cpu.registers[0xF], 0);
}

#[test]
fn shift_right_of_flag_register() {
    let mut cpu = Cpu::new();
    cpu.registers[0xF] = 0b11;
    run(&mut cpu, 0x8F06);
    assert_eq!(cpu.registers[0xF], 0);
}

#[test]
fn index_instructions() {
    let mut cpu = Cpu::new();
    run(&mut cpu, 0xA123);
    assert_eq!(cpu.index_register, 0x123);
    cpu.registers[5] = 0x10;
    run(&mut cpu, 0xF51E);
    assert_eq!(cpu.index_register, 0x133);
    cpu.index_register = 0xFFFF;
    cpu.registers[5] = 2;
    run(&mut cpu, 0xF51E);
    assert_eq!(cpu.index_register, 1);
    cpu.registers[5] = 0xA;
    run(&mut cpu, 0xF529);
    assert_eq!(cpu.index_register, 50);
}

#[test]
fn random_byte_respects_mask() {
    let mut cpu = Cpu::new();
    for _ in 0..50 {
        run(&mut cpu, 0xC30F);
        assert!(cpu.registers[3] <= 0x0F);
        run(&mut cpu, 0xC300);
        assert_eq!(cpu.registers[3], 0);
    }
}

#[test]
fn execute_with_given_random_byte() {
    let mut cpu = Cpu::new();
    assert_eq!(cpu.execute_with_random(0xC30F, 0xAB), Ok(()));
    assert_eq!(cpu.registers[3], 0x0B);
    assert_eq!(cpu.execute_with_random(0x6301, 0xAB), Ok(()));
    assert_eq!(cpu.registers[3], 1);
}

#[test]
fn timers_load_and_store() {
    let mut cpu = Cpu::new();
    cpu.registers[2] = 60;
    run(&mut cpu, 0xF215);
    run(&mut cpu, 0xF218);
    assert_eq!(cpu.delay_timer, 60);
    assert_eq!(cpu.sound_timer, 60);
    cpu.tick_timers();
    run(&mut cpu, 0xF307);
    assert_eq!(cpu.registers[3], 59);
    assert_eq!(cpu.sound_timer, 59);
}

#[test]
fn tick_timers_stop_at_zero() {
    let mut cpu = Cpu::new();
    cpu.delay_timer = 1;
    cpu.sound_timer = 0;
    cpu.tick_timers();
    assert_eq!(cpu.delay_timer, 0);
    assert_eq!(cpu.sound_timer, 0);
    cpu.tick_timers();
    assert_eq!(cpu.delay_timer, 0);
}

#[test]
fn store_bcd_digits() {
    let mut cpu = Cpu::new();
    cpu.registers[6] = 234;
    cpu.index_register = 0x300;
    run(&mut cpu, 0xF633);
    assert_eq!(&cpu.memory[0x300..0x303], &[2, 3, 4]);
    cpu.registers[6] = 7;
    run(&mut cpu, 0xF633);
    assert_eq!(&cpu.memory[0x300..0x303], &[0, 0, 7]);
}

#[test]
fn store_bcd_at_end_of_memory_cannot_execute() {
    let mut cpu = Cpu::new();
    cpu.index_register = 4094;
    assert!(!cpu.can_execute(0xF033));
    cpu.index_register = 4093;
    assert!(cpu.can_execute(0xF033));
}

#[test]
fn store_then_load_registers() {
    let mut cpu = Cpu::new();
    for i in 0..16 {
        cpu.registers[i] = (i as u8) * 3 + 1;
    }
    let saved = cpu.registers;
    cpu.index_register = 0x400;
    run(&mut cpu, 0xF355);
    assert_eq!(&cpu.memory[0x400..0x404], &[1, 4, 7, 10]);
    assert_eq!(cpu.memory[0x404], 0);
    cpu.registers = [0; 16];
    run(&mut cpu, 0xF365);
    assert_eq!(&cpu.registers[..4], &saved[..4]);
    assert_eq!(cpu.registers[4], 0);
    assert_eq!(cpu.index_register, 0x400);
}

#[test]
fn store_registers_past_memory_cannot_execute() {
    let mut cpu = Cpu::new();
    cpu.index_register = 4090;
    assert!(cpu.can_execute(0xF555));
    assert!(!cpu.can_execute(0xF655));
    assert!(!cpu.can_execute(0xF665));
}

#[test]
fn draw_font_digit_zero() {
    let mut cpu = Cpu::new();
    run(&mut cpu, 0xA000);
    run(&mut cpu, 0xD005);
    assert_eq!(cpu.registers[0xF], 0);
    for row in 0..5 {
        for col in 0..8 {
            let expected = (FONT[row] >> (7 - col)) & 1 == 1;
            assert_eq!(cpu.display.get_pixel(col, row), expected);
        }
    }
    assert!(!cpu.display.get_pixel(8, 0));
    assert!(!cpu.display.get_pixel(0, 5));
}

#[test]
fn draw_twice_erases_and_collides() {
    let mut cpu = Cpu::new();
    cpu.registers[1] = 10;
    cpu.registers[2] = 7;
    run(&mut cpu, 0xA00A);
    run(&mut cpu, 0xD125);
    assert_eq!(cpu.registers[0xF], 0);
    assert!(cpu.display.get_pixel(12, 7));
    run(&mut cpu, 0xD125);
    assert_eq!(cpu.registers[0xF], 1);
    for y in 0..32 {
        for x in 0..64 {
            assert!(!cpu.display.get_pixel(x, y));
        }
    }
}

#[test]
fn draw_wraps_around_the_screen() {
    let mut cpu = Cpu::new();
    cpu.registers[1] = 62;
    cpu.registers[2] = 31;
    cpu.memory[0x300] = 0xFF;
    cpu.memory[0x301] = 0x80;
    cpu.index_register = 0x300;
    run(&mut cpu, 0xD122);
    assert!(cpu.display.get_pixel(62, 31));
    assert!(cpu.display.get_pixel(63, 31));
    assert!(cpu.display.get_pixel(0, 31));
    assert!(cpu.display.get_pixel(5, 31));
    assert!(!cpu.display.get_pixel(6, 31));
    assert!(cpu.display.get_pixel(62, 0));
    assert!(!cpu.display.get_pixel(63, 0));
}

#[test]
fn draw_with_large_coordinates_wraps() {
    let mut cpu = Cpu::new();
    cpu.registers[1] = 200;
    cpu.registers[2] = 100;
    run(&mut cpu, 0xA000);
    run(&mut cpu, 0xD121);
    assert!(cpu.display.get_pixel(200 % 64, 100 % 32));
    assert!(cpu.display.get_pixel(200 % 64 + 3, 100 % 32));
    assert!(!cpu.display.get_pixel(200 % 64 + 4, 100 % 32));
}

#[test]
fn draw_zero_rows_changes_nothing() {
    let mut cpu = Cpu::new();
    cpu.index_register = 0xFFFF;
    run(&mut cpu, 0xD120);
    assert_eq!(cpu.registers[0xF], 0);
    assert!(!cpu.display.get_pixel(0, 0));
}

#[test]
fn draw_past_memory_cannot_execute() {
    let mut cpu = Cpu::new();
    cpu.index_register = 4092;
    assert!(cpu.can_execute(0xD124));
    assert!(!cpu.can_execute(0xD125));
}

#[test]
fn collision_flag_is_not_cleared_by_a_clean_draw() {
    let mut cpu = Cpu::new();
    cpu.registers[0xF] = 1;
    run(&mut cpu, 0xA000);
    run(&mut cpu, 0xD001);
    assert_eq!(cpu.registers[0xF], 1);
}

#[test]
fn clear_screen() {
    let mut cpu = Cpu::new();
    run(&mut cpu, 0xD005);
    run(&mut cpu, 0x00E0);
    assert!(!cpu.display.get_pixel(0, 0));
}

#[test]
fn keypad_layout() {
    let mut cpu = Cpu::new();
    cpu.update_keys(&[Key::X, Key::V, Key::Other]);
    let mut expected = [false; 16];
    expected[0x0] = true;
    expected[0xF] = true;
    assert_eq!(cpu.keys, expected);
    cpu.update_keys(&[Key::Key4, Key::Q]);
    let mut expected = [false; 16];
    expected[0xC] = true;
    expected[0x4] = true;
    assert_eq!(cpu.keys, expected);
    cpu.update_keys(&[]);
    assert_eq!(cpu.keys, [false; 16]);
}

#[test]
fn key_slots() {
    let layout = [
        (Key::X, 0x0), (Key::Key1, 0x1), (Key::Key2, 0x2), (Key::Key3, 0x3),
        (Key::Q, 0x4), (Key::W, 0x5), (Key::E, 0x6), (Key::A, 0x7),
        (Key::S, 0x8), (Key::D, 0x9), (Key::Z, 0xA), (Key::C, 0xB),
        (Key::Key4, 0xC), (Key::R, 0xD), (Key::F, 0xE), (Key::V, 0xF),
    ];
    for (key, slot) in layout {
        assert_eq!(key.slot(), Some(slot));
    }
    assert_eq!(Key::Other.slot(), None);
}

#[test]
fn skip_on_key_state() {
    let mut cpu = Cpu::new();
    cpu.registers[2] = 0x5;
    cpu.update_keys(&[Key::W]);
    run(&mut cpu, 0xE29E);
    assert_eq!(cpu.program_counter, 0x202);
    run(&mut cpu, 0xE2A1);
    assert_eq!(cpu.program_counter, 0x202);
    cpu.update_keys(&[]);
    run(&mut cpu, 0xE2A1);
    assert_eq!(cpu.program_counter, 0x204);
}

#[test]
fn skip_on_key_out_of_range_cannot_execute() {
    let mut cpu = Cpu::new();
    cpu.registers[2] = 16;
    assert!(!cpu.can_execute(0xE29E));
    assert!(!cpu.can_execute(0xE2A1));
}

#[test]
fn wait_key_takes_lowest_pressed_key() {
    let mut cpu = Cpu::new();
    cpu.update_keys(&[Key::V, Key::E, Key::A]);
    run(&mut cpu, 0xF30A);
    assert_eq!(cpu.registers[3], 0x6);
    assert_eq!(cpu.program_counter, 0x200);
}

#[test]
fn wait_key_repeats_without_keys() {
    let mut cpu = Cpu::new();
    cpu.load_rom(&[0xF3, 0x0A]).unwrap();
    let opcode = cpu.fetch();
    assert_eq!(cpu.program_counter, 0x202);
    run(&mut cpu, opcode);
    assert_eq!(cpu.program_counter, 0x200);
    assert_eq!(cpu.fetch(), 0xF30A);
}

#[test]
fn wait_key_at_address_zero_cannot_execute() {
    let mut cpu = Cpu::new();
    cpu.program_counter = 0;
    assert!(!cpu.can_execute(0xF00A));
    cpu.update_keys(&[Key::X]);
    assert!(cpu.can_execute(0xF00A));
}

#[test]
fn set_pixel_reports_collision() {
    let mut d = Display::new();
    assert!(!d.set_pixel(3, 4, true));
    assert!(d.get_pixel(3, 4));
    assert!(!d.set_pixel(3, 4, false));
    assert!(d.get_pixel(3, 4));
    assert!(d.set_pixel(3, 4, true));
    assert!(!d.get_pixel(3, 4));
}

#[test]
fn set_pixel_twice_restores() {
    let mut d = Display::new();
    d.set_pixel(63, 31, true);
    d.set_pixel(63, 31, true);
    assert!(!d.get_pixel(63, 31));
}

#[test]
fn display_clear() {
    let mut d = Display::new();
    d.set_pixel(0, 0, true);
    d.set_pixel(10, 10, true);
    d.clear();
    assert!(!d.get_pixel(0, 0));
    assert!(!d.get_pixel(10, 10));
}

#[test]
fn render_scales_each_pixel() {
    let mut d = Display::new();
    d.set_pixel(1, 2, true);
    let buffer = d.render();
    assert_eq!(buffer.len(), RENDERED_PIXELS);
    let width = 640;
    for row in 20..30 {
        for col in 10..20 {
            assert_eq!(buffer[row * width + col], ON_COLOR);
        }
    }
    assert_eq!(buffer[19 * width + 10], OFF_COLOR);
    assert_eq!(buffer[20 * width + 9], OFF_COLOR);
    assert_eq!(buffer[30 * width + 10], OFF_COLOR);
    assert_eq!(buffer[20 * width + 20], OFF_COLOR);
    assert_eq!(buffer.iter().filter(|&&c| c == ON_COLOR).count(), 100);
}

#[test]
fn random_byte_varies() {
    let mut cpu = Cpu::new();
    let mut seen = [false; 256];
    for _ in 0..200 {
        run(&mut cpu, 0xC3FF);
        seen[cpu.registers[3] as usize] = true;
    }
    assert!(seen.iter().filter(|&&s| s).count() > 1);
}

#[test]
fn non_random_instructions_ignore_the_random_byte() {
    let mut a = Cpu::new();
    let mut b = Cpu::new();
    for &op in &[0x6A05u16, 0x7A10, 0x8AB4, 0xA123, 0xF033, 0xD005] {
        assert_eq!(a.execute_with_random(op, 0x00), Ok(()));
        assert_eq!(b.execute_with_random(op, 0xFF), Ok(()));
    }
    assert_eq!(a.registers, b.registers);
    assert_eq!(a.index_register, b.index_register);
    assert_eq!(&a.memory[..], &b.memory[..]);
    assert_eq!(a.display.render(), b.display.render());
}

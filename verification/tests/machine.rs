use chip8::cpu::{Cpu, Fatal, MAX_ROM_BYTES};

const NO_KEYS: [bool; 16] = [false; 16];

fn loaded(rom: &[u8], compatibility_mode: bool) -> Cpu {
    let mut cpu = Cpu::new();
    cpu.load_rom(&rom.to_vec(), compatibility_mode).unwrap();
    cpu
}

#[test]
fn load_rom_installs_font_and_program() {
    let cpu = loaded(&[0x12, 0x34, 0x56], false);
    assert_eq!(cpu.program_counter, 0x200);
    // First and last font bytes.
    assert_eq!(cpu.memory[0x50], 0xF0);
    assert_eq!(cpu.memory[0x9F], 0x80);
    // Program image verbatim at 0x200.
    assert_eq!(&cpu.memory[0x200..0x203], &[0x12, 0x34, 0x56]);
    // Everything around stays zero.
    assert_eq!(cpu.memory[0x4F], 0);
    assert_eq!(cpu.memory[0xA0], 0);
    assert_eq!(cpu.memory[0x203], 0);
}

#[test]
fn load_rom_rejects_oversized_image() {
    let mut cpu = Cpu::new();
    let rom = vec![0u8; MAX_ROM_BYTES + 1];
    assert_eq!(cpu.load_rom(&rom, false), Err(Fatal::RomTooLarge));
    // The machine is untouched.
    assert_eq!(cpu.program_counter, 0);
    assert_eq!(cpu.memory[0x50], 0);
    // The largest accepted image loads.
    let rom = vec![0xABu8; MAX_ROM_BYTES];
    assert_eq!(cpu.load_rom(&rom, false), Ok(()));
    assert_eq!(cpu.memory[0x200 + MAX_ROM_BYTES - 1], 0xAB);
}

#[test]
fn jump_absolute_sets_program_counter() {
    let mut cpu = loaded(&[0x15, 0x67], false);
    cpu.tick(&NO_KEYS).unwrap();
    assert_eq!(cpu.program_counter, 0x567);
}

#[test]
fn jump_with_offset_picks_register_by_mode() {
    // Compatibility mode off: the offset comes from register X.
    let mut cpu = loaded(&[0xB3, 0x00], false);
    cpu.registers[0x3] = 0x10;
    cpu.registers[0x0] = 0x01;
    cpu.tick(&NO_KEYS).unwrap();
    assert_eq!(cpu.program_counter, 0x310);
    // Compatibility mode on: the offset comes from register 0.
    let mut cpu = loaded(&[0xB3, 0x00], true);
    cpu.registers[0x3] = 0x10;
    cpu.registers[0x0] = 0x01;
    cpu.tick(&NO_KEYS).unwrap();
    assert_eq!(cpu.program_counter, 0x301);
}

#[test]
fn call_and_return_use_the_stack() {
    let mut cpu = loaded(&[0x2A, 0xBC], false);
    cpu.memory[0xABC] = 0x00;
    cpu.memory[0xABD] = 0xEE;
    cpu.tick(&NO_KEYS).unwrap();
    assert_eq!(cpu.program_counter, 0xABC);
    assert_eq!(cpu.stack, vec![0x202]);
    cpu.tick(&NO_KEYS).unwrap();
    assert_eq!(cpu.program_counter, 0x202);
    assert!(cpu.stack.is_empty());
}

#[test]
fn return_on_empty_stack_is_fatal() {
    let mut cpu = loaded(&[0x00, 0xEE], false);
    assert_eq!(cpu.tick(&NO_KEYS), Err(Fatal::EmptyStack));
    // The machine is left as it was.
    assert_eq!(cpu.program_counter, 0x200);
}

#[test]
fn unrecognized_instruction_is_fatal() {
    let mut cpu = loaded(&[0xFF, 0xFF], false);
    assert_eq!(cpu.tick(&NO_KEYS), Err(Fatal::UnrecognizedInstruction(0xFFFF)));
    assert_eq!(cpu.program_counter, 0x200);
}

#[test]
fn skip_if_equal_immediate() {
    let mut cpu = loaded(&[0x31, 0x42], false);
    cpu.registers[1] = 0x42;
    cpu.tick(&NO_KEYS).unwrap();
    assert_eq!(cpu.program_counter, 0x204);
    let mut cpu = loaded(&[0x31, 0x42], false);
    cpu.registers[1] = 0x41;
    cpu.tick(&NO_KEYS).unwrap();
    assert_eq!(cpu.program_counter, 0x202);
}

#[test]
fn skip_if_not_equal_register() {
    let mut cpu = loaded(&[0x91, 0x20], false);
    cpu.registers[1] = 1;
    cpu.registers[2] = 2;
    cpu.tick(&NO_KEYS).unwrap();
    assert_eq!(cpu.program_counter, 0x204);
    let mut cpu = loaded(&[0x91, 0x20], false);
    cpu.registers[1] = 7;
    cpu.registers[2] = 7;
    cpu.tick(&NO_KEYS).unwrap();
    assert_eq!(cpu.program_counter, 0x202);
}

#[test]
fn arithmetic_writes_result_then_flag() {
    // 0x8124: register 1 += register 2 with carry into register F.
    let mut cpu = loaded(&[0x81, 0x24], false);
    cpu.registers[1] = 0xFF;
    cpu.registers[2] = 0x02;
    cpu.tick(&NO_KEYS).unwrap();
    assert_eq!(cpu.registers[1], 0x01);
    assert_eq!(cpu.registers[0xF], 1);
    // With X == 0xF the flag write lands after the result write, so the flag
    // wins.
    let mut cpu = loaded(&[0x8F, 0x24], false);
    cpu.registers[0xF] = 0x03;
    cpu.registers[2] = 0x04;
    cpu.tick(&NO_KEYS).unwrap();
    assert_eq!(cpu.registers[0xF], 0);
}

#[test]
fn set_immediate_and_add_immediate() {
    let mut cpu = loaded(&[0x61, 0x2A, 0x71, 0x05], false);
    cpu.tick(&NO_KEYS).unwrap();
    assert_eq!(cpu.registers[1], 0x2A);
    cpu.tick(&NO_KEYS).unwrap();
    assert_eq!(cpu.registers[1], 0x2F);
}

#[test]
fn index_register_instructions() {
    let mut cpu = loaded(&[0xA1, 0x23, 0xF1, 0x1E, 0xF2, 0x29], false);
    cpu.registers[1] = 0x10;
    cpu.registers[2] = 0x03;
    cpu.tick(&NO_KEYS).unwrap();
    assert_eq!(cpu.index_register, 0x123);
    cpu.tick(&NO_KEYS).unwrap();
    assert_eq!(cpu.index_register, 0x133);
    // Font address of glyph 3: 0x50 + 3 * 5.
    cpu.tick(&NO_KEYS).unwrap();
    assert_eq!(cpu.index_register, 0x5F);
}

#[test]
fn timer_instructions_and_ticks() {
    let mut cpu = loaded(&[0x61, 0x02, 0xF1, 0x15, 0xF1, 0x18, 0xF2, 0x07], false);
    cpu.tick(&NO_KEYS).unwrap();
    cpu.tick(&NO_KEYS).unwrap();
    cpu.tick(&NO_KEYS).unwrap();
    assert_eq!(cpu.delay_timer, 2);
    assert_eq!(cpu.sound_timer, 2);
    cpu.tick(&NO_KEYS).unwrap();
    assert_eq!(cpu.registers[2], 2);
}

#[test]
fn timers_saturate_at_zero() {
    let mut cpu = Cpu::new();
    cpu.delay_timer = 0;
    cpu.sound_timer = 2;
    // Sound timer 2: still audible after the decrement.
    assert!(cpu.decrement_timers());
    assert_eq!(cpu.delay_timer, 0);
    assert_eq!(cpu.sound_timer, 1);
    // Sound timer 1: falls silent, delay timer stays at zero.
    assert!(!cpu.decrement_timers());
    assert_eq!(cpu.delay_timer, 0);
    assert_eq!(cpu.sound_timer, 0);
    assert!(!cpu.decrement_timers());
    assert_eq!(cpu.sound_timer, 0);
}

#[test]
fn decimal_decompose_writes_three_digits() {
    let mut cpu = loaded(&[0xF1, 0x33], false);
    cpu.registers[1] = 234;
    cpu.index_register = 0x400;
    cpu.tick(&NO_KEYS).unwrap();
    assert_eq!(&cpu.memory[0x400..0x403], &[2, 3, 4]);
    assert_eq!(cpu.index_register, 0x400);
}

#[test]
fn register_dump_round_trip() {
    // Save registers 0..=5, clobber them, load them back: the bank is
    // restored and each transfer advances the index register by 6.
    let mut cpu = loaded(&[0xF5, 0x55, 0xF5, 0x65], false);
    for i in 0..6 {
        cpu.registers[i] = (10 + i) as u8;
    }
    cpu.registers[6] = 99;
    cpu.index_register = 0x300;
    cpu.tick(&NO_KEYS).unwrap();
    assert_eq!(&cpu.memory[0x300..0x306], &[10, 11, 12, 13, 14, 15]);
    assert_eq!(cpu.index_register, 0x306);
    for i in 0..6 {
        cpu.registers[i] = 0;
    }
    cpu.index_register = 0x300;
    cpu.tick(&NO_KEYS).unwrap();
    for i in 0..6 {
        assert_eq!(cpu.registers[i], (10 + i) as u8);
    }
    assert_eq!(cpu.registers[6], 99);
    assert_eq!(cpu.index_register, 0x306);
}

#[test]
fn save_registers_past_memory_end_is_fatal() {
    let mut cpu = loaded(&[0xF5, 0x55], false);
    cpu.index_register = 0xFFB;
    assert_eq!(cpu.tick(&NO_KEYS), Err(Fatal::MemoryOutOfRange));
    assert_eq!(cpu.program_counter, 0x200);
}

#[test]
fn draw_sprite_from_memory_sets_collision_flag() {
    // Draw the five-row font glyph for 0 at (0, 0) twice.
    let mut cpu = loaded(&[0xA0, 0x50, 0xD0, 0x15, 0xD0, 0x15], false);
    cpu.tick(&NO_KEYS).unwrap();
    cpu.tick(&NO_KEYS).unwrap();
    // Glyph row 0 is 0xF0: four lit cells.
    assert_eq!(&cpu.display.data[0..5], &[0xFF, 0xFF, 0xFF, 0xFF, 0]);
    assert_eq!(cpu.registers[0xF], 0);
    cpu.tick(&NO_KEYS).unwrap();
    // The redraw turns every lit cell back toward off and reports collision.
    assert_eq!(&cpu.display.data[0..5], &[0xF7, 0xF7, 0xF7, 0xF7, 0]);
    assert_eq!(cpu.registers[0xF], 1);
}

#[test]
fn draw_with_no_rows_still_clears_the_flag() {
    let mut cpu = loaded(&[0xD0, 0x10], false);
    cpu.registers[0xF] = 1;
    cpu.tick(&NO_KEYS).unwrap();
    assert_eq!(cpu.registers[0xF], 0);
    assert!(cpu.display.data.iter().all(|&c| c == 0));
}

#[test]
fn draw_sprite_past_memory_end_is_fatal() {
    let mut cpu = loaded(&[0xD0, 0x15], false);
    cpu.index_register = 0xFFE;
    assert_eq!(cpu.tick(&NO_KEYS), Err(Fatal::MemoryOutOfRange));
}

#[test]
fn clear_display_instruction() {
    let mut cpu = loaded(&[0x00, 0xE0], false);
    cpu.display.data[100] = 0xFF;
    cpu.tick(&NO_KEYS).unwrap();
    assert!(cpu.display.data.iter().all(|&c| c == 0));
}

#[test]
fn skip_if_key_pressed_tests_low_nibble() {
    let mut keys = [false; 16];
    keys[5] = true;
    // Register 1 holds 0x25: only the low nibble (5) names the key.
    let mut cpu = loaded(&[0xE1, 0x9E], false);
    cpu.registers[1] = 0x25;
    cpu.tick(&keys).unwrap();
    assert_eq!(cpu.program_counter, 0x204);
    let mut cpu = loaded(&[0xE1, 0xA1], false);
    cpu.registers[1] = 0x25;
    cpu.tick(&keys).unwrap();
    assert_eq!(cpu.program_counter, 0x202);
}

#[test]
fn wait_for_key_spins_until_a_key_arrives() {
    let mut cpu = loaded(&[0xF2, 0x0A], false);
    // No key: the program counter rewinds so the instruction re-executes.
    cpu.tick(&NO_KEYS).unwrap();
    assert_eq!(cpu.program_counter, 0x200);
    cpu.tick(&NO_KEYS).unwrap();
    assert_eq!(cpu.program_counter, 0x200);
    // A key arrives: its index lands in register X and execution proceeds.
    let mut keys = [false; 16];
    keys[0xB] = true;
    cpu.tick(&keys).unwrap();
    assert_eq!(cpu.registers[2], 0xB);
    assert_eq!(cpu.program_counter, 0x202);
}

#[test]
fn random_and_mask_clears_masked_bits() {
    // A zero mask forces a zero result whatever the random byte was.
    let mut cpu = loaded(&[0xC1, 0x00], false);
    cpu.registers[1] = 0x77;
    cpu.tick(&NO_KEYS).unwrap();
    assert_eq!(cpu.registers[1], 0);
    // A partial mask clears the masked-out bits.
    let mut cpu = loaded(&[0xC1, 0x0F], false);
    cpu.tick(&NO_KEYS).unwrap();
    assert_eq!(cpu.registers[1] & 0xF0, 0);
}

#[test]
fn program_counter_running_off_memory_is_fatal() {
    let mut cpu = Cpu::new();
    cpu.program_counter = 0xFFF;
    assert_eq!(cpu.tick(&NO_KEYS), Err(Fatal::MemoryOutOfRange));
}
